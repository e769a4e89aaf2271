//! What resolution keeps: the scopes it finds, and the depths already recorded.
use crate::lexer::SpecToken;
use crate::parser::expr::{SpecExpr, SpecExprKind};
use crate::parser::stmt::SpecStmt;
use crate::resolver::model::{
    begin_scope, declare, define, innermost, resolve_expr, resolve_exprs, resolve_function,
    resolve_kind, resolve_methods, resolve_opt_expr, resolve_params, resolve_stmt,
    resolve_stmts, scope_from_top, Outcome, ResolverState, SpecResolveError,
};
use vstd::prelude::*;

verus! {

/// Whether outcome `o`, reached from state `st`, kept the `n` outermost
/// scopes as they were, left at least as many scopes as it found (exactly as
/// many if it succeeded), and kept every depth already recorded.
pub open spec fn keeps(st: ResolverState, o: Outcome, n: int) -> bool {
    &&& o.state.scopes.len() >= st.scopes.len()
    &&& forall|i: int| 0 <= i < n ==> #[trigger] o.state.scopes[i] == st.scopes[i]
    &&& o.result is Ok ==> o.state.scopes.len() == st.scopes.len()
    &&& st.depths.dom().subset_of(o.state.depths.dom())
}

/// Resolving an expression never changes the scopes, and only adds depths.
pub proof fn lemma_expr_keeps(st: ResolverState, e: SpecExpr)
    ensures
        resolve_expr(st, e).state.scopes == st.scopes,
        st.depths.dom().subset_of(resolve_expr(st, e).state.depths.dom()),
    decreases e, 1int,
{
    lemma_kind_keeps(st, e.id, e.kind);
}

proof fn lemma_kind_keeps(st: ResolverState, id: usize, k: SpecExprKind)
    ensures
        resolve_kind(st, id, k).state.scopes == st.scopes,
        st.depths.dom().subset_of(resolve_kind(st, id, k).state.depths.dom()),
    decreases k, 0int,
{
    match k {
        SpecExprKind::Assign { name, value } => {
            lemma_expr_keeps(st, *value);
        },
        SpecExprKind::Grouping(e) => lemma_expr_keeps(st, *e),
        SpecExprKind::Unary { operator, right } => lemma_expr_keeps(st, *right),
        SpecExprKind::Binary { left, operator, right } => {
            lemma_expr_keeps(st, *left);
            lemma_expr_keeps(resolve_expr(st, *left).state, *right);
        },
        SpecExprKind::Logical { left, operator, right } => {
            lemma_expr_keeps(st, *left);
            lemma_expr_keeps(resolve_expr(st, *left).state, *right);
        },
        SpecExprKind::Call { expr, arguments } => {
            lemma_expr_keeps(st, *expr);
            lemma_exprs_keeps(resolve_expr(st, *expr).state, arguments);
        },
        SpecExprKind::Get { object, name } => lemma_expr_keeps(st, *object),
        SpecExprKind::SetField { object, name, value } => {
            lemma_expr_keeps(st, *value);
            lemma_expr_keeps(resolve_expr(st, *value).state, *object);
        },
        _ => {},
    }
}

proof fn lemma_exprs_keeps(st: ResolverState, es: Seq<SpecExpr>)
    ensures
        resolve_exprs(st, es).state.scopes == st.scopes,
        st.depths.dom().subset_of(resolve_exprs(st, es).state.depths.dom()),
    decreases es, 2int,
{
    if es.len() > 0 {
        lemma_expr_keeps(st, es[0]);
        lemma_exprs_keeps(resolve_expr(st, es[0]).state, es.subrange(1, es.len() as int));
    }
}

proof fn lemma_opt_expr_keeps(st: ResolverState, e: Option<SpecExpr>)
    ensures
        resolve_opt_expr(st, e).state.scopes == st.scopes,
        st.depths.dom().subset_of(resolve_opt_expr(st, e).state.depths.dom()),
{
    if let Some(x) = e {
        lemma_expr_keeps(st, x);
    }
}

/// Declaring and defining parameters changes only the innermost scope.
proof fn lemma_params_keeps(st: ResolverState, params: Seq<SpecToken>)
    ensures
        keeps(st, resolve_params(st, params), st.scopes.len() - 1),
    decreases params.len(),
{
    if params.len() > 0 {
        let d = declare(st, params[0].lexeme, params[0].line);
        if d.result is Ok {
            lemma_params_keeps(define(d.state, params[0].lexeme), params.subrange(1, params.len() as int));
        }
    }
}

/// Resolving a statement that succeeds leaves as many scopes as it found, and
/// whatever its result, it changes none of the scopes outside the innermost
/// one and keeps every depth already recorded.
pub proof fn lemma_stmt_keeps(st: ResolverState, s: SpecStmt)
    ensures
        keeps(st, resolve_stmt(st, s), st.scopes.len() - 1),
    decreases s, 0int,
{
    match s {
        SpecStmt::Block(ss) => {
            lemma_stmts_keeps(begin_scope(st), ss);
        },
        SpecStmt::Declaration(name, initializer) => {
            let d = declare(st, name.lexeme, name.line);
            if d.result is Ok {
                lemma_opt_expr_keeps(d.state, initializer);
            }
        },
        SpecStmt::Function { name, params, body } => {
            let d = declare(st, name.lexeme, name.line);
            if d.result is Ok {
                lemma_function_keeps(define(d.state, name.lexeme), params, *body);
            }
        },
        SpecStmt::Expression(e) => lemma_expr_keeps(st, e),
        SpecStmt::Print(e) => lemma_expr_keeps(st, e),
        SpecStmt::If { condition, then_branch, else_branch } => {
            lemma_expr_keeps(st, condition);
            let c = resolve_expr(st, condition);
            if c.result is Ok {
                lemma_stmt_keeps(c.state, *then_branch);
                let t = resolve_stmt(c.state, *then_branch);
                if t.result is Ok {
                    if let Some(b) = else_branch {
                        lemma_stmt_keeps(t.state, *b);
                    }
                }
            }
        },
        SpecStmt::While { condition, block } => {
            lemma_expr_keeps(st, condition);
            let c = resolve_expr(st, condition);
            if c.result is Ok {
                lemma_stmt_keeps(c.state, *block);
            }
        },
        SpecStmt::Return(e) => lemma_opt_expr_keeps(st, e),
        SpecStmt::For { initializer, condition, increment, block } => {
            let b0 = begin_scope(st);
            if let Some(init) = initializer {
                lemma_stmt_keeps(b0, *init);
            }
            let i = match initializer {
                Some(init) => resolve_stmt(b0, *init),
                None => crate::resolver::model::ok(b0),
            };
            if i.result is Ok {
                lemma_opt_expr_keeps(i.state, condition);
                let c = resolve_opt_expr(i.state, condition);
                if c.result is Ok {
                    lemma_opt_expr_keeps(c.state, increment);
                    let n = resolve_opt_expr(c.state, increment);
                    if n.result is Ok {
                        lemma_stmt_keeps(n.state, *block);
                    }
                }
            }
        },
        SpecStmt::Class { name, methods, superclass } => {
            let d = declare(st, name.lexeme, name.line);
            if d.result is Ok {
                let s1 = define(d.state, name.lexeme);
                lemma_opt_expr_keeps(s1, superclass);
                let sc = resolve_opt_expr(s1, superclass);
                if sc.result is Ok {
                    let outer = if superclass is Some {
                        define(begin_scope(sc.state), "super"@)
                    } else {
                        sc.state
                    };
                    lemma_methods_keeps(define(begin_scope(outer), "this"@), methods);
                }
            }
        },
        _ => {},
    }
}

/// Resolving statements in order keeps what each statement keeps.
proof fn lemma_stmts_keeps(st: ResolverState, ss: Seq<SpecStmt>)
    ensures
        keeps(st, resolve_stmts(st, ss), st.scopes.len() - 1),
    decreases ss, 1int,
{
    if ss.len() > 0 {
        lemma_stmt_keeps(st, ss[0]);
        let o = resolve_stmt(st, ss[0]);
        if o.result is Ok {
            lemma_stmts_keeps(o.state, ss.subrange(1, ss.len() as int));
        }
    }
}

/// Resolving a function changes none of the scopes it found.
proof fn lemma_function_keeps(st: ResolverState, params: Seq<SpecToken>, body: SpecStmt)
    ensures
        keeps(st, resolve_function(st, params, body), st.scopes.len() as int),
    decreases body, 2int,
{
    let b0 = begin_scope(st);
    lemma_params_keeps(b0, params);
    let p = resolve_params(b0, params);
    if p.result is Ok {
        if let SpecStmt::Block(ss) = body {
            lemma_stmts_keeps(p.state, ss);
        }
    }
}

/// Resolving methods changes none of the scopes it found.
proof fn lemma_methods_keeps(st: ResolverState, ms: Seq<SpecStmt>)
    ensures
        keeps(st, resolve_methods(st, ms), st.scopes.len() as int),
    decreases ms, 3int,
{
    if ms.len() > 0 {
        if let SpecStmt::Function { name, params, body } = ms[0] {
            lemma_function_keeps(st, params, *body);
        }
        let o = match ms[0] {
            SpecStmt::Function { name, params, body } => resolve_function(st, params, *body),
            _ => crate::resolver::model::ok(st),
        };
        if o.result is Ok {
            lemma_methods_keeps(o.state, ms.subrange(1, ms.len() as int));
        }
    }
}

/// Resolving a block or a `for` loop that succeeds leaves the scopes exactly
/// as it found them: the scope it opens is closed again, and the scopes around
/// it are untouched, the innermost one included.
pub proof fn lemma_scoped_restores(st: ResolverState, s: SpecStmt)
    requires
        s is Block || s is For,
        resolve_stmt(st, s).result is Ok,
    ensures
        resolve_stmt(st, s).state.scopes == st.scopes,
{
    let b0 = begin_scope(st);
    let n = st.scopes.len() as int;
    match s {
        SpecStmt::Block(ss) => {
            lemma_stmts_keeps(b0, ss);
            let o = resolve_stmts(b0, ss);
            assert(o.state.scopes.drop_last() =~= st.scopes) by {
                assert forall|i: int| 0 <= i < n implies o.state.scopes.drop_last()[i] == st.scopes[i] by {
                    assert(o.state.scopes[i] == b0.scopes[i]);
                }
            }
        },
        SpecStmt::For { initializer, condition, increment, block } => {
            if let Some(init) = initializer {
                lemma_stmt_keeps(b0, *init);
            }
            let i = match initializer {
                Some(init) => resolve_stmt(b0, *init),
                None => crate::resolver::model::ok(b0),
            };
            lemma_opt_expr_keeps(i.state, condition);
            let c = resolve_opt_expr(i.state, condition);
            lemma_opt_expr_keeps(c.state, increment);
            let m = resolve_opt_expr(c.state, increment);
            lemma_stmt_keeps(m.state, *block);
            let b = resolve_stmt(m.state, *block);
            assert(b.state.scopes.drop_last() =~= st.scopes) by {
                assert forall|j: int| 0 <= j < n implies b.state.scopes.drop_last()[j] == st.scopes[j] by {
                    assert(b.state.scopes[j] == m.state.scopes[j]);
                    assert(i.state.scopes[j] == b0.scopes[j]);
                }
            }
        },
        _ => {},
    }
}

/// A statement resolved at the top level, with no scope open, leaves no scope
/// open when it succeeds.
pub proof fn lemma_top_level_closes_scopes(st: ResolverState, s: SpecStmt)
    requires
        st.scopes.len() == 0,
        resolve_stmt(st, s).result is Ok,
    ensures
        resolve_stmt(st, s).state.scopes.len() == 0,
{
    lemma_stmt_keeps(st, s);
}

/// The depth that resolution records for a name is the distance to the
/// innermost scope that holds it: that scope holds the name and no scope
/// inside it does. A name that no scope holds gets no depth.
pub proof fn lemma_innermost(scopes: Seq<Map<Seq<char>, bool>>, name: Seq<char>)
    ensures
        match innermost(scopes, name) {
            Some(d) => {
                &&& d < scopes.len()
                &&& scopes[scopes.len() - 1 - d].contains_key(name)
                &&& forall|j: int| 0 <= j < d ==> !(#[trigger] scopes[scopes.len() - 1 - j]).contains_key(name)
            },
            None => forall|j: int| 0 <= j < scopes.len() ==> !(#[trigger] scopes[j]).contains_key(name),
        },
{
    lemma_scope_from_top(scopes, name, 0);
    if innermost(scopes, name) is None {
        assert forall|j: int| 0 <= j < scopes.len() implies !(#[trigger] scopes[j]).contains_key(name) by {
            assert(scopes[scopes.len() - 1 - (scopes.len() - 1 - j)] == scopes[j]);
        }
    }
}

proof fn lemma_scope_from_top(scopes: Seq<Map<Seq<char>, bool>>, name: Seq<char>, i: nat)
    ensures
        match scope_from_top(scopes, name, i) {
            Some(d) => {
                &&& i <= d < scopes.len()
                &&& scopes[scopes.len() - 1 - d].contains_key(name)
                &&& forall|j: int| i <= j < d ==> !(#[trigger] scopes[scopes.len() - 1 - j]).contains_key(name)
            },
            None => forall|j: int| i <= j < scopes.len() ==> !(#[trigger] scopes[scopes.len() - 1 - j]).contains_key(name),
        },
    decreases scopes.len() - i,
{
    if i < scopes.len() && !scopes[scopes.len() - 1 - i].contains_key(name) {
        lemma_scope_from_top(scopes, name, i + 1);
    }
}

/// A name declared in the innermost scope cannot be declared there again:
/// the second declaration fails and changes nothing.
pub proof fn lemma_redeclaration(st: ResolverState, name: Seq<char>, line: usize, again: usize)
    requires
        st.scopes.len() > 0,
        declare(st, name, line).result is Ok,
    ensures
        declare(declare(st, name, line).state, name, again) == (Outcome {
            result: Err(SpecResolveError::AlreadyDefined(again, name)),
            state: declare(st, name, line).state,
        }),
{
}

/// A step that succeeded is `ok` of the state it left.
proof fn lemma_ok_outcome(o: Outcome)
    ensures
        o.result is Ok ==> o == crate::resolver::model::ok(o.state),
{
    if let Ok(u) = o.result {
        assert(u == ());
    }
}

/// Resolving statements in order: the first, then the rest.
proof fn lemma_stmts_cons(st: ResolverState, x: SpecStmt, rest: Seq<SpecStmt>)
    ensures
        resolve_stmts(st, seq![x] + rest) == ({
            let o = resolve_stmt(st, x);
            if o.result is Err {
                o
            } else {
                resolve_stmts(o.state, rest)
            }
        }),
{
    let ss = seq![x] + rest;
    assert(ss[0] == x);
    assert(ss.subrange(1, ss.len() as int) =~= rest);
}

/// Resolving expressions in order: the first, then the rest.
proof fn lemma_exprs_cons(st: ResolverState, x: SpecExpr, rest: Seq<SpecExpr>)
    ensures
        resolve_exprs(st, seq![x] + rest) == ({
            let o = resolve_expr(st, x);
            if o.result is Err {
                o
            } else {
                resolve_exprs(o.state, rest)
            }
        }),
{
    let es = seq![x] + rest;
    assert(es[0] == x);
    assert(es.subrange(1, es.len() as int) =~= rest);
}

/// The statements an optional statement stands for: none or one.
pub open spec fn opt_stmt_seq(s: Option<Box<SpecStmt>>) -> Seq<SpecStmt> {
    match s {
        Some(b) => seq![*b],
        None => Seq::empty(),
    }
}

/// The statements an optional expression stands for, as an expression
/// statement: none or one.
pub open spec fn opt_expr_seq(e: Option<SpecExpr>) -> Seq<SpecStmt> {
    match e {
        Some(x) => seq![SpecStmt::Expression(x)],
        None => Seq::empty(),
    }
}

/// An `if` resolves its condition, then its then branch, then its else branch
/// if it has one, exactly as those three in a row would: nothing is left out
/// and the order is kept.
pub proof fn lemma_if_in_order(
    st: ResolverState,
    condition: SpecExpr,
    then_branch: Box<SpecStmt>,
    else_branch: Option<Box<SpecStmt>>,
)
    ensures
        resolve_stmt(st, SpecStmt::If { condition, then_branch, else_branch }) == resolve_stmts(
            st,
            seq![SpecStmt::Expression(condition), *then_branch] + opt_stmt_seq(else_branch),
        ),
{
    let c = resolve_expr(st, condition);
    let t = resolve_stmt(c.state, *then_branch);
    let tail = opt_stmt_seq(else_branch);
    lemma_stmts_cons(st, SpecStmt::Expression(condition), seq![*then_branch] + tail);
    assert(seq![SpecStmt::Expression(condition), *then_branch] + tail =~= seq![SpecStmt::Expression(condition)] + (
    seq![*then_branch] + tail));
    lemma_stmts_cons(c.state, *then_branch, tail);
    lemma_ok_outcome(t);
    if let Some(b) = else_branch {
        lemma_stmts_cons(t.state, *b, Seq::empty());
        assert(tail =~= seq![*b] + Seq::<SpecStmt>::empty());
        lemma_ok_outcome(resolve_stmt(t.state, *b));
    }
}

/// A `while` resolves its condition, then its body, as those two in a row
/// would.
pub proof fn lemma_while_in_order(st: ResolverState, condition: SpecExpr, block: Box<SpecStmt>)
    ensures
        resolve_stmt(st, SpecStmt::While { condition, block }) == resolve_stmts(
            st,
            seq![SpecStmt::Expression(condition), *block],
        ),
{
    let c = resolve_expr(st, condition);
    lemma_stmts_cons(st, SpecStmt::Expression(condition), seq![*block]);
    assert(seq![SpecStmt::Expression(condition), *block] =~= seq![SpecStmt::Expression(condition)] + seq![
        *block]);
    lemma_stmts_cons(c.state, *block, Seq::empty());
    assert(seq![*block] =~= seq![*block] + Seq::<SpecStmt>::empty());
    lemma_ok_outcome(resolve_stmt(c.state, *block));
}

/// A `for` loop resolves as the block made of its parts would: its
/// initializer, its condition and its increment as expression statements,
/// then its body, all in one new scope.
pub proof fn lemma_for_as_block(
    st: ResolverState,
    initializer: Option<Box<SpecStmt>>,
    condition: Option<SpecExpr>,
    increment: Option<SpecExpr>,
    block: Box<SpecStmt>,
)
    ensures
        resolve_stmt(st, SpecStmt::For { initializer, condition, increment, block }) == resolve_stmt(
            st,
            SpecStmt::Block(
                opt_stmt_seq(initializer) + opt_expr_seq(condition) + opt_expr_seq(increment) + seq![*block],
            ),
        ),
{
    let b0 = begin_scope(st);
    let ci = opt_expr_seq(condition);
    let ii = opt_expr_seq(increment);
    let last = seq![*block];
    let i = match initializer {
        Some(s) => resolve_stmt(b0, *s),
        None => crate::resolver::model::ok(b0),
    };
    let c = resolve_opt_expr(i.state, condition);
    let n = resolve_opt_expr(c.state, increment);
    // the body alone
    lemma_stmts_cons(n.state, *block, Seq::empty());
    lemma_ok_outcome(resolve_stmt(n.state, *block));
    assert(last =~= seq![*block] + Seq::<SpecStmt>::empty());
    // the increment, then the body
    if let Some(x) = increment {
        lemma_stmts_cons(c.state, SpecStmt::Expression(x), last);
        assert(ii + last =~= seq![SpecStmt::Expression(x)] + last);
    } else {
        assert(ii + last =~= last);
    }
    // the condition, then the rest
    if let Some(x) = condition {
        lemma_stmts_cons(i.state, SpecStmt::Expression(x), ii + last);
        assert(ci + (ii + last) =~= seq![SpecStmt::Expression(x)] + (ii + last));
    } else {
        assert(ci + (ii + last) =~= ii + last);
    }
    // the initializer, then the rest
    if let Some(x) = initializer {
        lemma_stmts_cons(b0, *x, ci + (ii + last));
        assert(opt_stmt_seq(initializer) + (ci + (ii + last)) =~= seq![*x] + (ci + (ii + last)));
    } else {
        assert(opt_stmt_seq(initializer) + (ci + (ii + last)) =~= ci + (ii + last));
    }
    assert(opt_stmt_seq(initializer) + ci + ii + last =~= opt_stmt_seq(initializer) + (ci + (ii + last)));
}

/// `print` and expression statements, and `return` with a value, resolve
/// their expression and nothing else.
pub proof fn lemma_expression_statements(st: ResolverState, e: SpecExpr)
    ensures
        resolve_stmt(st, SpecStmt::Print(e)) == resolve_expr(st, e),
        resolve_stmt(st, SpecStmt::Expression(e)) == resolve_expr(st, e),
        resolve_stmt(st, SpecStmt::Return(Some(e))) == resolve_expr(st, e),
{
}

/// The parts of a compound expression are resolved in order, all of them:
/// the operands of a binary or logical expression left to right, a callee
/// then its arguments, an assigned value before its object.
pub proof fn lemma_expr_parts_in_order(st: ResolverState, id: usize, line: usize, k: SpecExprKind)
    ensures
        k matches SpecExprKind::Binary { left, operator, right } ==> resolve_expr(
            st,
            SpecExpr { id, kind: k, line },
        ) == resolve_exprs(st, seq![*left, *right]),
        k matches SpecExprKind::Logical { left, operator, right } ==> resolve_expr(
            st,
            SpecExpr { id, kind: k, line },
        ) == resolve_exprs(st, seq![*left, *right]),
        k matches SpecExprKind::Call { expr, arguments } ==> resolve_expr(st, SpecExpr { id, kind: k, line })
            == resolve_exprs(st, seq![*expr] + arguments),
        k matches SpecExprKind::SetField { object, name, value } ==> resolve_expr(
            st,
            SpecExpr { id, kind: k, line },
        ) == resolve_exprs(st, seq![*value, *object]),
        k matches SpecExprKind::Grouping(x) ==> resolve_expr(st, SpecExpr { id, kind: k, line }) == resolve_expr(
            st,
            *x,
        ),
        k matches SpecExprKind::Unary { operator, right } ==> resolve_expr(st, SpecExpr { id, kind: k, line })
            == resolve_expr(st, *right),
        k matches SpecExprKind::Get { object, name } ==> resolve_expr(st, SpecExpr { id, kind: k, line })
            == resolve_expr(st, *object),
{
    match k {
        SpecExprKind::Binary { left, operator, right } => {
            lemma_exprs_cons(st, *left, seq![*right]);
            assert(seq![*left, *right] =~= seq![*left] + seq![*right]);
            lemma_exprs_cons(resolve_expr(st, *left).state, *right, Seq::empty());
            assert(seq![*right] =~= seq![*right] + Seq::<SpecExpr>::empty());
            lemma_ok_outcome(resolve_expr(resolve_expr(st, *left).state, *right));
        },
        SpecExprKind::Logical { left, operator, right } => {
            lemma_exprs_cons(st, *left, seq![*right]);
            assert(seq![*left, *right] =~= seq![*left] + seq![*right]);
            lemma_exprs_cons(resolve_expr(st, *left).state, *right, Seq::empty());
            assert(seq![*right] =~= seq![*right] + Seq::<SpecExpr>::empty());
            lemma_ok_outcome(resolve_expr(resolve_expr(st, *left).state, *right));
        },
        SpecExprKind::Call { expr, arguments } => {
            lemma_exprs_cons(st, *expr, arguments);
        },
        SpecExprKind::SetField { object, name, value } => {
            lemma_exprs_cons(st, *value, seq![*object]);
            assert(seq![*value, *object] =~= seq![*value] + seq![*object]);
            lemma_exprs_cons(resolve_expr(st, *value).state, *object, Seq::empty());
            assert(seq![*object] =~= seq![*object] + Seq::<SpecExpr>::empty());
            lemma_ok_outcome(resolve_expr(resolve_expr(st, *value).state, *object));
        },
        _ => {},
    }
}

/// A variable read resolves as the resolver is for. If the innermost scope
/// holds the name declared but not yet defined, the read is refused as a
/// self-reference and nothing changes. Otherwise it succeeds and the scopes
/// stay as they are; if some scope holds the name, the depth recorded for the
/// read is the distance to the innermost scope holding it, and no other depth
/// changes; if none holds it, the variable is global and nothing is recorded.
pub proof fn lemma_variable_read(st: ResolverState, id: usize, line: usize, t: SpecToken)
    requires
        st.scopes.len() <= usize::MAX,
    ensures
        ({
            let o = resolve_expr(st, SpecExpr { id, kind: SpecExprKind::Identifier(t), line });
            let n = st.scopes.len();
            if n > 0 && st.scopes[n - 1].contains_key(t.lexeme) && !st.scopes[n - 1][t.lexeme] {
                o == (Outcome { result: Err(SpecResolveError::SelfReference(t.line)), state: st })
            } else {
                &&& o.result is Ok
                &&& o.state.scopes == st.scopes
                &&& (exists|j: int| 0 <= j < n && (#[trigger] st.scopes[j]).contains_key(t.lexeme)) ==> {
                    &&& o.state.depths.contains_key(id)
                    &&& o.state.depths[id] < n
                    &&& st.scopes[n - 1 - o.state.depths[id]].contains_key(t.lexeme)
                    &&& forall|j: int|
                        0 <= j < o.state.depths[id] ==> !(#[trigger] st.scopes[n - 1 - j]).contains_key(t.lexeme)
                    &&& o.state.depths.remove(id) == st.depths.remove(id)
                }
                &&& !(exists|j: int| 0 <= j < n && (#[trigger] st.scopes[j]).contains_key(t.lexeme)) ==> o.state.depths
                    == st.depths
            }
        }),
{
    lemma_innermost(st.scopes, t.lexeme);
    let n = st.scopes.len();
    let o = resolve_expr(st, SpecExpr { id, kind: SpecExprKind::Identifier(t), line });
    match innermost(st.scopes, t.lexeme) {
        Some(d) => {
            if !(n > 0 && st.scopes[n - 1].contains_key(t.lexeme) && !st.scopes[n - 1][t.lexeme]) {
                assert(o.state.depths[id] as int == d);
                assert(st.scopes[n - 1 - o.state.depths[id]].contains_key(t.lexeme));
            }
            assert(o.state.depths.remove(id) =~= st.depths.remove(id));
        },
        None => {},
    }
}

/// An assignment resolves its value first; if that succeeds, the target is
/// resolved as the resolver is for: the scopes stay as they are, and if some
/// scope holds the name the depth recorded for the assignment is the distance
/// to the innermost scope holding it, with no other depth changed; if none
/// holds it, the variable is global and nothing more is recorded. A variable
/// may be assigned in its own initializer: no self-reference is refused here.
pub proof fn lemma_assignment_target(st: ResolverState, id: usize, line: usize, name: SpecToken, value: SpecExpr)
    requires
        st.scopes.len() <= usize::MAX,
    ensures
        ({
            let o = resolve_expr(st, SpecExpr { id, kind: SpecExprKind::Assign { name, value: Box::new(value) }, line });
            let v = resolve_expr(st, value);
            let n = st.scopes.len();
            if v.result is Err {
                o == v
            } else {
                &&& o.result is Ok
                &&& o.state.scopes == st.scopes
                &&& (exists|j: int| 0 <= j < n && (#[trigger] st.scopes[j]).contains_key(name.lexeme)) ==> {
                    &&& o.state.depths.contains_key(id)
                    &&& o.state.depths[id] < n
                    &&& st.scopes[n - 1 - o.state.depths[id]].contains_key(name.lexeme)
                    &&& forall|j: int|
                        0 <= j < o.state.depths[id] ==> !(#[trigger] st.scopes[n - 1 - j]).contains_key(name.lexeme)
                    &&& o.state.depths.remove(id) == v.state.depths.remove(id)
                }
                &&& !(exists|j: int| 0 <= j < n && (#[trigger] st.scopes[j]).contains_key(name.lexeme)) ==> o.state.depths
                    == v.state.depths
            }
        }),
{
    lemma_expr_keeps(st, value);
    lemma_innermost(st.scopes, name.lexeme);
    let v = resolve_expr(st, value);
    let o = resolve_expr(st, SpecExpr { id, kind: SpecExprKind::Assign { name, value: Box::new(value) }, line });
    if v.result is Ok {
        match innermost(st.scopes, name.lexeme) {
            Some(d) => {
                assert(o.state.depths[id] as int == d);
                assert(o.state.depths.remove(id) =~= v.state.depths.remove(id));
            },
            None => {},
        }
    }
}

/// A local variable read in its own initializer is refused, as a
/// self-reference on the line of the read.
pub proof fn lemma_self_reference_refused(st: ResolverState, name: SpecToken, id: usize, line: usize, t: SpecToken)
    requires
        st.scopes.len() > 0,
        !st.scopes.last().contains_key(name.lexeme),
        t.lexeme == name.lexeme,
    ensures
        resolve_stmt(
            st,
            SpecStmt::Declaration(name, Some(SpecExpr { id, kind: SpecExprKind::Identifier(t), line })),
        ).result == Err::<(), SpecResolveError>(SpecResolveError::SelfReference(t.line)),
{
    let d = declare(st, name.lexeme, name.line);
    assert(d.state.scopes.last() == st.scopes.last().insert(name.lexeme, false));
}

/// A local variable declared in the innermost scope and then read is found
/// there: the read succeeds and its depth is 0, whatever the outer scopes hold.
pub proof fn lemma_local_read_depth(st: ResolverState, name: SpecToken, id: usize, line: usize, t: SpecToken)
    requires
        st.scopes.len() > 0,
        !st.scopes.last().contains_key(name.lexeme),
        t.lexeme == name.lexeme,
    ensures
        ({
            let o = resolve_stmts(
                st,
                seq![
                    SpecStmt::Declaration(name, None),
                    SpecStmt::Print(SpecExpr { id, kind: SpecExprKind::Identifier(t), line }),
                ],
            );
            &&& o.result is Ok
            &&& o.state.depths.contains_key(id)
            &&& o.state.depths[id] == 0
        }),
{
    let decl = SpecStmt::Declaration(name, None);
    let read = SpecStmt::Print(SpecExpr { id, kind: SpecExprKind::Identifier(t), line });
    lemma_stmts_cons(st, decl, seq![read]);
    assert(seq![decl, read] =~= seq![decl] + seq![read]);
    let s1 = resolve_stmt(st, decl).state;
    lemma_stmts_cons(s1, read, Seq::empty());
    assert(seq![read] =~= seq![read] + Seq::<SpecStmt>::empty());
    let n = s1.scopes.len();
    assert(s1.scopes[n - 1].contains_key(t.lexeme));
    assert(s1.scopes[n - 1][t.lexeme]);
    assert(scope_from_top(s1.scopes, t.lexeme, 0) == Some(0nat));
    lemma_ok_outcome(resolve_stmt(s1, read));
}

} // verus!
