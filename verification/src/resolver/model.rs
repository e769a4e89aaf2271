//! What resolution computes, written as functions on the models of the syntax
//! tree: each takes the resolver's state and gives back the result and the
//! state after it. Resolution stops at the first error, leaving the state as
//! it was at that point.
use crate::lexer::SpecToken;
use crate::parser::expr::{SpecExpr, SpecExprKind};
use crate::parser::stmt::SpecStmt;
use vstd::prelude::*;

verus! {

/// The model of a resolution error.
pub enum SpecResolveError {
    SelfReference(usize),
    AlreadyDefined(usize, Seq<char>),
}

/// The resolver's state: the stack of scopes, innermost last, each mapping a
/// declared name to whether its definition is complete; and the depth
/// recorded for each resolved expression id.
pub struct ResolverState {
    pub scopes: Seq<Map<Seq<char>, bool>>,
    pub depths: Map<usize, usize>,
}

/// The result of a resolution step and the state after it.
pub struct Outcome {
    pub result: Result<(), SpecResolveError>,
    pub state: ResolverState,
}

/// A step that succeeded, leaving state `st`.
pub open spec fn ok(st: ResolverState) -> Outcome {
    Outcome { result: Ok(()), state: st }
}

/// `st` with its innermost scope replaced by `m`.
pub open spec fn with_top(st: ResolverState, m: Map<Seq<char>, bool>) -> ResolverState {
    ResolverState { scopes: st.scopes.update(st.scopes.len() - 1, m), depths: st.depths }
}

/// `st` with a new, empty innermost scope.
pub open spec fn begin_scope(st: ResolverState) -> ResolverState {
    ResolverState { scopes: st.scopes.push(Map::empty()), depths: st.depths }
}

/// `st` without its innermost scope, if it has one.
pub open spec fn end_scope(st: ResolverState) -> ResolverState {
    if st.scopes.len() == 0 {
        st
    } else {
        ResolverState { scopes: st.scopes.drop_last(), depths: st.depths }
    }
}

/// Declares `name` in the innermost scope, not yet defined. Declaring a name
/// twice in one scope is an error; with no scope, nothing happens.
pub open spec fn declare(st: ResolverState, name: Seq<char>, line: usize) -> Outcome {
    if st.scopes.len() == 0 {
        ok(st)
    } else if st.scopes.last().contains_key(name) {
        Outcome { result: Err(SpecResolveError::AlreadyDefined(line, name)), state: st }
    } else {
        ok(with_top(st, st.scopes.last().insert(name, false)))
    }
}

/// Marks `name` defined in the innermost scope, if there is one.
pub open spec fn define(st: ResolverState, name: Seq<char>) -> ResolverState {
    if st.scopes.len() == 0 {
        st
    } else {
        with_top(st, st.scopes.last().insert(name, true))
    }
}

/// The distance from the innermost scope to the innermost scope that holds
/// `name`, looking outward from distance `i`.
pub open spec fn scope_from_top(scopes: Seq<Map<Seq<char>, bool>>, name: Seq<char>, i: nat) -> Option<nat>
    decreases scopes.len() - i,
{
    if i >= scopes.len() {
        None
    } else if scopes[scopes.len() - 1 - i].contains_key(name) {
        Some(i)
    } else {
        scope_from_top(scopes, name, i + 1)
    }
}

/// The distance from the innermost scope to the innermost scope that holds
/// `name`, if any holds it.
pub open spec fn innermost(scopes: Seq<Map<Seq<char>, bool>>, name: Seq<char>) -> Option<nat> {
    scope_from_top(scopes, name, 0)
}

/// Records for expression `id` the distance to the scope that holds `name`;
/// a name that no scope holds is global and gets no entry.
pub open spec fn resolve_local(st: ResolverState, id: usize, name: Seq<char>) -> ResolverState {
    match innermost(st.scopes, name) {
        Some(d) => ResolverState { scopes: st.scopes, depths: st.depths.insert(id, d as usize) },
        None => st,
    }
}

/// Whether `name` is declared but not yet defined in the innermost scope.
pub open spec fn declared_only(st: ResolverState, name: Seq<char>) -> bool {
    &&& st.scopes.len() > 0
    &&& st.scopes.last().contains_key(name)
    &&& !st.scopes.last()[name]
}

/// Resolves an expression.
pub open spec fn resolve_expr(st: ResolverState, e: SpecExpr) -> Outcome
    decreases e, 1int,
{
    resolve_kind(st, e.id, e.kind)
}

/// Resolves an expression with id `id` and form `k`.
pub open spec fn resolve_kind(st: ResolverState, id: usize, k: SpecExprKind) -> Outcome
    decreases k, 0int,
{
    match k {
        SpecExprKind::Literal(_) => ok(st),
        SpecExprKind::Identifier(t) => if declared_only(st, t.lexeme) {
            Outcome { result: Err(SpecResolveError::SelfReference(t.line)), state: st }
        } else {
            ok(resolve_local(st, id, t.lexeme))
        },
        SpecExprKind::Assign { name, value } => {
            let o = resolve_expr(st, *value);
            if o.result is Err {
                o
            } else {
                ok(resolve_local(o.state, id, name.lexeme))
            }
        },
        SpecExprKind::Grouping(e) => resolve_expr(st, *e),
        SpecExprKind::Unary { operator, right } => resolve_expr(st, *right),
        SpecExprKind::Binary { left, operator, right } => {
            let o = resolve_expr(st, *left);
            if o.result is Err {
                o
            } else {
                resolve_expr(o.state, *right)
            }
        },
        SpecExprKind::Logical { left, operator, right } => {
            let o = resolve_expr(st, *left);
            if o.result is Err {
                o
            } else {
                resolve_expr(o.state, *right)
            }
        },
        SpecExprKind::Call { expr, arguments } => {
            let o = resolve_expr(st, *expr);
            if o.result is Err {
                o
            } else {
                resolve_exprs(o.state, arguments)
            }
        },
        SpecExprKind::Get { object, name } => resolve_expr(st, *object),
        SpecExprKind::SetField { object, name, value } => {
            let o = resolve_expr(st, *value);
            if o.result is Err {
                o
            } else {
                resolve_expr(o.state, *object)
            }
        },
        SpecExprKind::This(t) => ok(resolve_local(st, id, t.lexeme)),
        SpecExprKind::Super(t, method) => ok(resolve_local(st, id, t.lexeme)),
    }
}

/// Resolves expressions in order, up to the first error.
pub open spec fn resolve_exprs(st: ResolverState, es: Seq<SpecExpr>) -> Outcome
    decreases es, 2int,
{
    if es.len() == 0 {
        ok(st)
    } else {
        let o = resolve_expr(st, es[0]);
        if o.result is Err {
            o
        } else {
            resolve_exprs(o.state, es.subrange(1, es.len() as int))
        }
    }
}

/// Resolves an optional expression.
pub open spec fn resolve_opt_expr(st: ResolverState, e: Option<SpecExpr>) -> Outcome {
    match e {
        Some(e) => resolve_expr(st, e),
        None => ok(st),
    }
}

/// Declares and defines each parameter in order, up to the first error.
pub open spec fn resolve_params(st: ResolverState, params: Seq<SpecToken>) -> Outcome
    decreases params.len(),
{
    if params.len() == 0 {
        ok(st)
    } else {
        let o = declare(st, params[0].lexeme, params[0].line);
        if o.result is Err {
            o
        } else {
            resolve_params(define(o.state, params[0].lexeme), params.subrange(1, params.len() as int))
        }
    }
}

/// Resolves a statement.
pub open spec fn resolve_stmt(st: ResolverState, s: SpecStmt) -> Outcome
    decreases s, 0int,
{
    match s {
        SpecStmt::Block(ss) => {
            let o = resolve_stmts(begin_scope(st), ss);
            if o.result is Err {
                o
            } else {
                ok(end_scope(o.state))
            }
        },
        SpecStmt::Declaration(name, initializer) => {
            let d = declare(st, name.lexeme, name.line);
            if d.result is Err {
                d
            } else {
                let o = resolve_opt_expr(d.state, initializer);
                if o.result is Err {
                    o
                } else {
                    ok(define(o.state, name.lexeme))
                }
            }
        },
        SpecStmt::Function { name, params, body } => {
            let d = declare(st, name.lexeme, name.line);
            if d.result is Err {
                d
            } else {
                resolve_function(define(d.state, name.lexeme), params, *body)
            }
        },
        SpecStmt::Expression(e) => resolve_expr(st, e),
        SpecStmt::Print(e) => resolve_expr(st, e),
        SpecStmt::If { condition, then_branch, else_branch } => {
            let c = resolve_expr(st, condition);
            if c.result is Err {
                c
            } else {
                let t = resolve_stmt(c.state, *then_branch);
                if t.result is Err {
                    t
                } else {
                    match else_branch {
                        Some(b) => resolve_stmt(t.state, *b),
                        None => t,
                    }
                }
            }
        },
        SpecStmt::While { condition, block } => {
            let c = resolve_expr(st, condition);
            if c.result is Err {
                c
            } else {
                resolve_stmt(c.state, *block)
            }
        },
        SpecStmt::Return(e) => resolve_opt_expr(st, e),
        SpecStmt::For { initializer, condition, increment, block } => {
            let i = match initializer {
                Some(s) => resolve_stmt(begin_scope(st), *s),
                None => ok(begin_scope(st)),
            };
            if i.result is Err {
                i
            } else {
                let c = resolve_opt_expr(i.state, condition);
                if c.result is Err {
                    c
                } else {
                    let n = resolve_opt_expr(c.state, increment);
                    if n.result is Err {
                        n
                    } else {
                        let b = resolve_stmt(n.state, *block);
                        if b.result is Err {
                            b
                        } else {
                            ok(end_scope(b.state))
                        }
                    }
                }
            }
        },
        SpecStmt::Break(t) => ok(st),
        SpecStmt::Continue(t) => ok(st),
        SpecStmt::Class { name, methods, superclass } => {
            let d = declare(st, name.lexeme, name.line);
            if d.result is Err {
                d
            } else {
                let sc = resolve_opt_expr(define(d.state, name.lexeme), superclass);
                if sc.result is Err {
                    sc
                } else {
                    let outer = if superclass is Some {
                        define(begin_scope(sc.state), "super"@)
                    } else {
                        sc.state
                    };
                    let m = resolve_methods(define(begin_scope(outer), "this"@), methods);
                    if m.result is Err {
                        m
                    } else if superclass is Some {
                        ok(end_scope(end_scope(m.state)))
                    } else {
                        ok(end_scope(m.state))
                    }
                }
            }
        },
    }
}

/// Resolves statements in order, up to the first error.
pub open spec fn resolve_stmts(st: ResolverState, ss: Seq<SpecStmt>) -> Outcome
    decreases ss, 1int,
{
    if ss.len() == 0 {
        ok(st)
    } else {
        let o = resolve_stmt(st, ss[0]);
        if o.result is Err {
            o
        } else {
            resolve_stmts(o.state, ss.subrange(1, ss.len() as int))
        }
    }
}

/// Resolves a function: a new scope holding its parameters, in which the
/// statements of its body are resolved.
pub open spec fn resolve_function(st: ResolverState, params: Seq<SpecToken>, body: SpecStmt) -> Outcome
    decreases body, 2int,
{
    let p = resolve_params(begin_scope(st), params);
    if p.result is Err {
        p
    } else {
        let b = match body {
            SpecStmt::Block(ss) => resolve_stmts(p.state, ss),
            _ => ok(p.state),
        };
        if b.result is Err {
            b
        } else {
            ok(end_scope(b.state))
        }
    }
}

/// Resolves the methods of a class in order, up to the first error.
pub open spec fn resolve_methods(st: ResolverState, ms: Seq<SpecStmt>) -> Outcome
    decreases ms, 3int,
{
    if ms.len() == 0 {
        ok(st)
    } else {
        let o = match ms[0] {
            SpecStmt::Function { name, params, body } => resolve_function(st, params, *body),
            _ => ok(st),
        };
        if o.result is Err {
            o
        } else {
            resolve_methods(o.state, ms.subrange(1, ms.len() as int))
        }
    }
}

} // verus!
