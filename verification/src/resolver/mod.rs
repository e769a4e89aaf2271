//! The resolver: finds, for each variable use, how many scopes out the
//! variable it names was declared.
pub mod laws;
pub mod model;

use crate::lexer::Token;
use crate::parser::expr::{expr_view, exprs_view, lemma_exprs_view, Expr, ExprKind};
use crate::parser::stmt::{lemma_stmts_view, opt_expr_view, stmt_view, stmts_view, tokens_view, Stmt};
use crate::resolver::model::{Outcome, ResolverState, SpecResolveError};
use crate::text::{decimal, push_decimal, same_text};
use std::collections::HashMap;
use vstd::prelude::*;

verus! {

broadcast use vstd::std_specs::hash::group_hash_axioms;

/// An error met while resolving.
pub enum ResolveError {
    SelfReference(usize),
    AlreadyDefined(usize, String),
}

impl View for ResolveError {
    type V = SpecResolveError;

    open spec fn view(&self) -> SpecResolveError {
        match self {
            ResolveError::SelfReference(line) => SpecResolveError::SelfReference(*line),
            ResolveError::AlreadyDefined(line, name) => SpecResolveError::AlreadyDefined(*line, name@),
        }
    }
}

/// The message shown for a resolution error.
pub open spec fn resolve_error_text(e: SpecResolveError) -> Seq<char> {
    match e {
        SpecResolveError::SelfReference(line) => "[Line "@ + decimal(line as nat) + "] variable references itself"@,
        SpecResolveError::AlreadyDefined(line, name) => "[line "@ + decimal(line as nat) + "] Error at '"@ + name
            + "': Already a variable with this name in this scope."@,
    }
}

impl ResolveError {
    /// The message shown for this error.
    pub fn to_display_string(&self) -> (s: String)
        ensures
            s@ == resolve_error_text(self@),
    {
        match self {
            ResolveError::SelfReference(line) => {
                let mut s = String::from_str("[Line ");
                push_decimal(&mut s, *line);
                s.append("] variable references itself");
                s
            },
            ResolveError::AlreadyDefined(line, name) => {
                let mut s = String::from_str("[line ");
                push_decimal(&mut s, *line);
                s.append("] Error at '");
                s.append(name.as_str());
                s.append("': Already a variable with this name in this scope.");
                s
            },
        }
    }
}

/// The outcome that a result and a final state stand for.
pub open spec fn outcome_of(r: Result<(), ResolveError>, st: ResolverState) -> Outcome {
    Outcome {
        result: match r {
            Ok(()) => Ok(()),
            Err(e) => Err(e@),
        },
        state: st,
    }
}

/// A name declared in a scope, and whether its definition is complete.
pub struct Binding {
    pub name: String,
    pub defined: bool,
}

/// The map from names to definedness that a scope's bindings stand for.
pub open spec fn scope_map(bs: Seq<Binding>) -> Map<Seq<char>, bool>
    decreases bs.len(),
{
    if bs.len() == 0 {
        Map::empty()
    } else {
        scope_map(bs.drop_last()).insert(bs.last().name@, bs.last().defined)
    }
}

/// Whether no name is bound twice.
pub open spec fn distinct_names(bs: Seq<Binding>) -> bool {
    forall|i: int, j: int| 0 <= i < j < bs.len() ==> bs[i].name@ != bs[j].name@
}

/// A scope binds exactly the names of its bindings.
proof fn lemma_scope_map_keys(bs: Seq<Binding>, k: Seq<char>)
    ensures
        scope_map(bs).contains_key(k) <==> exists|i: int| 0 <= i < bs.len() && bs[i].name@ == k,
    decreases bs.len(),
{
    if bs.len() > 0 {
        lemma_scope_map_keys(bs.drop_last(), k);
        if scope_map(bs).contains_key(k) && bs.last().name@ != k {
            let i = choose|i: int| 0 <= i < bs.drop_last().len() && bs.drop_last()[i].name@ == k;
            assert(bs[i].name@ == k);
        }
        if exists|i: int| 0 <= i < bs.len() && bs[i].name@ == k {
            let i = choose|i: int| 0 <= i < bs.len() && bs[i].name@ == k;
            if i < bs.len() - 1 {
                assert(bs.drop_last()[i].name@ == k);
            }
        }
    }
}

/// With distinct names, a binding's name maps to its definedness.
proof fn lemma_scope_map_value(bs: Seq<Binding>, i: int)
    requires
        distinct_names(bs),
        0 <= i < bs.len(),
    ensures
        scope_map(bs).contains_key(bs[i].name@),
        scope_map(bs)[bs[i].name@] == bs[i].defined,
    decreases bs.len(),
{
    if i < bs.len() - 1 {
        assert(bs.drop_last()[i] == bs[i]);
        lemma_scope_map_value(bs.drop_last(), i);
    }
}

/// Replacing a binding by one of the same name updates the map at that name.
proof fn lemma_scope_map_update(bs: Seq<Binding>, i: int, b: Binding)
    requires
        distinct_names(bs),
        0 <= i < bs.len(),
        b.name@ == bs[i].name@,
    ensures
        scope_map(bs.update(i, b)) == scope_map(bs).insert(b.name@, b.defined),
        distinct_names(bs.update(i, b)),
    decreases bs.len(),
{
    let nb = bs.update(i, b);
    if i == bs.len() - 1 {
        assert(nb.drop_last() =~= bs.drop_last());
        assert(scope_map(nb) =~= scope_map(bs).insert(b.name@, b.defined));
    } else {
        assert(nb.drop_last() =~= bs.drop_last().update(i, b));
        lemma_scope_map_update(bs.drop_last(), i, b);
        assert(bs.last().name@ != b.name@);
        assert(scope_map(nb) =~= scope_map(bs).insert(b.name@, b.defined));
    }
}

/// Adding a binding of a new name adds it to the map.
proof fn lemma_scope_map_push(bs: Seq<Binding>, b: Binding)
    requires
        distinct_names(bs),
        !scope_map(bs).contains_key(b.name@),
    ensures
        scope_map(bs.push(b)) == scope_map(bs).insert(b.name@, b.defined),
        distinct_names(bs.push(b)),
{
    assert(bs.push(b).drop_last() =~= bs);
    assert forall|i: int| 0 <= i < bs.len() implies bs[i].name@ != b.name@ by {
        lemma_scope_map_keys(bs, b.name@);
    }
}

/// The index of the binding of `name` in `bs`, if there is one.
fn find(bs: &Vec<Binding>, name: &str) -> (r: Option<usize>)
    ensures
        match r {
            Some(i) => i < bs@.len() && bs@[i as int].name@ == name@,
            None => forall|i: int| 0 <= i < bs@.len() ==> bs@[i].name@ != name@,
        },
{
    let mut i: usize = 0;
    while i < bs.len()
        invariant
            i <= bs@.len(),
            forall|j: int| 0 <= j < i ==> bs@[j].name@ != name@,
        decreases bs.len() - i,
    {
        if same_text(bs[i].name.as_str(), name) {
            return Some(i);
        }
        i = i + 1;
    }
    None
}

/// Whether `name` is bound in `bs`, with what the answer means for its map.
fn binds(bs: &Vec<Binding>, name: &str) -> (r: Option<bool>)
    requires
        distinct_names(bs@),
    ensures
        r == (if scope_map(bs@).contains_key(name@) {
            Some(scope_map(bs@)[name@])
        } else {
            None::<bool>
        }),
{
    proof {
        lemma_scope_map_keys(bs@, name@);
    }
    match find(bs, name) {
        Some(i) => {
            proof {
                lemma_scope_map_value(bs@, i as int);
            }
            Some(bs[i].defined)
        },
        None => None,
    }
}

/// Binds `name` to `defined` in `bs`, replacing an earlier binding of it.
fn bind(bs: &mut Vec<Binding>, name: &str, defined: bool)
    requires
        distinct_names(old(bs)@),
    ensures
        distinct_names(final(bs)@),
        scope_map(final(bs)@) == scope_map(old(bs)@).insert(name@, defined),
{
    let b = Binding { name: String::from_str(name), defined };
    match find(bs, name) {
        Some(i) => {
            proof {
                lemma_scope_map_update(bs@, i as int, b);
            }
            bs.set(i, b);
        },
        None => {
            proof {
                lemma_scope_map_keys(bs@, name@);
                lemma_scope_map_push(bs@, b);
            }
            bs.push(b);
        },
    }
}

/// The resolver: a stack of scopes, and the depths found so far.
pub struct Resolver {
    scopes: Vec<Vec<Binding>>,
    pub depths: HashMap<usize, usize>,
}

impl Resolver {
    /// The maps that the scopes stand for, innermost last.
    pub closed spec fn scopes(&self) -> Seq<Map<Seq<char>, bool>> {
        self.scopes@.map_values(|bs: Vec<Binding>| scope_map(bs@))
    }

    /// The resolver's invariant: no scope binds a name twice.
    pub closed spec fn wf(&self) -> bool {
        forall|i: int| 0 <= i < self.scopes@.len() ==> distinct_names(#[trigger] self.scopes@[i]@)
    }

    /// The depths recorded so far, by expression id.
    pub closed spec fn depth_map(&self) -> Map<usize, usize> {
        self.depths@
    }

    /// The model of the resolver's state.
    pub open spec fn state(&self) -> ResolverState {
        ResolverState { scopes: self.scopes(), depths: self.depth_map() }
    }

    /// A resolver with no scope and no depth recorded.
    pub fn new() -> (r: Resolver)
        ensures
            r.wf(),
            r.scopes() == Seq::<Map<Seq<char>, bool>>::empty(),
            r.depth_map() == Map::<usize, usize>::empty(),
    {
        let r = Resolver { scopes: Vec::new(), depths: HashMap::new() };
        assert(r.scopes() =~= Seq::<Map<Seq<char>, bool>>::empty());
        r
    }

    /// The depths recorded so far, by expression id.
    pub fn depths(&self) -> (d: &HashMap<usize, usize>)
        ensures
            d@ == self.depth_map(),
    {
        &self.depths
    }

    /// Opens a new, empty innermost scope.
    pub fn begin_scope(&mut self)
        requires
            old(self).wf(),
        ensures
            final(self).wf(),
            final(self).state() == model::begin_scope(old(self).state()),
    {
        let empty: Vec<Binding> = Vec::new();
        self.scopes.push(empty);
        assert(self.scopes() =~= old(self).scopes().push(Map::empty()));
    }

    /// Closes the innermost scope, if there is one.
    pub fn end_scope(&mut self)
        requires
            old(self).wf(),
        ensures
            final(self).wf(),
            final(self).state() == model::end_scope(old(self).state()),
    {
        let _ = self.scopes.pop();
        assert(old(self).scopes@.len() > 0 ==> self.scopes() =~= old(self).scopes().drop_last());
    }

    /// Takes the innermost scope out, to put it back with `put_top`.
    fn take_top(&mut self) -> (top: Vec<Binding>)
        requires
            old(self).wf(),
            old(self).scopes@.len() > 0,
        ensures
            final(self).wf(),
            final(self).scopes@ == old(self).scopes@.drop_last(),
            top == old(self).scopes@.last(),
            distinct_names(top@),
            final(self).depths == old(self).depths,
            old(self).scopes().last() == scope_map(top@),
            final(self).scopes() == old(self).scopes().drop_last(),
    {
        let top = self.scopes.pop().unwrap();
        assert(self.scopes() =~= old(self).scopes().drop_last());
        top
    }

    /// Puts back an innermost scope.
    fn put_top(&mut self, top: Vec<Binding>)
        requires
            old(self).wf(),
            distinct_names(top@),
        ensures
            final(self).wf(),
            final(self).scopes() == old(self).scopes().push(scope_map(top@)),
            final(self).depths == old(self).depths,
    {
        self.scopes.push(top);
        assert(self.scopes() =~= old(self).scopes().push(scope_map(top@)));
    }

    /// Declares `name` in the innermost scope, not yet defined; fails if the
    /// innermost scope already has it.
    pub fn declare(&mut self, name: &str, line: usize) -> (r: Result<(), ResolveError>)
        requires
            old(self).wf(),
        ensures
            final(self).wf(),
            outcome_of(r, final(self).state()) == model::declare(old(self).state(), name@, line),
    {
        if self.scopes.len() == 0 {
            return Ok(());
        }
        let ghost before = self.scopes();
        let mut top = self.take_top();
        if binds(&top, name).is_some() {
            self.put_top(top);
            assert(self.scopes() =~= before);
            return Err(ResolveError::AlreadyDefined(line, String::from_str(name)));
        }
        bind(&mut top, name, false);
        self.put_top(top);
        assert(self.scopes() =~= before.update(before.len() - 1, before.last().insert(name@, false)));
        Ok(())
    }

    /// Marks `name` defined in the innermost scope, if there is one.
    pub fn define(&mut self, name: &str)
        requires
            old(self).wf(),
        ensures
            final(self).wf(),
            final(self).state() == model::define(old(self).state(), name@),
    {
        if self.scopes.len() == 0 {
            return;
        }
        let ghost before = self.scopes();
        let mut top = self.take_top();
        bind(&mut top, name, true);
        self.put_top(top);
        assert(self.scopes() =~= before.update(before.len() - 1, before.last().insert(name@, true)));
    }

    /// Records for expression `expr_id` how many scopes out `name` was
    /// declared, looking from the innermost scope outward; a name that no
    /// scope holds gets no entry.
    pub fn resolve_local(&mut self, expr_id: usize, name: &str)
        requires
            old(self).wf(),
        ensures
            final(self).wf(),
            final(self).state() == model::resolve_local(old(self).state(), expr_id, name@),
    {
        let n = self.scopes.len();
        let mut i: usize = 0;
        while i < n
            invariant
                n == self.scopes@.len(),
                i <= n,
                self.wf(),
                self.scopes == old(self).scopes,
                self.depths == old(self).depths,
                model::innermost(self.scopes(), name@) == model::scope_from_top(self.scopes(), name@, i as nat),
            decreases n - i,
        {
            let idx = n - 1 - i;
            assert(self.scopes()[idx as int] == scope_map(self.scopes@[idx as int]@));
            if binds(&self.scopes[idx], name).is_some() {
                self.depths.insert(expr_id, i);
                return;
            }
            i = i + 1;
        }
    }
}

impl Resolver {
    /// Resolves an expression: records the depth of each variable it reads or
    /// assigns, and refuses a variable read inside its own initializer.
    pub fn resolve_expr(&mut self, expr: &Expr) -> (r: Result<(), ResolveError>)
        requires
            old(self).wf(),
        ensures
            final(self).wf(),
            outcome_of(r, final(self).state()) == model::resolve_expr(old(self).state(), expr@),
        decreases expr, 0int,
    {
        match &expr.kind {
            ExprKind::Literal(_) => Ok(()),
            ExprKind::Identifier(token) => {
                let n = self.scopes.len();
                if n > 0 {
                    proof {
                        assert(self.scopes().last() == scope_map(self.scopes@[n - 1]@));
                    }
                    match binds(&self.scopes[n - 1], token.lexeme.as_str()) {
                        Some(false) => return Err(ResolveError::SelfReference(token.line)),
                        _ => {},
                    }
                }
                self.resolve_local(expr.id, token.lexeme.as_str());
                Ok(())
            },
            ExprKind::Assign { name, value } => {
                match self.resolve_expr(value) {
                    Ok(()) => {},
                    Err(e) => return Err(e),
                }
                self.resolve_local(expr.id, name.lexeme.as_str());
                Ok(())
            },
            ExprKind::Binary { left, operator, right } => {
                match self.resolve_expr(left) {
                    Ok(()) => {},
                    Err(e) => return Err(e),
                }
                self.resolve_expr(right)
            },
            ExprKind::Logical { left, operator, right } => {
                match self.resolve_expr(left) {
                    Ok(()) => {},
                    Err(e) => return Err(e),
                }
                self.resolve_expr(right)
            },
            ExprKind::Unary { operator, right } => self.resolve_expr(right),
            ExprKind::Call { expr: callee, arguments } => {
                match self.resolve_expr(callee) {
                    Ok(()) => {},
                    Err(e) => return Err(e),
                }
                self.resolve_exprs(arguments)
            },
            ExprKind::Grouping(inner) => self.resolve_expr(inner),
            ExprKind::Get { object, name } => self.resolve_expr(object),
            ExprKind::SetField { object, name, value } => {
                match self.resolve_expr(value) {
                    Ok(()) => {},
                    Err(e) => return Err(e),
                }
                self.resolve_expr(object)
            },
            ExprKind::This(t) => {
                self.resolve_local(expr.id, t.lexeme.as_str());
                Ok(())
            },
            ExprKind::Super(t, method) => {
                self.resolve_local(expr.id, t.lexeme.as_str());
                Ok(())
            },
        }
    }

    /// Resolves expressions in order, up to the first error.
    fn resolve_exprs(&mut self, es: &Vec<Expr>) -> (r: Result<(), ResolveError>)
        requires
            old(self).wf(),
        ensures
            final(self).wf(),
            outcome_of(r, final(self).state()) == model::resolve_exprs(old(self).state(), exprs_view(es@)),
        decreases es, 1int,
    {
        let ghost all = exprs_view(es@);
        proof {
            lemma_exprs_view(es@);
            assert(all.subrange(0, all.len() as int) =~= all);
        }
        let mut i: usize = 0;
        while i < es.len()
            invariant
                self.wf(),
                i <= es@.len(),
                all == exprs_view(es@),
                all.len() == es@.len(),
                forall|j: int| 0 <= j < es@.len() ==> #[trigger] all[j] == expr_view(es@[j]),
                model::resolve_exprs(old(self).state(), all)
                    == model::resolve_exprs(self.state(), all.subrange(i as int, all.len() as int)),
            decreases es.len() - i,
        {
            let ghost rest = all.subrange(i as int, all.len() as int);
            proof {
                assert(rest[0] == expr_view(es@[i as int]));
                assert(rest.subrange(1, rest.len() as int) =~= all.subrange(i + 1, all.len() as int));
            }
            assert(decreases_to!(es => es@[i as int]));
            match self.resolve_expr(&es[i]) {
                Ok(()) => {},
                Err(e) => return Err(e),
            }
            i = i + 1;
        }
        Ok(())
    }

    /// Resolves an optional expression.
    fn resolve_opt_expr(&mut self, e: &Option<Expr>) -> (r: Result<(), ResolveError>)
        requires
            old(self).wf(),
        ensures
            final(self).wf(),
            outcome_of(r, final(self).state()) == model::resolve_opt_expr(old(self).state(), opt_expr_view(*e)),
    {
        match e {
            Some(x) => self.resolve_expr(x),
            None => Ok(()),
        }
    }
}

impl Resolver {
    /// Resolves a statement: blocks, `for` loops and functions open scopes,
    /// declarations declare and define their names, and every expression in it
    /// is resolved. A name declared twice in one scope, or read in its own
    /// initializer, is an error; resolution stops at the first.
    #[verifier::spinoff_prover]
    pub fn resolve_stmt(&mut self, stmt: &Stmt) -> (r: Result<(), ResolveError>)
        requires
            old(self).wf(),
        ensures
            final(self).wf(),
            outcome_of(r, final(self).state()) == model::resolve_stmt(old(self).state(), stmt@),
        decreases stmt, 0int,
    {
        match stmt {
            Stmt::Block(stmts) => {
                self.begin_scope();
                match self.resolve_stmts(stmts) {
                    Ok(()) => {},
                    Err(e) => return Err(e),
                }
                self.end_scope();
                Ok(())
            },
            Stmt::Declaration(name_token, initializer) => {
                match self.declare(name_token.lexeme.as_str(), name_token.line) {
                    Ok(()) => {},
                    Err(e) => return Err(e),
                }
                match self.resolve_opt_expr(initializer) {
                    Ok(()) => {},
                    Err(e) => return Err(e),
                }
                self.define(name_token.lexeme.as_str());
                Ok(())
            },
            Stmt::Function { name, params, body } => {
                match self.declare(name.lexeme.as_str(), name.line) {
                    Ok(()) => {},
                    Err(e) => return Err(e),
                }
                self.define(name.lexeme.as_str());
                self.resolve_function(params, body)
            },
            Stmt::Expression(e) => self.resolve_expr(e),
            Stmt::Print(e) => self.resolve_expr(e),
            Stmt::If { condition, then_branch, else_branch } => {
                match self.resolve_expr(condition) {
                    Ok(()) => {},
                    Err(e) => return Err(e),
                }
                match self.resolve_stmt(then_branch) {
                    Ok(()) => {},
                    Err(e) => return Err(e),
                }
                match else_branch {
                    Some(b) => self.resolve_stmt(b),
                    None => Ok(()),
                }
            },
            Stmt::While { condition, block } => {
                match self.resolve_expr(condition) {
                    Ok(()) => {},
                    Err(e) => return Err(e),
                }
                self.resolve_stmt(block)
            },
            Stmt::Return(e) => self.resolve_opt_expr(e),
            Stmt::For { initializer, condition, increment, block } => {
                self.begin_scope();
                match initializer {
                    Some(s) => match self.resolve_stmt(s) {
                        Ok(()) => {},
                        Err(e) => return Err(e),
                    },
                    None => {},
                }
                match self.resolve_opt_expr(condition) {
                    Ok(()) => {},
                    Err(e) => return Err(e),
                }
                match self.resolve_opt_expr(increment) {
                    Ok(()) => {},
                    Err(e) => return Err(e),
                }
                match self.resolve_stmt(block) {
                    Ok(()) => {},
                    Err(e) => return Err(e),
                }
                self.end_scope();
                Ok(())
            },
            Stmt::Break(_) => Ok(()),
            Stmt::Continue(_) => Ok(()),
            Stmt::Class { name, methods, superclass } => {
                match self.declare(name.lexeme.as_str(), name.line) {
                    Ok(()) => {},
                    Err(e) => return Err(e),
                }
                self.define(name.lexeme.as_str());
                match self.resolve_opt_expr(superclass) {
                    Ok(()) => {},
                    Err(e) => return Err(e),
                }
                let inherits = superclass.is_some();
                if inherits {
                    self.begin_scope();
                    self.define("super");
                }
                self.begin_scope();
                self.define("this");
                match self.resolve_methods(methods) {
                    Ok(()) => {},
                    Err(e) => return Err(e),
                }
                self.end_scope();
                if inherits {
                    self.end_scope();
                }
                Ok(())
            },
        }
    }

    /// Resolves statements in order, up to the first error.
    fn resolve_stmts(&mut self, ss: &Vec<Stmt>) -> (r: Result<(), ResolveError>)
        requires
            old(self).wf(),
        ensures
            final(self).wf(),
            outcome_of(r, final(self).state()) == model::resolve_stmts(old(self).state(), stmts_view(ss@)),
        decreases ss, 1int,
    {
        let ghost all = stmts_view(ss@);
        proof {
            lemma_stmts_view(ss@);
            assert(all.subrange(0, all.len() as int) =~= all);
        }
        let mut i: usize = 0;
        while i < ss.len()
            invariant
                self.wf(),
                i <= ss@.len(),
                all == stmts_view(ss@),
                all.len() == ss@.len(),
                forall|j: int| 0 <= j < ss@.len() ==> #[trigger] all[j] == stmt_view(ss@[j]),
                model::resolve_stmts(old(self).state(), all)
                    == model::resolve_stmts(self.state(), all.subrange(i as int, all.len() as int)),
            decreases ss.len() - i,
        {
            let ghost rest = all.subrange(i as int, all.len() as int);
            proof {
                assert(rest[0] == stmt_view(ss@[i as int]));
                assert(rest.subrange(1, rest.len() as int) =~= all.subrange(i + 1, all.len() as int));
            }
            assert(decreases_to!(ss => ss@[i as int]));
            match self.resolve_stmt(&ss[i]) {
                Ok(()) => {},
                Err(e) => return Err(e),
            }
            i = i + 1;
        }
        Ok(())
    }

    /// Declares and defines each parameter in order, up to the first error.
    fn resolve_params(&mut self, params: &Vec<Token>) -> (r: Result<(), ResolveError>)
        requires
            old(self).wf(),
        ensures
            final(self).wf(),
            outcome_of(r, final(self).state()) == model::resolve_params(old(self).state(), tokens_view(params@)),
    {
        let ghost all = tokens_view(params@);
        proof {
            assert(all.subrange(0, all.len() as int) =~= all);
        }
        let mut i: usize = 0;
        while i < params.len()
            invariant
                self.wf(),
                i <= params@.len(),
                all == tokens_view(params@),
                all.len() == params@.len(),
                model::resolve_params(old(self).state(), all)
                    == model::resolve_params(self.state(), all.subrange(i as int, all.len() as int)),
            decreases params.len() - i,
        {
            let ghost rest = all.subrange(i as int, all.len() as int);
            proof {
                assert(rest[0] == params@[i as int]@);
                assert(rest.subrange(1, rest.len() as int) =~= all.subrange(i + 1, all.len() as int));
            }
            let param = &params[i];
            match self.declare(param.lexeme.as_str(), param.line) {
                Ok(()) => {},
                Err(e) => return Err(e),
            }
            self.define(param.lexeme.as_str());
            i = i + 1;
        }
        Ok(())
    }

    /// Resolves a function: a new scope holding its parameters, in which the
    /// statements of its body are resolved.
    fn resolve_function(&mut self, params: &Vec<Token>, body: &Stmt) -> (r: Result<(), ResolveError>)
        requires
            old(self).wf(),
        ensures
            final(self).wf(),
            outcome_of(r, final(self).state())
                == model::resolve_function(old(self).state(), tokens_view(params@), body@),
        decreases body, 2int,
    {
        self.begin_scope();
        match self.resolve_params(params) {
            Ok(()) => {},
            Err(e) => return Err(e),
        }
        match body {
            Stmt::Block(stmts) => match self.resolve_stmts(stmts) {
                Ok(()) => {},
                Err(e) => return Err(e),
            },
            _ => {},
        }
        self.end_scope();
        Ok(())
    }

    /// Resolves the methods of a class in order, up to the first error.
    fn resolve_methods(&mut self, ms: &Vec<Stmt>) -> (r: Result<(), ResolveError>)
        requires
            old(self).wf(),
        ensures
            final(self).wf(),
            outcome_of(r, final(self).state()) == model::resolve_methods(old(self).state(), stmts_view(ms@)),
        decreases ms, 3int,
    {
        let ghost all = stmts_view(ms@);
        proof {
            lemma_stmts_view(ms@);
            assert(all.subrange(0, all.len() as int) =~= all);
        }
        let mut i: usize = 0;
        while i < ms.len()
            invariant
                self.wf(),
                i <= ms@.len(),
                all == stmts_view(ms@),
                all.len() == ms@.len(),
                forall|j: int| 0 <= j < ms@.len() ==> #[trigger] all[j] == stmt_view(ms@[j]),
                model::resolve_methods(old(self).state(), all)
                    == model::resolve_methods(self.state(), all.subrange(i as int, all.len() as int)),
            decreases ms.len() - i,
        {
            let ghost rest = all.subrange(i as int, all.len() as int);
            proof {
                assert(rest[0] == stmt_view(ms@[i as int]));
                assert(rest.subrange(1, rest.len() as int) =~= all.subrange(i + 1, all.len() as int));
            }
            assert(decreases_to!(ms => ms@[i as int]));
            match &ms[i] {
                Stmt::Function { name, params, body } => match self.resolve_function(params, body) {
                    Ok(()) => {},
                    Err(e) => return Err(e),
                },
                _ => {},
            }
            i = i + 1;
        }
        Ok(())
    }
}

} // verus!
