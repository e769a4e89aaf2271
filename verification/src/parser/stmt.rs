//! Statements of the syntax tree.
use crate::lexer::{SpecToken, Token};
use crate::parser::expr::{Expr, SpecExpr};
use vstd::prelude::*;

verus! {

/// A statement.
#[allow(inconsistent_fields)]
pub enum Stmt {
    Expression(Expr),
    Print(Expr),
    Declaration(Token, Option<Expr>),
    Block(Vec<Stmt>),
    If { condition: Expr, then_branch: Box<Stmt>, else_branch: Option<Box<Stmt>> },
    While { condition: Expr, block: Box<Stmt> },
    For {
        initializer: Option<Box<Stmt>>,
        condition: Option<Expr>,
        increment: Option<Expr>,
        block: Box<Stmt>,
    },
    Function { name: Token, params: Vec<Token>, body: Box<Stmt> },
    Return(Option<Expr>),
    Break(Token),
    Continue(Token),
    Class { name: Token, methods: Vec<Stmt>, superclass: Option<Expr> },
}

/// The model of a [`Stmt`].
#[allow(inconsistent_fields)]
pub enum SpecStmt {
    Expression(SpecExpr),
    Print(SpecExpr),
    Declaration(SpecToken, Option<SpecExpr>),
    Block(Seq<SpecStmt>),
    If { condition: SpecExpr, then_branch: Box<SpecStmt>, else_branch: Option<Box<SpecStmt>> },
    While { condition: SpecExpr, block: Box<SpecStmt> },
    For {
        initializer: Option<Box<SpecStmt>>,
        condition: Option<SpecExpr>,
        increment: Option<SpecExpr>,
        block: Box<SpecStmt>,
    },
    Function { name: SpecToken, params: Seq<SpecToken>, body: Box<SpecStmt> },
    Return(Option<SpecExpr>),
    Break(SpecToken),
    Continue(SpecToken),
    Class { name: SpecToken, methods: Seq<SpecStmt>, superclass: Option<SpecExpr> },
}

/// The model of an optional expression.
pub open spec fn opt_expr_view(e: Option<Expr>) -> Option<SpecExpr> {
    match e {
        Some(e) => Some(e@),
        None => None,
    }
}

/// The models of a sequence of tokens.
pub open spec fn tokens_view(s: Seq<Token>) -> Seq<SpecToken> {
    s.map_values(|t: Token| t@)
}

/// The model of a statement.
pub open spec fn stmt_view(s: Stmt) -> SpecStmt
    decreases s, 0int,
{
    match s {
        Stmt::Expression(e) => SpecStmt::Expression(e@),
        Stmt::Print(e) => SpecStmt::Print(e@),
        Stmt::Declaration(t, e) => SpecStmt::Declaration(t@, opt_expr_view(e)),
        Stmt::Block(ss) => SpecStmt::Block(stmts_view(ss@)),
        Stmt::If { condition, then_branch, else_branch } => SpecStmt::If {
            condition: condition@,
            then_branch: Box::new(stmt_view(*then_branch)),
            else_branch: match else_branch {
                Some(b) => Some(Box::new(stmt_view(*b))),
                None => None,
            },
        },
        Stmt::While { condition, block } => SpecStmt::While {
            condition: condition@,
            block: Box::new(stmt_view(*block)),
        },
        Stmt::For { initializer, condition, increment, block } => SpecStmt::For {
            initializer: match initializer {
                Some(b) => Some(Box::new(stmt_view(*b))),
                None => None,
            },
            condition: opt_expr_view(condition),
            increment: opt_expr_view(increment),
            block: Box::new(stmt_view(*block)),
        },
        Stmt::Function { name, params, body } => SpecStmt::Function {
            name: name@,
            params: tokens_view(params@),
            body: Box::new(stmt_view(*body)),
        },
        Stmt::Return(e) => SpecStmt::Return(opt_expr_view(e)),
        Stmt::Break(t) => SpecStmt::Break(t@),
        Stmt::Continue(t) => SpecStmt::Continue(t@),
        Stmt::Class { name, methods, superclass } => SpecStmt::Class {
            name: name@,
            methods: stmts_view(methods@),
            superclass: opt_expr_view(superclass),
        },
    }
}

/// The models of a sequence of statements.
pub open spec fn stmts_view(s: Seq<Stmt>) -> Seq<SpecStmt>
    decreases s, 1int,
{
    if s.len() == 0 {
        Seq::empty()
    } else {
        stmts_view(s.subrange(0, s.len() - 1)).push(stmt_view(s[s.len() - 1]))
    }
}

/// `stmts_view` keeps the length and maps each element.
pub proof fn lemma_stmts_view(s: Seq<Stmt>)
    ensures
        stmts_view(s).len() == s.len(),
        forall|i: int| 0 <= i < s.len() ==> #[trigger] stmts_view(s)[i] == stmt_view(s[i]),
    decreases s.len(),
{
    if s.len() > 0 {
        lemma_stmts_view(s.subrange(0, s.len() - 1));
    }
}

/// Appending a statement appends its model.
pub proof fn lemma_stmts_view_push(s: Seq<Stmt>, e: Stmt)
    ensures
        stmts_view(s.push(e)) == stmts_view(s).push(stmt_view(e)),
{
    assert(s.push(e).subrange(0, s.len() as int) =~= s);
}

/// Appending a token appends its model.
pub proof fn lemma_tokens_view_push(s: Seq<Token>, t: Token)
    ensures
        tokens_view(s.push(t)) == tokens_view(s).push(t@),
{
    assert(tokens_view(s.push(t)) =~= tokens_view(s).push(t@));
}

impl View for Stmt {
    type V = SpecStmt;

    open spec fn view(&self) -> SpecStmt {
        stmt_view(*self)
    }
}

/// A copy of an optional expression.
fn duplicate_opt_expr(e: &Option<Expr>) -> (r: Option<Expr>)
    ensures
        opt_expr_view(r) == opt_expr_view(*e),
{
    match e {
        Some(x) => Some(x.duplicate()),
        None => None,
    }
}

/// Copies of a list of tokens.
fn duplicate_tokens(ts: &Vec<Token>) -> (r: Vec<Token>)
    ensures
        tokens_view(r@) == tokens_view(ts@),
{
    let mut out: Vec<Token> = Vec::new();
    let mut i: usize = 0;
    while i < ts.len()
        invariant
            i <= ts@.len(),
            tokens_view(out@) == tokens_view(ts@.subrange(0, i as int)),
        decreases ts.len() - i,
    {
        let t = ts[i].duplicate();
        proof {
            lemma_tokens_view_push(out@, t);
            lemma_tokens_view_push(ts@.subrange(0, i as int), ts@[i as int]);
            assert(ts@.subrange(0, i as int).push(ts@[i as int]) =~= ts@.subrange(0, i + 1));
        }
        out.push(t);
        i = i + 1;
    }
    proof {
        assert(ts@.subrange(0, ts@.len() as int) =~= ts@);
    }
    out
}

impl Stmt {
    /// A copy of this statement, expression ids included.
    pub fn duplicate(&self) -> (r: Stmt)
        ensures
            r@ == self@,
        decreases self, 0int,
    {
        match self {
            Stmt::Expression(e) => Stmt::Expression(e.duplicate()),
            Stmt::Print(e) => Stmt::Print(e.duplicate()),
            Stmt::Declaration(t, e) => Stmt::Declaration(t.duplicate(), duplicate_opt_expr(e)),
            Stmt::Block(ss) => Stmt::Block(duplicate_stmts(ss)),
            Stmt::If { condition, then_branch, else_branch } => Stmt::If {
                condition: condition.duplicate(),
                then_branch: Box::new(then_branch.duplicate()),
                else_branch: match else_branch {
                    Some(b) => Some(Box::new(b.duplicate())),
                    None => None,
                },
            },
            Stmt::While { condition, block } => Stmt::While {
                condition: condition.duplicate(),
                block: Box::new(block.duplicate()),
            },
            Stmt::For { initializer, condition, increment, block } => Stmt::For {
                initializer: match initializer {
                    Some(b) => Some(Box::new(b.duplicate())),
                    None => None,
                },
                condition: duplicate_opt_expr(condition),
                increment: duplicate_opt_expr(increment),
                block: Box::new(block.duplicate()),
            },
            Stmt::Function { name, params, body } => Stmt::Function {
                name: name.duplicate(),
                params: duplicate_tokens(params),
                body: Box::new(body.duplicate()),
            },
            Stmt::Return(e) => Stmt::Return(duplicate_opt_expr(e)),
            Stmt::Break(t) => Stmt::Break(t.duplicate()),
            Stmt::Continue(t) => Stmt::Continue(t.duplicate()),
            Stmt::Class { name, methods, superclass } => Stmt::Class {
                name: name.duplicate(),
                methods: duplicate_stmts(methods),
                superclass: duplicate_opt_expr(superclass),
            },
        }
    }
}

/// Copies of a list of statements.
pub fn duplicate_stmts(ss: &Vec<Stmt>) -> (r: Vec<Stmt>)
    ensures
        stmts_view(r@) == stmts_view(ss@),
    decreases ss, 1int,
{
    let mut out: Vec<Stmt> = Vec::new();
    let mut i: usize = 0;
    proof {
        assert(ss@.subrange(0, 0) =~= out@);
    }
    while i < ss.len()
        invariant
            i <= ss@.len(),
            stmts_view(out@) == stmts_view(ss@.subrange(0, i as int)),
        decreases ss.len() - i,
    {
        assert(decreases_to!(ss => ss@[i as int]));
        let s = ss[i].duplicate();
        proof {
            lemma_stmts_view_push(out@, s);
            lemma_stmts_view_push(ss@.subrange(0, i as int), ss@[i as int]);
            assert(ss@.subrange(0, i as int).push(ss@[i as int]) =~= ss@.subrange(0, i + 1));
        }
        out.push(s);
        i = i + 1;
    }
    proof {
        assert(ss@.subrange(0, ss@.len() as int) =~= ss@);
    }
    out
}

} // verus!
