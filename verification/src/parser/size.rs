//! How many tokens each piece of the syntax tree is written with: every
//! keyword, punctuation mark, operator, name and literal counts one.
use crate::lexer::SpecToken;
use crate::parser::expr::{SpecExpr, SpecExprKind};
use crate::parser::stmt::SpecStmt;
use vstd::prelude::*;

verus! {

/// The tokens an expression is written with.
pub open spec fn expr_len(e: SpecExpr) -> int
    decreases e, 1int,
{
    kind_len(e.kind)
}

/// The tokens an expression's form is written with.
pub open spec fn kind_len(k: SpecExprKind) -> int
    decreases k, 0int,
{
    match k {
        SpecExprKind::Literal(_) => 1,
        SpecExprKind::Identifier(_) => 1,
        // name `=` value
        SpecExprKind::Assign { name, value } => 2 + expr_len(*value),
        // `(` inner `)`
        SpecExprKind::Grouping(e) => 2 + expr_len(*e),
        SpecExprKind::Unary { operator, right } => 1 + expr_len(*right),
        SpecExprKind::Binary { left, operator, right } => expr_len(*left) + 1 + expr_len(*right),
        SpecExprKind::Logical { left, operator, right } => expr_len(*left) + 1 + expr_len(*right),
        // callee `(` arguments `)`
        SpecExprKind::Call { expr, arguments } => expr_len(*expr) + 2 + list_len(arguments),
        // object `.` name
        SpecExprKind::Get { object, name } => expr_len(*object) + 2,
        // object `.` name `=` value
        SpecExprKind::SetField { object, name, value } => expr_len(*object) + 3 + expr_len(*value),
        SpecExprKind::This(_) => 1,
        // `super` `.` method
        SpecExprKind::Super(_, _) => 3,
    }
}

/// The tokens a list of expressions separated by commas is written with.
pub open spec fn list_len(es: Seq<SpecExpr>) -> int
    decreases es, 2int,
{
    if es.len() == 0 {
        0
    } else {
        list_len(es.subrange(0, es.len() - 1)) + (if es.len() > 1 { 1int } else { 0int }) + expr_len(
            es[es.len() - 1],
        )
    }
}

/// The tokens an optional expression is written with.
pub open spec fn opt_len(e: Option<SpecExpr>) -> int {
    match e {
        Some(e) => expr_len(e),
        None => 0,
    }
}

/// The tokens a list of names separated by commas is written with.
pub open spec fn names_len(ps: Seq<SpecToken>) -> int {
    if ps.len() == 0 {
        0
    } else {
        2 * ps.len() - 1
    }
}

/// The tokens a statement is written with as a declaration, where a function
/// comes after the keyword `fun`.
pub open spec fn stmt_len(s: SpecStmt) -> int
    decreases s, 0int,
{
    match s {
        // expression `;`
        SpecStmt::Expression(e) => expr_len(e) + 1,
        // `print` expression `;`
        SpecStmt::Print(e) => expr_len(e) + 2,
        // `var` name (`=` expression)? `;`
        SpecStmt::Declaration(_, e) => 3 + match e {
            Some(e) => 1 + expr_len(e),
            None => 0,
        },
        // `{` statements `}`
        SpecStmt::Block(ss) => 2 + stmts_len(ss),
        // `if` `(` condition `)` then (`else` else)?
        SpecStmt::If { condition, then_branch, else_branch } => 3 + expr_len(condition) + stmt_len(*then_branch)
            + match else_branch {
            Some(b) => 1 + stmt_len(*b),
            None => 0,
        },
        // `while` `(` condition `)` body
        SpecStmt::While { condition, block } => 3 + expr_len(condition) + stmt_len(*block),
        // `for` `(` (initializer | `;`) condition? `;` increment? `)` body
        SpecStmt::For { initializer, condition, increment, block } => 4 + match initializer {
            Some(i) => stmt_len(*i),
            None => 1,
        } + opt_len(condition) + opt_len(increment) + stmt_len(*block),
        // `fun` name `(` parameters `)` body
        SpecStmt::Function { name, params, body } => 4 + names_len(params) + stmt_len(*body),
        // `return` expression? `;`
        SpecStmt::Return(e) => 2 + opt_len(e),
        SpecStmt::Break(_) => 2,
        SpecStmt::Continue(_) => 2,
        // `class` name (`<` superclass)? `{` methods `}`, methods without `fun`
        SpecStmt::Class { name, methods, superclass } => 4 + methods_len(methods) + match superclass {
            Some(e) => 1 + expr_len(e),
            None => 0,
        },
    }
}

/// The tokens a list of statements is written with.
pub open spec fn stmts_len(ss: Seq<SpecStmt>) -> int
    decreases ss, 1int,
{
    if ss.len() == 0 {
        0
    } else {
        stmts_len(ss.subrange(0, ss.len() - 1)) + stmt_len(ss[ss.len() - 1])
    }
}

/// The tokens a method is written with: a function without the keyword `fun`.
pub open spec fn method_len(s: SpecStmt) -> int
    decreases s, 2int,
{
    if s is Function {
        stmt_len(s) - 1
    } else {
        stmt_len(s)
    }
}

/// The tokens a list of methods is written with.
pub open spec fn methods_len(ms: Seq<SpecStmt>) -> int
    decreases ms, 3int,
{
    if ms.len() == 0 {
        0
    } else {
        methods_len(ms.subrange(0, ms.len() - 1)) + method_len(ms[ms.len() - 1])
    }
}

} // verus!
