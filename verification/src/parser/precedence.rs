//! Operator precedence, stated on the syntax tree: how tightly each operator
//! binds, and what it means for a tree to respect that.
use crate::lexer::SpecTokenKind;
use crate::parser::expr::{SpecExpr, SpecExprKind};
use crate::parser::grammar::{level_op, Level};
use vstd::prelude::*;

verus! {

/// How tightly a binary operator binds, loosest first: `or`, `and`, `==`
/// and `!=`, the comparisons `<`, `<=`, `>`, `>=`, then `+` and `-`, then `*`
/// and `/`.
pub open spec fn op_prec(k: SpecTokenKind) -> int {
    match k {
        SpecTokenKind::Or => 1,
        SpecTokenKind::And => 2,
        SpecTokenKind::EqualEqual => 3,
        SpecTokenKind::BangEqual => 3,
        SpecTokenKind::Less => 4,
        SpecTokenKind::LessEqual => 4,
        SpecTokenKind::Greater => 4,
        SpecTokenKind::GreaterEqual => 4,
        SpecTokenKind::Plus => 5,
        SpecTokenKind::Minus => 5,
        SpecTokenKind::Star => 6,
        SpecTokenKind::Slash => 6,
        _ => 9,
    }
}

/// How tightly the top of an expression binds: an assignment loosest, a
/// binary or logical expression as its operator, a unary expression tighter
/// than any binary one, and calls, groupings and atoms tightest.
pub open spec fn top_prec(e: SpecExpr) -> int {
    match e.kind {
        SpecExprKind::Assign { .. } => 0,
        SpecExprKind::Binary { operator, .. } => op_prec(operator.kind),
        SpecExprKind::Logical { operator, .. } => op_prec(operator.kind),
        SpecExprKind::Unary { .. } => 7,
        _ => 8,
    }
}

/// Whether an expression respects precedence everywhere: the left operand of
/// a binary or logical operator binds at least as tightly as the operator
/// (operators of one precedence group to the left), its right operand binds
/// more tightly, the operand of a unary operator is unary or tighter, and a
/// callee is a call, a grouping or an atom. Only parentheses let a looser
/// expression stand inside a tighter one.
pub open spec fn well_nested(e: SpecExpr) -> bool
    decreases e, 1int,
{
    well_nested_kind(e.kind)
}

/// [`well_nested`] for an expression's form.
pub open spec fn well_nested_kind(k: SpecExprKind) -> bool
    decreases k, 0int,
{
    match k {
        SpecExprKind::Binary { left, operator, right } => {
            &&& top_prec(*left) >= op_prec(operator.kind)
            &&& top_prec(*right) > op_prec(operator.kind)
            &&& well_nested(*left)
            &&& well_nested(*right)
        },
        SpecExprKind::Logical { left, operator, right } => {
            &&& top_prec(*left) >= op_prec(operator.kind)
            &&& top_prec(*right) > op_prec(operator.kind)
            &&& well_nested(*left)
            &&& well_nested(*right)
        },
        SpecExprKind::Unary { operator, right } => top_prec(*right) >= 7 && well_nested(*right),
        SpecExprKind::Call { expr, arguments } => top_prec(*expr) >= 8 && well_nested(*expr)
            && all_well_nested(arguments),
        SpecExprKind::Grouping(e) => well_nested(*e),
        SpecExprKind::Assign { name, value } => well_nested(*value),
        SpecExprKind::Get { object, name } => well_nested(*object),
        SpecExprKind::SetField { object, name, value } => well_nested(*object) && well_nested(*value),
        _ => true,
    }
}

/// Whether every expression of a list respects precedence.
pub open spec fn all_well_nested(es: Seq<SpecExpr>) -> bool
    decreases es, 2int,
{
    if es.len() == 0 {
        true
    } else {
        all_well_nested(es.subrange(0, es.len() - 1)) && well_nested(es[es.len() - 1])
    }
}

/// The precedence of the operators of a level of the grammar.
pub open spec fn level_prec(l: Level) -> int {
    match l {
        Level::Or => 1,
        Level::And => 2,
        Level::Equality => 3,
        Level::Comparison => 4,
        Level::Addition => 5,
        Level::Multiplication => 6,
    }
}

/// Each level of the grammar takes exactly the operators of its precedence,
/// and the levels go from loosest to tightest.
pub proof fn lemma_level_ops(l: Level, k: SpecTokenKind)
    ensures
        level_op(l, k) <==> op_prec(k) == level_prec(l),
        l != Level::Multiplication ==> level_prec(crate::parser::grammar::next_level(l)) == level_prec(l) + 1,
{
}

/// Whether an expression is a comparison (`<`, `<=`, `>`, `>=`) at its top.
pub open spec fn is_comparison(e: SpecExpr) -> bool {
    match e.kind {
        SpecExprKind::Binary { operator, .. } => {
            ||| operator.kind is Less
            ||| operator.kind is LessEqual
            ||| operator.kind is Greater
            ||| operator.kind is GreaterEqual
        },
        _ => false,
    }
}

/// In an expression that respects precedence, a comparison is never an
/// operand of `+` or `-`: for that it must stand in parentheses.
pub proof fn lemma_no_comparison_under_addition(e: SpecExpr)
    requires
        well_nested(e),
    ensures
        match e.kind {
            SpecExprKind::Binary { left, operator, right } => (operator.kind is Plus || operator.kind is Minus)
                ==> !is_comparison(*left) && !is_comparison(*right),
            _ => true,
        },
{
}

} // verus!
