//! The expression ids of a syntax tree, in the order the parser hands them
//! out: an expression's parts before the expression, and the parts of a
//! statement in source order.
use crate::parser::expr::{SpecExpr, SpecExprKind};
use crate::parser::stmt::SpecStmt;
use vstd::prelude::*;

verus! {

/// Whether the numbers in `s` strictly increase and all lie in `[lo, hi)`.
pub open spec fn ids_between(s: Seq<int>, lo: int, hi: int) -> bool {
    &&& forall|i: int, j: int| 0 <= i < j < s.len() ==> s[i] < s[j]
    &&& forall|i: int| 0 <= i < s.len() ==> lo <= #[trigger] s[i] < hi
}

/// Two runs of ids, the second above the first, make one run.
pub proof fn lemma_ids_concat(a: Seq<int>, b: Seq<int>, lo: int, mid: int, hi: int)
    requires
        ids_between(a, lo, mid),
        ids_between(b, mid, hi),
        lo <= mid <= hi,
    ensures
        ids_between(a + b, lo, hi),
{
    let c = a + b;
    assert forall|i: int, j: int| 0 <= i < j < c.len() implies c[i] < c[j] by {
        if j < a.len() {
            assert(c[i] == a[i]);
            assert(c[j] == a[j]);
        } else if i >= a.len() {
            assert(c[i] == b[i - a.len()]);
            assert(c[j] == b[j - a.len()]);
        } else {
            assert(c[i] == a[i]);
            assert(c[j] == b[j - a.len()]);
        }
    }
    assert forall|i: int| 0 <= i < c.len() implies lo <= c[i] && c[i] < hi by {
        if i < a.len() {
            assert(c[i] == a[i]);
            assert(lo <= a[i] < mid);
        } else {
            assert(c[i] == b[i - a.len()]);
            assert(mid <= b[i - a.len()] < hi);
        }
    }
}

/// A run of ids inside a range is inside any larger range.
pub proof fn lemma_ids_widen(s: Seq<int>, lo: int, hi: int, lo2: int, hi2: int)
    requires
        ids_between(s, lo, hi),
        lo2 <= lo,
        hi <= hi2,
    ensures
        ids_between(s, lo2, hi2),
{
}

/// A run of ids followed by one id above it.
pub proof fn lemma_ids_then(s: Seq<int>, lo: int, last: int)
    requires
        ids_between(s, lo, last),
        lo <= last,
    ensures
        ids_between(s + seq![last], lo, last + 1),
{
    lemma_ids_concat(s, seq![last], lo, last, last + 1);
}

/// The ids of an expression: those of its parts, then its own.
pub open spec fn expr_ids(e: SpecExpr) -> Seq<int>
    decreases e, 1int,
{
    kind_ids(e.kind) + seq![e.id as int]
}

/// The ids of the parts of an expression's form.
pub open spec fn kind_ids(k: SpecExprKind) -> Seq<int>
    decreases k, 0int,
{
    match k {
        SpecExprKind::Literal(_) => Seq::empty(),
        SpecExprKind::Identifier(_) => Seq::empty(),
        SpecExprKind::Assign { name, value } => expr_ids(*value),
        SpecExprKind::Grouping(e) => expr_ids(*e),
        SpecExprKind::Unary { operator, right } => expr_ids(*right),
        SpecExprKind::Binary { left, operator, right } => expr_ids(*left) + expr_ids(*right),
        SpecExprKind::Logical { left, operator, right } => expr_ids(*left) + expr_ids(*right),
        SpecExprKind::Call { expr, arguments } => expr_ids(*expr) + list_ids(arguments),
        SpecExprKind::Get { object, name } => expr_ids(*object),
        SpecExprKind::SetField { object, name, value } => expr_ids(*object) + expr_ids(*value),
        SpecExprKind::This(_) => Seq::empty(),
        SpecExprKind::Super(_, _) => Seq::empty(),
    }
}

/// The ids of a list of expressions, in order.
pub open spec fn list_ids(es: Seq<SpecExpr>) -> Seq<int>
    decreases es, 2int,
{
    if es.len() == 0 {
        Seq::empty()
    } else {
        list_ids(es.subrange(0, es.len() - 1)) + expr_ids(es[es.len() - 1])
    }
}

/// The ids of an optional expression.
pub open spec fn opt_ids(e: Option<SpecExpr>) -> Seq<int> {
    match e {
        Some(e) => expr_ids(e),
        None => Seq::empty(),
    }
}

/// The ids of the expressions in a statement, in source order.
pub open spec fn stmt_ids(s: SpecStmt) -> Seq<int>
    decreases s, 0int,
{
    match s {
        SpecStmt::Expression(e) => expr_ids(e),
        SpecStmt::Print(e) => expr_ids(e),
        SpecStmt::Declaration(_, e) => opt_ids(e),
        SpecStmt::Block(ss) => stmts_ids(ss),
        SpecStmt::If { condition, then_branch, else_branch } => {
            let rest = match else_branch {
                Some(b) => stmt_ids(*b),
                None => Seq::empty(),
            };
            expr_ids(condition) + stmt_ids(*then_branch) + rest
        },
        SpecStmt::While { condition, block } => expr_ids(condition) + stmt_ids(*block),
        SpecStmt::For { initializer, condition, increment, block } => {
            let first = match initializer {
                Some(i) => stmt_ids(*i),
                None => Seq::empty(),
            };
            first + opt_ids(condition) + opt_ids(increment) + stmt_ids(*block)
        },
        SpecStmt::Function { name, params, body } => stmt_ids(*body),
        SpecStmt::Return(e) => opt_ids(e),
        SpecStmt::Break(_) => Seq::empty(),
        SpecStmt::Continue(_) => Seq::empty(),
        SpecStmt::Class { name, methods, superclass } => stmts_ids(methods) + opt_ids(superclass),
    }
}

/// The ids of a list of statements, in order.
pub open spec fn stmts_ids(ss: Seq<SpecStmt>) -> Seq<int>
    decreases ss, 1int,
{
    if ss.len() == 0 {
        Seq::empty()
    } else {
        stmts_ids(ss.subrange(0, ss.len() - 1)) + stmt_ids(ss[ss.len() - 1])
    }
}

/// The ids of an optional statement.
pub open spec fn opt_stmt_ids(s: Option<SpecStmt>) -> Seq<int> {
    match s {
        Some(s) => stmt_ids(s),
        None => Seq::empty(),
    }
}

/// The ids of the statements that parsed, in order.
pub open spec fn results_ids(rs: Seq<Result<SpecStmt, crate::parser::grammar::SpecParseError>>) -> Seq<int>
    decreases rs.len(),
{
    if rs.len() == 0 {
        Seq::empty()
    } else {
        results_ids(rs.drop_last()) + match rs.last() {
            Ok(s) => stmt_ids(s),
            Err(_) => Seq::empty(),
        }
    }
}

} // verus!
