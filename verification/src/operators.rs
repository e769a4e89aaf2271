//! The rules of Lox's operators: which sorts of operands each operator
//! accepts, what it then does with them, and which error a mismatch raises.
//! The arithmetic itself is left to whoever holds the numbers.
use crate::lexer::{SpecTokenKind, TokenKind};
use vstd::prelude::*;

verus! {

/// The sort of a runtime value, as far as the operators look at it: the
/// truth of a boolean is kept, the contents of the other sorts are not.
#[derive(Clone, Copy, Debug, PartialEq, Eq, Structural)]
pub enum Operand {
    Nil,
    Boolean(bool),
    Number,
    String,
    /// A function, a class or an instance.
    Other,
}

/// An arithmetic operation on two numbers.
#[derive(Clone, Copy, Debug, PartialEq, Eq, Structural)]
pub enum Arithmetic {
    Add,
    Subtract,
    Multiply,
    Divide,
}

/// A comparison of two numbers.
#[derive(Clone, Copy, Debug, PartialEq, Eq, Structural)]
pub enum Comparison {
    Less,
    LessEqual,
    Greater,
    GreaterEqual,
}

/// The error raised when an operator meets operands of the wrong sorts.
#[derive(Clone, Copy, Debug, PartialEq, Eq, Structural)]
pub enum OperandError {
    /// A binary operator that takes numbers only.
    MustBeNumbers,
    /// `+`, which takes two numbers or two strings.
    MustBeNumbersOrStrings,
    /// Unary `-`.
    MustBeNumber,
}

/// What a binary operator does with its two operands.
#[derive(Clone, Copy, Debug, PartialEq, Eq, Structural)]
pub enum BinaryAction {
    /// Computes on the two numbers.
    Arithmetic(Arithmetic),
    /// Joins the two strings.
    Concatenate,
    /// Compares the two numbers.
    Compare(Comparison),
    /// Compares the two operands, of the same sort, for equality; the result
    /// is negated for `!=`.
    Equality { negated: bool },
    /// Gives this boolean without looking further.
    Constant(bool),
    /// Fails with this error.
    Fail(OperandError),
    /// The token is no binary operator.
    Unhandled,
}

/// What a unary operator does with its operand.
#[derive(Clone, Copy, Debug, PartialEq, Eq, Structural)]
pub enum UnaryAction {
    /// Gives this boolean: `!` of the operand's truth.
    Constant(bool),
    /// Negates the number.
    Negate,
    /// Fails with this error.
    Fail(OperandError),
    /// The token is no unary operator.
    Unhandled,
}

/// Whether a value counts as true: `nil` and `false` do not, everything else does.
pub open spec fn truth(o: Operand) -> bool {
    match o {
        Operand::Nil => false,
        Operand::Boolean(b) => b,
        _ => true,
    }
}

/// Whether both operands have the sort whose values `==` compares: two
/// numbers, two strings or two booleans.
pub open spec fn comparable(l: Operand, r: Operand) -> bool {
    ||| l is Number && r is Number
    ||| l is String && r is String
    ||| l is Boolean && r is Boolean
}

/// What the binary operator `op` does with operands of sorts `l` and `r`.
/// Operands of different sorts are never equal, and never unequal either:
/// both `==` and `!=` give `false` for them.
pub open spec fn binary_rule(op: SpecTokenKind, l: Operand, r: Operand) -> BinaryAction {
    let numbers = l is Number && r is Number;
    match op {
        SpecTokenKind::Star => if numbers {
            BinaryAction::Arithmetic(Arithmetic::Multiply)
        } else {
            BinaryAction::Fail(OperandError::MustBeNumbers)
        },
        SpecTokenKind::Slash => if numbers {
            BinaryAction::Arithmetic(Arithmetic::Divide)
        } else {
            BinaryAction::Fail(OperandError::MustBeNumbers)
        },
        SpecTokenKind::Minus => if numbers {
            BinaryAction::Arithmetic(Arithmetic::Subtract)
        } else {
            BinaryAction::Fail(OperandError::MustBeNumbers)
        },
        SpecTokenKind::Plus => if numbers {
            BinaryAction::Arithmetic(Arithmetic::Add)
        } else if l is String && r is String {
            BinaryAction::Concatenate
        } else {
            BinaryAction::Fail(OperandError::MustBeNumbersOrStrings)
        },
        SpecTokenKind::Less => if numbers {
            BinaryAction::Compare(Comparison::Less)
        } else {
            BinaryAction::Fail(OperandError::MustBeNumbers)
        },
        SpecTokenKind::LessEqual => if numbers {
            BinaryAction::Compare(Comparison::LessEqual)
        } else {
            BinaryAction::Fail(OperandError::MustBeNumbers)
        },
        SpecTokenKind::Greater => if numbers {
            BinaryAction::Compare(Comparison::Greater)
        } else {
            BinaryAction::Fail(OperandError::MustBeNumbers)
        },
        SpecTokenKind::GreaterEqual => if numbers {
            BinaryAction::Compare(Comparison::GreaterEqual)
        } else {
            BinaryAction::Fail(OperandError::MustBeNumbers)
        },
        SpecTokenKind::EqualEqual => if comparable(l, r) {
            BinaryAction::Equality { negated: false }
        } else {
            BinaryAction::Constant(false)
        },
        SpecTokenKind::BangEqual => if comparable(l, r) {
            BinaryAction::Equality { negated: true }
        } else {
            BinaryAction::Constant(false)
        },
        _ => BinaryAction::Unhandled,
    }
}

/// What the unary operator `op` does with an operand of sort `o`.
pub open spec fn unary_rule(op: SpecTokenKind, o: Operand) -> UnaryAction {
    match op {
        SpecTokenKind::Bang => UnaryAction::Constant(!truth(o)),
        SpecTokenKind::Minus => if o is Number {
            UnaryAction::Negate
        } else {
            UnaryAction::Fail(OperandError::MustBeNumber)
        },
        _ => UnaryAction::Unhandled,
    }
}

/// Whether a logical operator stops at its left operand, whose truth is
/// `left_true`: `or` stops at a true one, `and` at a false one. `None` for a
/// token that is no logical operator.
pub open spec fn logical_rule(op: SpecTokenKind, left_true: bool) -> Option<bool> {
    match op {
        SpecTokenKind::Or => Some(left_true),
        SpecTokenKind::And => Some(!left_true),
        _ => None,
    }
}

/// The message of an operand error.
pub open spec fn operand_error_text(e: OperandError) -> Seq<char> {
    match e {
        OperandError::MustBeNumbers => "Operands must be numbers."@,
        OperandError::MustBeNumbersOrStrings => "Operands must be two numbers or two strings."@,
        OperandError::MustBeNumber => "Operand must be a number."@,
    }
}

/// Whether a value of sort `o` counts as true.
pub fn is_truthy(o: Operand) -> (r: bool)
    ensures
        r == truth(o),
        !r <==> (o == Operand::Nil || o == Operand::Boolean(false)),
{
    match o {
        Operand::Nil => false,
        Operand::Boolean(b) => b,
        _ => true,
    }
}

/// Whether two operands have sorts that `==` compares by value.
fn same_comparable_sort(l: Operand, r: Operand) -> (b: bool)
    ensures
        b == comparable(l, r),
{
    match (l, r) {
        (Operand::Number, Operand::Number) => true,
        (Operand::String, Operand::String) => true,
        (Operand::Boolean(_), Operand::Boolean(_)) => true,
        _ => false,
    }
}

/// `a` when both operands are numbers, the error for operators on numbers
/// otherwise.
fn on_numbers(numbers: bool, a: BinaryAction) -> (b: BinaryAction)
    ensures
        b == (if numbers { a } else { BinaryAction::Fail(OperandError::MustBeNumbers) }),
{
    if numbers {
        a
    } else {
        BinaryAction::Fail(OperandError::MustBeNumbers)
    }
}

/// What the binary operator `op` does with operands of sorts `l` and `r`.
pub fn binary_action(op: &TokenKind, l: Operand, r: Operand) -> (a: BinaryAction)
    ensures
        a == binary_rule(op@, l, r),
        // `==` and `!=` compare two numbers, two strings or two booleans by
        // value, and give `false` for operands of different sorts (or nil).
        (op@ is EqualEqual || op@ is BangEqual) ==> a == (if (l is Number && r is Number) || (l is String
            && r is String) || (l is Boolean && r is Boolean) {
            BinaryAction::Equality { negated: op@ is BangEqual }
        } else {
            BinaryAction::Constant(false)
        }),
        // On two numbers each arithmetic operator computes its own operation.
        l is Number && r is Number ==> {
            &&& op@ is Plus ==> a == BinaryAction::Arithmetic(Arithmetic::Add)
            &&& op@ is Minus ==> a == BinaryAction::Arithmetic(Arithmetic::Subtract)
            &&& op@ is Star ==> a == BinaryAction::Arithmetic(Arithmetic::Multiply)
            &&& op@ is Slash ==> a == BinaryAction::Arithmetic(Arithmetic::Divide)
            &&& op@ is Less ==> a == BinaryAction::Compare(Comparison::Less)
            &&& op@ is LessEqual ==> a == BinaryAction::Compare(Comparison::LessEqual)
            &&& op@ is Greater ==> a == BinaryAction::Compare(Comparison::Greater)
            &&& op@ is GreaterEqual ==> a == BinaryAction::Compare(Comparison::GreaterEqual)
        },
        // `+` joins two strings.
        op@ is Plus && l is String && r is String ==> a == BinaryAction::Concatenate,
        // Arithmetic and comparisons happen only on two numbers; any other
        // operands make them fail.
        (a is Arithmetic || a is Compare) ==> l is Number && r is Number,
        (op@ is Minus || op@ is Star || op@ is Slash || op@ is Less || op@ is LessEqual || op@ is Greater
            || op@ is GreaterEqual) && !(l is Number && r is Number) ==> a == BinaryAction::Fail(
            OperandError::MustBeNumbers,
        ),
        op@ is Plus && !(l is Number && r is Number) && !(l is String && r is String) ==> a
            == BinaryAction::Fail(OperandError::MustBeNumbersOrStrings),
{
    let numbers = matches!(l, Operand::Number) && matches!(r, Operand::Number);
    match op {
        TokenKind::Star => on_numbers(numbers, BinaryAction::Arithmetic(Arithmetic::Multiply)),
        TokenKind::Slash => on_numbers(numbers, BinaryAction::Arithmetic(Arithmetic::Divide)),
        TokenKind::Minus => on_numbers(numbers, BinaryAction::Arithmetic(Arithmetic::Subtract)),
        TokenKind::Plus => if numbers {
            BinaryAction::Arithmetic(Arithmetic::Add)
        } else if matches!(l, Operand::String) && matches!(r, Operand::String) {
            BinaryAction::Concatenate
        } else {
            BinaryAction::Fail(OperandError::MustBeNumbersOrStrings)
        },
        TokenKind::Less => on_numbers(numbers, BinaryAction::Compare(Comparison::Less)),
        TokenKind::LessEqual => on_numbers(numbers, BinaryAction::Compare(Comparison::LessEqual)),
        TokenKind::Greater => on_numbers(numbers, BinaryAction::Compare(Comparison::Greater)),
        TokenKind::GreaterEqual => on_numbers(numbers, BinaryAction::Compare(Comparison::GreaterEqual)),
        TokenKind::EqualEqual => if same_comparable_sort(l, r) {
            BinaryAction::Equality { negated: false }
        } else {
            BinaryAction::Constant(false)
        },
        TokenKind::BangEqual => if same_comparable_sort(l, r) {
            BinaryAction::Equality { negated: true }
        } else {
            BinaryAction::Constant(false)
        },
        _ => BinaryAction::Unhandled,
    }
}

/// What the unary operator `op` does with an operand of sort `o`.
pub fn unary_action(op: &TokenKind, o: Operand) -> (a: UnaryAction)
    ensures
        a == unary_rule(op@, o),
        // `!` is true exactly of `nil` and `false`.
        op@ is Bang ==> a == UnaryAction::Constant(o == Operand::Nil || o == Operand::Boolean(false)),
        // `-` negates a number and fails on anything else.
        op@ is Minus ==> a == (if o is Number {
            UnaryAction::Negate
        } else {
            UnaryAction::Fail(OperandError::MustBeNumber)
        }),
{
    match op {
        TokenKind::Bang => UnaryAction::Constant(!is_truthy(o)),
        TokenKind::Minus => if matches!(o, Operand::Number) {
            UnaryAction::Negate
        } else {
            UnaryAction::Fail(OperandError::MustBeNumber)
        },
        _ => UnaryAction::Unhandled,
    }
}

/// Whether the logical operator `op` stops at a left operand of sort `left`,
/// giving that operand; `None` for a token that is no logical operator.
pub fn logical_stops(op: &TokenKind, left: Operand) -> (r: Option<bool>)
    ensures
        r == logical_rule(op@, truth(left)),
        // `or` stops at a left operand that is neither `nil` nor `false`; `and`
        // stops at one that is.
        op@ is Or ==> r == Some(!(left == Operand::Nil || left == Operand::Boolean(false))),
        op@ is And ==> r == Some(left == Operand::Nil || left == Operand::Boolean(false)),
{
    match op {
        TokenKind::Or => Some(is_truthy(left)),
        TokenKind::And => Some(!is_truthy(left)),
        _ => None,
    }
}

impl OperandError {
    /// The message of this error, such as `Operands must be numbers.`.
    pub fn to_display_string(&self) -> (s: String)
        ensures
            s@ == operand_error_text(*self),
    {
        match self {
            OperandError::MustBeNumbers => String::from_str("Operands must be numbers."),
            OperandError::MustBeNumbersOrStrings => String::from_str(
                "Operands must be two numbers or two strings.",
            ),
            OperandError::MustBeNumber => String::from_str("Operand must be a number."),
        }
    }
}

} // verus!
