use lox::lexer::TokenKind;
use lox::operators::{
    binary_action, is_truthy, logical_stops, unary_action, Arithmetic, BinaryAction, Comparison, Operand,
    OperandError, UnaryAction,
};

#[test]
fn truthiness() {
    assert!(!is_truthy(Operand::Nil));
    assert!(!is_truthy(Operand::Boolean(false)));
    assert!(is_truthy(Operand::Boolean(true)));
    assert!(is_truthy(Operand::Number));
    assert!(is_truthy(Operand::String));
    assert!(is_truthy(Operand::Other));
}

#[test]
fn arithmetic_needs_numbers() {
    let n = Operand::Number;
    let s = Operand::String;
    assert_eq!(binary_action(&TokenKind::Star, n, n), BinaryAction::Arithmetic(Arithmetic::Multiply));
    assert_eq!(binary_action(&TokenKind::Slash, n, n), BinaryAction::Arithmetic(Arithmetic::Divide));
    assert_eq!(binary_action(&TokenKind::Minus, n, n), BinaryAction::Arithmetic(Arithmetic::Subtract));
    assert_eq!(binary_action(&TokenKind::Plus, n, n), BinaryAction::Arithmetic(Arithmetic::Add));
    assert_eq!(binary_action(&TokenKind::Star, n, s), BinaryAction::Fail(OperandError::MustBeNumbers));
    assert_eq!(binary_action(&TokenKind::Minus, Operand::Nil, n), BinaryAction::Fail(OperandError::MustBeNumbers));
}

#[test]
fn plus_joins_strings() {
    let s = Operand::String;
    assert_eq!(binary_action(&TokenKind::Plus, s, s), BinaryAction::Concatenate);
    assert_eq!(
        binary_action(&TokenKind::Plus, s, Operand::Number),
        BinaryAction::Fail(OperandError::MustBeNumbersOrStrings)
    );
}

#[test]
fn comparisons_need_numbers() {
    let n = Operand::Number;
    assert_eq!(binary_action(&TokenKind::Less, n, n), BinaryAction::Compare(Comparison::Less));
    assert_eq!(binary_action(&TokenKind::LessEqual, n, n), BinaryAction::Compare(Comparison::LessEqual));
    assert_eq!(binary_action(&TokenKind::Greater, n, n), BinaryAction::Compare(Comparison::Greater));
    assert_eq!(binary_action(&TokenKind::GreaterEqual, n, n), BinaryAction::Compare(Comparison::GreaterEqual));
    assert_eq!(
        binary_action(&TokenKind::Less, Operand::String, Operand::String),
        BinaryAction::Fail(OperandError::MustBeNumbers)
    );
}

#[test]
fn equality_across_sorts_is_false_both_ways() {
    let t = Operand::Boolean(true);
    let f = Operand::Boolean(false);
    assert_eq!(binary_action(&TokenKind::EqualEqual, t, f), BinaryAction::Equality { negated: false });
    assert_eq!(binary_action(&TokenKind::BangEqual, Operand::String, Operand::String), BinaryAction::Equality { negated: true });
    assert_eq!(binary_action(&TokenKind::EqualEqual, Operand::Number, Operand::String), BinaryAction::Constant(false));
    assert_eq!(binary_action(&TokenKind::BangEqual, Operand::Number, Operand::String), BinaryAction::Constant(false));
    assert_eq!(binary_action(&TokenKind::EqualEqual, Operand::Nil, Operand::Nil), BinaryAction::Constant(false));
}

#[test]
fn other_tokens_are_unhandled() {
    assert_eq!(binary_action(&TokenKind::Comma, Operand::Number, Operand::Number), BinaryAction::Unhandled);
    assert_eq!(unary_action(&TokenKind::Plus, Operand::Number), UnaryAction::Unhandled);
    assert_eq!(logical_stops(&TokenKind::Plus, Operand::Nil), None);
}

#[test]
fn unary_operators() {
    assert_eq!(unary_action(&TokenKind::Bang, Operand::Nil), UnaryAction::Constant(true));
    assert_eq!(unary_action(&TokenKind::Bang, Operand::Number), UnaryAction::Constant(false));
    assert_eq!(unary_action(&TokenKind::Minus, Operand::Number), UnaryAction::Negate);
    assert_eq!(unary_action(&TokenKind::Minus, Operand::String), UnaryAction::Fail(OperandError::MustBeNumber));
}

#[test]
fn logical_operators_short_circuit() {
    assert_eq!(logical_stops(&TokenKind::Or, Operand::Boolean(true)), Some(true));
    assert_eq!(logical_stops(&TokenKind::Or, Operand::Nil), Some(false));
    assert_eq!(logical_stops(&TokenKind::And, Operand::Nil), Some(true));
    assert_eq!(logical_stops(&TokenKind::And, Operand::Number), Some(false));
}

#[test]
fn operand_error_messages() {
    assert_eq!(OperandError::MustBeNumbers.to_display_string(), "Operands must be numbers.");
    assert_eq!(
        OperandError::MustBeNumbersOrStrings.to_display_string(),
        "Operands must be two numbers or two strings."
    );
    assert_eq!(OperandError::MustBeNumber.to_display_string(), "Operand must be a number.");
}
