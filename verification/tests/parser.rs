use lox::lexer::{Lexer, Token, TokenKind};
use lox::parser::expr::{Expr, ExprKind, LiteralValue};
use lox::parser::stmt::Stmt;
use lox::parser::{ParseError, Parser};

fn tokens(source: &str) -> Vec<Token> {
    let mut lexer = Lexer::new(source);
    let mut out = Vec::new();
    while let Some(r) = lexer.next() {
        out.push(r.expect("no scanning error expected"));
    }
    out
}

fn expression(source: &str) -> Result<Expr, ParseError> {
    let mut parser = Parser::new(tokens(source));
    parser.parse_expression()
}

fn parsed(source: &str) -> Expr {
    match expression(source) {
        Ok(e) => e,
        Err(e) => panic!("parse error: {}", e.to_display_string()),
    }
}

fn printed(source: &str) -> String {
    match expression(source) {
        Ok(e) => e.pretty_print(),
        Err(e) => panic!("parse error: {}", e.to_display_string()),
    }
}

fn program(source: &str) -> Vec<Result<Stmt, ParseError>> {
    let mut parser = Parser::new(tokens(source));
    parser.parse()
}

#[test]
fn literals_print_as_written() {
    assert_eq!(printed("true"), "true");
    assert_eq!(printed("false"), "false");
    assert_eq!(printed("nil"), "nil");
    assert_eq!(printed("42"), "42");
    assert_eq!(printed("\"hi there\""), "hi there");
}

#[test]
fn binary_operators_print_prefix_with_precedence() {
    assert_eq!(printed("1 + 2 * 3"), "(+ 1 (* 2 3))");
    assert_eq!(printed("1 - 2 - 3"), "(- (- 1 2) 3)");
    assert_eq!(printed("1 < 2 == true"), "(== (< 1 2) true)");
    assert_eq!(printed("6 / 3 >= 2 != false"), "(!= (>= (/ 6 3) 2) false)");
}

#[test]
fn grouping_and_unary() {
    assert_eq!(printed("(1 + 2) * 3"), "(* (group (+ 1 2)) 3)");
    assert_eq!(printed("-x"), "(- x)");
    assert_eq!(printed("!!true"), "(! (! true))");
}

#[test]
fn logical_operators_print_infix() {
    assert_eq!(printed("a or b and c"), "a or b and c");
}

#[test]
fn calls_list_their_arguments() {
    assert_eq!(printed("f()"), "f()");
    assert_eq!(printed("f(1, 2)(3)"), "f(1, 2)(3)");
}

#[test]
fn assignment_shows_the_target_token() {
    assert_eq!(printed("a = 1"), "IDENTIFIER a null = 1");
    assert_eq!(printed("a = b = 2"), "IDENTIFIER a null = IDENTIFIER b null = 2");
}

#[test]
fn invalid_assignment_target() {
    match expression("1 = 2") {
        Err(e) => {
            assert!(matches!(e, ParseError::InvalidAssignmentTarget));
            assert_eq!(e.to_display_string(), "Invalid assignment target");
        }
        Ok(_) => panic!("expected an error"),
    }
}

#[test]
fn missing_closing_parenthesis() {
    match expression("(1 + 2") {
        Err(e) => {
            assert!(matches!(e, ParseError::ExpectedToken(TokenKind::RightParen)));
            assert_eq!(e.to_display_string(), "Expected RIGHT_PAREN");
        }
        Ok(_) => panic!("expected an error"),
    }
}

#[test]
fn expected_expression_names_the_token() {
    match expression(";") {
        Err(e) => assert_eq!(e.to_display_string(), "[Line 1] Error at ';': Expect expression."),
        Ok(_) => panic!("expected an error"),
    }
}

#[test]
fn unexpected_end_of_input() {
    match expression("1 +") {
        Err(e) => {
            assert!(matches!(e, ParseError::UnexpectedEndOfInput));
            assert_eq!(e.to_display_string(), "Unexpected end of input");
        }
        Ok(_) => panic!("expected an error"),
    }
    assert!(matches!(expression(""), Err(ParseError::UnexpectedEndOfInput)));
}

#[test]
fn expression_ids_are_fresh() {
    let e = parsed("1 + 2");
    assert_eq!(e.id, 2);
    match &e.kind {
        ExprKind::Binary { left, right, .. } => {
            assert_eq!(left.id, 0);
            assert_eq!(right.id, 1);
        }
        _ => panic!("expected a binary expression"),
    }
}

#[test]
fn literal_number_keeps_text() {
    let e = parsed("3.5");
    assert!(matches!(&e.kind, ExprKind::Literal(LiteralValue::Number(t)) if t == "3.5"));
    assert_eq!(e.line, 1);
}

#[test]
fn declarations_and_prints() {
    let stmts = program("var a = 1; var b; print a;");
    assert_eq!(stmts.len(), 3);
    assert!(matches!(&stmts[0], Ok(Stmt::Declaration(t, Some(_))) if t.lexeme == "a"));
    assert!(matches!(&stmts[1], Ok(Stmt::Declaration(t, None)) if t.lexeme == "b"));
    assert!(matches!(&stmts[2], Ok(Stmt::Print(_))));
}

#[test]
fn parsing_resumes_after_an_error() {
    let stmts = program("print ; print 1;");
    assert_eq!(stmts.len(), 2);
    match &stmts[0] {
        Err(e) => assert_eq!(e.to_display_string(), "[Line 1] Error at ';': Expect expression."),
        Ok(_) => panic!("expected an error"),
    }
    assert!(matches!(&stmts[1], Ok(Stmt::Print(_))));
}

#[test]
fn at_most_one_result_per_token() {
    let source = "print ; ; ; var 1 ; }";
    let n = tokens(source).len();
    assert!(program(source).len() <= n);
    assert!(program("").is_empty());
}

#[test]
fn missing_semicolon() {
    let stmts = program("print 1");
    assert_eq!(stmts.len(), 1);
    assert!(matches!(&stmts[0], Err(ParseError::ExpectedToken(TokenKind::Semicolon))));
}

#[test]
fn blocks_nest() {
    let stmts = program("{ var a = 1; { print a; } }");
    assert_eq!(stmts.len(), 1);
    match &stmts[0] {
        Ok(Stmt::Block(inner)) => {
            assert_eq!(inner.len(), 2);
            assert!(matches!(&inner[1], Stmt::Block(b) if b.len() == 1));
        }
        _ => panic!("expected a block"),
    }
}

#[test]
fn if_else_while() {
    let stmts = program("if (a) print 1; else print 2; while (b) { print 3; }");
    assert_eq!(stmts.len(), 2);
    assert!(matches!(&stmts[0], Ok(Stmt::If { else_branch: Some(_), .. })));
    assert!(matches!(&stmts[1], Ok(Stmt::While { .. })));
}

#[test]
fn branch_may_not_be_a_declaration() {
    let stmts = program("if (a) var x = 1;");
    assert_eq!(stmts.len(), 1);
    match &stmts[0] {
        Err(ParseError::ExpectedExpr(t)) => assert_eq!(t.lexeme, "x"),
        _ => panic!("expected an error"),
    }
}

#[test]
fn for_loop_clauses() {
    let stmts = program("for (var i = 0; i < 3; i = i + 1) print i; for (;;) print 1;");
    assert_eq!(stmts.len(), 2);
    match &stmts[0] {
        Ok(Stmt::For { initializer, condition, increment, .. }) => {
            assert!(initializer.is_some());
            assert!(condition.is_some());
            assert!(increment.is_some());
        }
        _ => panic!("expected a for loop"),
    }
    match &stmts[1] {
        Ok(Stmt::For { initializer, condition, increment, .. }) => {
            assert!(initializer.is_none());
            assert!(condition.is_none());
            assert!(increment.is_none());
        }
        _ => panic!("expected a for loop"),
    }
}

#[test]
fn functions_and_returns() {
    let stmts = program("fun add(a, b) { return a + b; } fun f() { return; }");
    assert_eq!(stmts.len(), 2);
    match &stmts[0] {
        Ok(Stmt::Function { name, params, body }) => {
            assert_eq!(name.lexeme, "add");
            assert_eq!(params.len(), 2);
            assert!(matches!(&**body, Stmt::Block(b) if matches!(&b[0], Stmt::Return(Some(_)))));
        }
        _ => panic!("expected a function"),
    }
    assert!(matches!(&stmts[1], Ok(Stmt::Function { params, .. }) if params.is_empty()));
}

#[test]
fn function_body_must_be_a_block() {
    let stmts = program("fun f() print 1;");
    assert!(matches!(&stmts[0], Err(ParseError::ExpectedBlock)));
    let e = ParseError::ExpectedBlock;
    assert_eq!(e.to_display_string(), "Expected block");
}

#[test]
fn function_needs_a_name() {
    let stmts = program("fun (a) {}");
    assert!(matches!(&stmts[0], Err(ParseError::ExpectedIdentifier)));
    assert_eq!(ParseError::ExpectedIdentifier.to_display_string(), "Expected identifier");
}

#[test]
fn classes_hold_methods() {
    let stmts = program("class A { f() { return 1; } g(x) { } }");
    assert_eq!(stmts.len(), 1);
    match &stmts[0] {
        Ok(Stmt::Class { name, methods, superclass }) => {
            assert_eq!(name.lexeme, "A");
            assert_eq!(methods.len(), 2);
            assert!(superclass.is_none());
        }
        _ => panic!("expected a class"),
    }
}

#[test]
fn expression_statement() {
    let stmts = program("a = 1 + 2;");
    assert!(matches!(&stmts[0], Ok(Stmt::Expression(_))));
}

fn collect_ids(e: &Expr, out: &mut Vec<usize>) {
    match &e.kind {
        ExprKind::Assign { value, .. } => collect_ids(value, out),
        ExprKind::Grouping(x) => collect_ids(x, out),
        ExprKind::Unary { right, .. } => collect_ids(right, out),
        ExprKind::Binary { left, right, .. } | ExprKind::Logical { left, right, .. } => {
            collect_ids(left, out);
            collect_ids(right, out);
        }
        ExprKind::Call { expr, arguments } => {
            collect_ids(expr, out);
            for a in arguments {
                collect_ids(a, out);
            }
        }
        _ => {}
    }
    out.push(e.id);
}

fn collect_stmt_ids(s: &Stmt, out: &mut Vec<usize>) {
    match s {
        Stmt::Expression(e) | Stmt::Print(e) => collect_ids(e, out),
        Stmt::Declaration(_, Some(e)) | Stmt::Return(Some(e)) => collect_ids(e, out),
        Stmt::Block(ss) => ss.iter().for_each(|x| collect_stmt_ids(x, out)),
        Stmt::If { condition, then_branch, else_branch } => {
            collect_ids(condition, out);
            collect_stmt_ids(then_branch, out);
            if let Some(b) = else_branch {
                collect_stmt_ids(b, out);
            }
        }
        Stmt::While { condition, block } => {
            collect_ids(condition, out);
            collect_stmt_ids(block, out);
        }
        Stmt::Function { body, .. } => collect_stmt_ids(body, out),
        _ => {}
    }
}

#[test]
fn ids_increase_in_parse_order() {
    let mut ids = Vec::new();
    collect_ids(&parsed("a = f(1, -2) + (3 * x)"), &mut ids);
    assert!(ids.windows(2).all(|w| w[0] < w[1]));
    assert_eq!(ids.len(), 11);
}

#[test]
fn ids_are_distinct_across_statements() {
    let stmts = program("var a = 1 + 2; print a; if (a) { a = a - 1; } else print f(a); fun g(x) { return x * 2; }");
    let mut ids = Vec::new();
    for s in &stmts {
        match s {
            Ok(s) => collect_stmt_ids(s, &mut ids),
            Err(e) => panic!("parse error: {}", e.to_display_string()),
        }
    }
    assert!(ids.len() > 10);
    assert!(ids.windows(2).all(|w| w[0] < w[1]));
}

#[test]
fn duplicate_keeps_ids_and_text() {
    let e = parsed("f(a, 1) + -b");
    let d = e.duplicate();
    assert_eq!(d.id, e.id);
    assert_eq!(d.pretty_print(), e.pretty_print());
    let stmts = program("while (x) { print x; }");
    match &stmts[0] {
        Ok(s) => {
            let copy = s.duplicate();
            let (mut a, mut b) = (Vec::new(), Vec::new());
            collect_stmt_ids(s, &mut a);
            collect_stmt_ids(&copy, &mut b);
            assert_eq!(a, b);
        }
        Err(_) => panic!("expected a statement"),
    }
}

#[test]
fn parsing_again_after_the_end() {
    let mut parser = Parser::new(tokens("print 1; print"));
    let first = parser.parse();
    assert_eq!(first.len(), 2);
    assert!(parser.parse().is_empty());
    assert!(parser.parse().is_empty());
    assert!(matches!(parser.parse_expression(), Err(ParseError::UnexpectedEndOfInput)));
    assert!(matches!(parser.parse_expression(), Err(ParseError::UnexpectedEndOfInput)));
    assert!(parser.parse().is_empty());
}

#[test]
fn ids_stay_distinct_across_calls() {
    let mut parser = Parser::new(tokens("1 + 2"));
    let e = match parser.parse_expression() {
        Ok(e) => e,
        Err(_) => panic!("expected an expression"),
    };
    let mut ids = Vec::new();
    collect_ids(&e, &mut ids);
    let mut parser = Parser::new(tokens("1 2 + 3"));
    let a = match parser.parse_expression() {
        Ok(e) => e,
        Err(_) => panic!("expected an expression"),
    };
    let b = match parser.parse_expression() {
        Ok(e) => e,
        Err(_) => panic!("expected an expression"),
    };
    let mut ids2 = Vec::new();
    collect_ids(&a, &mut ids2);
    collect_ids(&b, &mut ids2);
    assert!(ids2.windows(2).all(|w| w[0] < w[1]));
}
