use lox::lexer::{Lexer, Token, TokenKind};
use lox::parser::expr::{Expr, ExprKind};
use lox::parser::stmt::Stmt;
use lox::parser::Parser;
use lox::resolver::{ResolveError, Resolver};

fn statements(source: &str) -> Vec<Stmt> {
    let mut lexer = Lexer::new(source);
    let mut tokens: Vec<Token> = Vec::new();
    while let Some(r) = lexer.next() {
        tokens.push(r.expect("no scanning error expected"));
    }
    let mut parser = Parser::new(tokens);
    parser
        .parse()
        .into_iter()
        .map(|r| r.unwrap_or_else(|e| panic!("parse error: {}", e.to_display_string())))
        .collect()
}

fn resolve(source: &str) -> (Resolver, Result<(), ResolveError>) {
    let mut resolver = Resolver::new();
    for s in statements(source) {
        let r = resolver.resolve_stmt(&s);
        if r.is_err() {
            return (resolver, r);
        }
    }
    (resolver, Ok(()))
}

/// The id of the first identifier expression named `name` in `e`.
fn find_in_expr(e: &Expr, name: &str) -> Option<usize> {
    match &e.kind {
        ExprKind::Identifier(t) if t.lexeme == name => Some(e.id),
        ExprKind::Assign { name: t, value } => {
            if t.lexeme == name {
                Some(e.id)
            } else {
                find_in_expr(value, name)
            }
        }
        ExprKind::Binary { left, right, .. } | ExprKind::Logical { left, right, .. } => {
            find_in_expr(left, name).or_else(|| find_in_expr(right, name))
        }
        ExprKind::Unary { right, .. } => find_in_expr(right, name),
        ExprKind::Grouping(x) => find_in_expr(x, name),
        ExprKind::Call { expr, arguments } => find_in_expr(expr, name)
            .or_else(|| arguments.iter().find_map(|a| find_in_expr(a, name))),
        _ => None,
    }
}

fn find_in_stmt(s: &Stmt, name: &str) -> Option<usize> {
    match s {
        Stmt::Expression(e) | Stmt::Print(e) => find_in_expr(e, name),
        Stmt::Declaration(_, Some(e)) => find_in_expr(e, name),
        Stmt::Block(ss) => ss.iter().find_map(|x| find_in_stmt(x, name)),
        Stmt::Function { body, .. } => find_in_stmt(body, name),
        Stmt::Return(Some(e)) => find_in_expr(e, name),
        Stmt::While { condition, block } => {
            find_in_expr(condition, name).or_else(|| find_in_stmt(block, name))
        }
        _ => None,
    }
}

fn depth_of(source: &str, name: &str) -> Option<usize> {
    let stmts = statements(source);
    let mut resolver = Resolver::new();
    for s in &stmts {
        assert!(resolver.resolve_stmt(s).is_ok());
    }
    let id = stmts
        .iter()
        .find_map(|s| find_in_stmt(s, name))
        .expect("the name is used");
    resolver.depths.get(&id).copied()
}

#[test]
fn globals_get_no_depth() {
    assert_eq!(depth_of("var a = 1; print a;", "a"), None);
    let (resolver, r) = resolve("var a = 1; print a;");
    assert!(r.is_ok());
    assert!(resolver.depths.is_empty());
}

#[test]
fn local_in_same_block_has_depth_zero() {
    assert_eq!(depth_of("{ var a = 1; print a; }", "a"), Some(0));
}

#[test]
fn local_in_enclosing_block_has_depth_one() {
    assert_eq!(depth_of("{ var a = 1; { print a; } }", "a"), Some(1));
    assert_eq!(depth_of("{ var a = 1; { { a = 2; } } }", "a"), Some(2));
}

#[test]
fn innermost_declaration_wins() {
    assert_eq!(depth_of("{ var a = 1; { var a = 2; print a; } }", "a"), Some(0));
}

#[test]
fn parameters_are_in_the_function_scope() {
    assert_eq!(depth_of("fun f(x) { print x; }", "x"), Some(0));
    assert_eq!(depth_of("{ var y = 1; fun f(x) { print y; } }", "y"), Some(1));
}

#[test]
fn for_loop_has_its_own_scope() {
    let stmts = statements("for (var i = 0; i < 3; i = i + 1) print i;");
    let mut resolver = Resolver::new();
    assert!(resolver.resolve_stmt(&stmts[0]).is_ok());
    let depths: Vec<usize> = resolver.depths.values().copied().collect();
    assert!(!depths.is_empty());
    assert!(depths.iter().all(|d| *d == 0));
}

#[test]
fn reading_a_variable_in_its_own_initializer() {
    let (_, r) = resolve("{ var a = a; }");
    match r {
        Err(e) => {
            assert!(matches!(e, ResolveError::SelfReference(1)));
            assert_eq!(e.to_display_string(), "[Line 1] variable references itself");
        }
        Ok(()) => panic!("expected an error"),
    }
}

#[test]
fn global_may_read_its_own_name() {
    let (_, r) = resolve("var a = a;");
    assert!(r.is_ok());
}

#[test]
fn declaring_twice_in_one_scope() {
    let (_, r) = resolve("{ var a = 1;\n var a = 2; }");
    match r {
        Err(e) => {
            assert!(matches!(&e, ResolveError::AlreadyDefined(2, name) if name == "a"));
            assert_eq!(
                e.to_display_string(),
                "[line 2] Error at 'a': Already a variable with this name in this scope."
            );
        }
        Ok(()) => panic!("expected an error"),
    }
}

#[test]
fn globals_may_be_declared_twice() {
    let (_, r) = resolve("var a = 1; var a = 2;");
    assert!(r.is_ok());
}

#[test]
fn duplicate_parameters() {
    let (_, r) = resolve("fun f(a, a) { }");
    assert!(matches!(r, Err(ResolveError::AlreadyDefined(1, _))));
}

#[test]
fn scope_operations() {
    let mut resolver = Resolver::new();
    resolver.resolve_local(7, "x");
    assert!(resolver.depths.is_empty());
    resolver.begin_scope();
    assert!(resolver.declare("x", 1).is_ok());
    assert!(matches!(resolver.declare("x", 4), Err(ResolveError::AlreadyDefined(4, _))));
    resolver.define("x");
    resolver.begin_scope();
    resolver.resolve_local(7, "x");
    assert_eq!(resolver.depths.get(&7), Some(&1));
    assert_eq!(resolver.depths().get(&7), Some(&1));
    resolver.end_scope();
    resolver.resolve_local(8, "x");
    assert_eq!(resolver.depths.get(&8), Some(&0));
    resolver.end_scope();
    resolver.end_scope();
    assert!(resolver.declare("x", 1).is_ok());
}

#[test]
fn top_level_statement_closes_its_scopes() {
    let mut resolver = Resolver::new();
    for s in statements("{ var a = 1; { var b = a; } } fun f(x) { return x; }") {
        assert!(resolver.resolve_stmt(&s).is_ok());
    }
    // With no scope left open, a global may be declared again.
    assert!(resolver.declare("a", 1).is_ok());
    assert!(resolver.declare("a", 1).is_ok());
}

#[test]
fn methods_see_this_one_scope_out() {
    // class A { m() { return this; } }, built by hand: the parser makes no
    // `this` expression.
    let token = |kind: TokenKind, text: &str| Token { kind, lexeme: text.to_string(), line: 1 };
    let this = Expr { id: 5, kind: ExprKind::This(token(TokenKind::This, "this")), line: 1 };
    let method = Stmt::Function {
        name: token(TokenKind::Identifier("m".to_string()), "m"),
        params: Vec::new(),
        body: Box::new(Stmt::Block(vec![Stmt::Return(Some(this))])),
    };
    let class = Stmt::Class {
        name: token(TokenKind::Identifier("A".to_string()), "A"),
        methods: vec![method],
        superclass: None,
    };
    let mut resolver = Resolver::new();
    assert!(resolver.resolve_stmt(&class).is_ok());
    assert_eq!(resolver.depths.get(&5), Some(&1));
    assert_eq!(resolver.depths.len(), 1);
}
