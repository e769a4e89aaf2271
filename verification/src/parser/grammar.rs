//! The grammar that the parser implements, written as functions on token
//! sequences.
//!
//! Each function takes the tokens, the position at which it starts and the
//! next expression id, and says what the matching parsing method returns, how
//! many tokens it consumes and how many expression ids it hands out. Errors
//! consume tokens too: parsing goes on from wherever the failed attempt stopped.
use crate::lexer::{SpecToken, SpecTokenKind};
use crate::parser::expr::{SpecExpr, SpecExprKind, SpecLiteral};
use crate::parser::stmt::SpecStmt;
use vstd::prelude::*;

verus! {

/// The model of a parse error.
pub enum SpecParseError {
    ExpectedToken(SpecTokenKind),
    ExpectedExpr(SpecToken),
    UnexpectedEndOfInput,
    ExpectedIdentifier,
    ExpectedBlock,
    InvalidAssignmentTarget,
}

/// The outcome of a parsing function that always consumes at least one token:
/// its result, the number of tokens it consumes beyond the first, and the
/// number of expression ids it hands out.
pub struct Parsed<T> {
    pub result: Result<T, SpecParseError>,
    pub extra: nat,
    pub ids: nat,
}

/// The outcome of a parsing step that may consume no token: its result, the
/// number of tokens it consumes, and the number of ids it hands out.
pub struct Taken<T> {
    pub result: Result<T, SpecParseError>,
    pub used: nat,
    pub ids: nat,
}

/// A parsing outcome that starts at `p` and stops before `end`.
pub open spec fn parsed<T>(result: Result<T, SpecParseError>, p: int, end: int, ids: nat) -> Parsed<T> {
    Parsed { result, extra: (end - p - 1) as nat, ids }
}

/// A step's outcome that starts at `p` and stops before `end`.
pub open spec fn taken<T>(result: Result<T, SpecParseError>, p: int, end: int, ids: nat) -> Taken<T> {
    Taken { result, used: (end - p) as nat, ids }
}

/// The position after a parsing outcome that started at `p`.
pub open spec fn after<T>(s: Parsed<T>, p: int) -> int {
    p + 1 + s.extra
}

/// What every parsing function gives at the end of the tokens: the end of
/// input is unexpected, and one position is consumed.
pub open spec fn end_of_input<T>() -> Parsed<T> {
    Parsed { result: Err(SpecParseError::UnexpectedEndOfInput), extra: 0, ids: 0 }
}

/// The number of tokens left from position `p`.
pub open spec fn remaining(ts: Seq<SpecToken>, p: int) -> nat {
    if p < ts.len() {
        (ts.len() - p) as nat
    } else {
        0
    }
}

/// The kind of the token at `p`, if there is one.
pub open spec fn kind_at(ts: Seq<SpecToken>, p: int) -> Option<SpecTokenKind> {
    if 0 <= p < ts.len() {
        Some(ts[p].kind)
    } else {
        None
    }
}

/// Whether the token at `p` has kind `k`.
pub open spec fn at(ts: Seq<SpecToken>, p: int, k: SpecTokenKind) -> bool {
    kind_at(ts, p) == Some(k)
}

/// Whether the token at `p` is an identifier.
pub open spec fn ident_at(ts: Seq<SpecToken>, p: int) -> bool {
    0 <= p < ts.len() && ts[p].kind is Identifier
}

/// An expression node with id `id`.
pub open spec fn node(id: int, kind: SpecExprKind, line: usize) -> SpecExpr {
    SpecExpr { id: id as usize, kind, line }
}

/// The binary precedence levels, loosest first.
#[derive(Clone, Copy, PartialEq, Eq, Structural)]
pub enum Level {
    Or,
    And,
    Equality,
    Comparison,
    Addition,
    Multiplication,
}

/// The order in which the parsing functions may call one another at the same
/// position.
pub open spec fn level_rank(l: Level) -> int {
    match l {
        Level::Or => 70,
        Level::And => 68,
        Level::Equality => 66,
        Level::Comparison => 64,
        Level::Addition => 62,
        Level::Multiplication => 60,
    }
}

/// The next tighter level.
pub open spec fn next_level(l: Level) -> Level {
    match l {
        Level::Or => Level::And,
        Level::And => Level::Equality,
        Level::Equality => Level::Comparison,
        Level::Comparison => Level::Addition,
        _ => Level::Multiplication,
    }
}

/// Whether a token of kind `k` is an operator of level `l`.
pub open spec fn level_op(l: Level, k: SpecTokenKind) -> bool {
    match l {
        Level::Or => k is Or,
        Level::And => k is And,
        Level::Equality => k is EqualEqual || k is BangEqual,
        Level::Comparison => k is Less || k is LessEqual || k is Greater || k is GreaterEqual,
        Level::Addition => k is Plus || k is Minus,
        Level::Multiplication => k is Star || k is Slash,
    }
}

/// The node that joins two operands at level `l`: logical for `or` and
/// `and`, binary otherwise.
pub open spec fn level_node(l: Level, left: SpecExpr, op: SpecToken, right: SpecExpr) -> SpecExprKind {
    match l {
        Level::Or => SpecExprKind::Logical { left: Box::new(left), operator: op, right: Box::new(right) },
        Level::And => SpecExprKind::Logical { left: Box::new(left), operator: op, right: Box::new(right) },
        _ => SpecExprKind::Binary { left: Box::new(left), operator: op, right: Box::new(right) },
    }
}

/// `expression := assignment`
#[verifier::opaque]
pub open spec fn expression(ts: Seq<SpecToken>, p: int, id: int) -> Parsed<SpecExpr>
    decreases remaining(ts, p), 85int,
{
    if p >= ts.len() {
        end_of_input()
    } else {
        assignment(ts, p, id)
    }
}

/// `assignment := or ( "=" assignment )?`, where the left side must be a
/// bare identifier; the right side is parsed before the left side is checked.
pub open spec fn assignment(ts: Seq<SpecToken>, p: int, id: int) -> Parsed<SpecExpr>
    decreases remaining(ts, p), 84int,
{
    if p >= ts.len() {
        end_of_input()
    } else {
        let l = binary(ts, Level::Or, p, id);
        match l.result {
            Err(e) => l,
            Ok(target) => {
                let q = after(l, p);
                if at(ts, q, SpecTokenKind::Equal) {
                    let line = ts[q].line;
                    let v = assignment(ts, q + 1, id + l.ids);
                    let end = after(v, q + 1);
                    match v.result {
                        Err(e) => parsed(Err(e), p, end, l.ids + v.ids),
                        Ok(value) => match target.kind {
                            SpecExprKind::Identifier(name) => parsed(
                                Ok(
                                    node(
                                        id + l.ids + v.ids,
                                        SpecExprKind::Assign { name, value: Box::new(value) },
                                        line,
                                    ),
                                ),
                                p,
                                end,
                                l.ids + v.ids + 1,
                            ),
                            _ => parsed(
                                Err(SpecParseError::InvalidAssignmentTarget),
                                p,
                                end,
                                l.ids + v.ids,
                            ),
                        },
                    }
                } else {
                    l
                }
            },
        }
    }
}

/// `level := operand ( op operand )*`, left-associative.
pub open spec fn binary(ts: Seq<SpecToken>, l: Level, p: int, id: int) -> Parsed<SpecExpr>
    decreases remaining(ts, p), level_rank(l),
{
    if p >= ts.len() {
        end_of_input()
    } else {
        let first = operand(ts, l, p, id);
        match first.result {
            Err(e) => first,
            Ok(left) => {
                let r = binary_rest(ts, l, left, after(first, p), id + first.ids);
                Parsed { result: r.result, extra: first.extra + r.used, ids: first.ids + r.ids }
            },
        }
    }
}

/// The operands of level `l`: the next tighter level, or unary expressions.
pub open spec fn operand(ts: Seq<SpecToken>, l: Level, p: int, id: int) -> Parsed<SpecExpr>
    decreases remaining(ts, p), level_rank(l) - 1,
{
    if p >= ts.len() {
        end_of_input()
    } else {
        match l {
            Level::Multiplication => unary(ts, p, id),
            _ => binary(ts, next_level(l), p, id),
        }
    }
}

/// The operators and operands that follow the first operand of level `l`.
pub open spec fn binary_rest(ts: Seq<SpecToken>, l: Level, left: SpecExpr, p: int, id: int) -> Taken<SpecExpr>
    decreases remaining(ts, p), 0int,
{
    if 0 <= p < ts.len() && level_op(l, ts[p].kind) {
        let op = ts[p];
        let r = operand(ts, l, p + 1, id);
        let q = after(r, p + 1);
        match r.result {
            Err(e) => taken(Err(e), p, q, r.ids),
            Ok(right) => {
                let e = node(id + r.ids, level_node(l, left, op, right), op.line);
                let rest = binary_rest(ts, l, e, q, id + r.ids + 1);
                taken(rest.result, p, q + rest.used, r.ids + 1 + rest.ids)
            },
        }
    } else {
        Taken { result: Ok(left), used: 0, ids: 0 }
    }
}

/// `unary := ( "!" | "-" ) unary | call`
pub open spec fn unary(ts: Seq<SpecToken>, p: int, id: int) -> Parsed<SpecExpr>
    decreases remaining(ts, p), 50int,
{
    if p >= ts.len() {
        end_of_input()
    } else if 0 <= p && (ts[p].kind is Bang || ts[p].kind is Minus) {
        let op = ts[p];
        let r = unary(ts, p + 1, id);
        let end = after(r, p + 1);
        match r.result {
            Err(e) => parsed(Err(e), p, end, r.ids),
            Ok(right) => parsed(
                Ok(node(id + r.ids, SpecExprKind::Unary { operator: op, right: Box::new(right) }, op.line)),
                p,
                end,
                r.ids + 1,
            ),
        }
    } else {
        call(ts, p, id)
    }
}

/// `call := primary ( "(" arguments? ")" )*`
pub open spec fn call(ts: Seq<SpecToken>, p: int, id: int) -> Parsed<SpecExpr>
    decreases remaining(ts, p), 49int,
{
    if p >= ts.len() {
        end_of_input()
    } else {
        let c = primary(ts, p, id);
        match c.result {
            Err(e) => c,
            Ok(callee) => {
                let r = call_rest(ts, callee, after(c, p), id + c.ids);
                Parsed { result: r.result, extra: c.extra + r.used, ids: c.ids + r.ids }
            },
        }
    }
}

/// The argument lists that follow a callee.
pub open spec fn call_rest(ts: Seq<SpecToken>, callee: SpecExpr, p: int, id: int) -> Taken<SpecExpr>
    decreases remaining(ts, p), 0int,
{
    if 0 <= p < ts.len() && at(ts, p, SpecTokenKind::LeftParen) {
        let line = ts[p].line;
        if at(ts, p + 1, SpecTokenKind::RightParen) {
            let e = node(id, SpecExprKind::Call { expr: Box::new(callee), arguments: seq![] }, line);
            let rest = call_rest(ts, e, p + 2, id + 1);
            taken(rest.result, p, p + 2 + rest.used, 1 + rest.ids)
        } else {
            let a = arguments(ts, p + 1, id);
            let q = after(a, p + 1);
            match a.result {
                Err(e) => taken(Err(e), p, q, a.ids),
                Ok(args) => if at(ts, q, SpecTokenKind::RightParen) {
                    let e = node(id + a.ids, SpecExprKind::Call { expr: Box::new(callee), arguments: args }, line);
                    let rest = call_rest(ts, e, q + 1, id + a.ids + 1);
                    taken(rest.result, p, q + 1 + rest.used, a.ids + 1 + rest.ids)
                } else {
                    taken(Err(SpecParseError::ExpectedToken(SpecTokenKind::RightParen)), p, q, a.ids)
                },
            }
        }
    } else {
        Taken { result: Ok(callee), used: 0, ids: 0 }
    }
}

/// `arguments := expression ( "," expression )*`
pub open spec fn arguments(ts: Seq<SpecToken>, p: int, id: int) -> Parsed<Seq<SpecExpr>>
    decreases remaining(ts, p), 86int,
{
    let e = expression(ts, p, id);
    let q = after(e, p);
    match e.result {
        Err(x) => parsed(Err(x), p, q, e.ids),
        Ok(v) => if at(ts, q, SpecTokenKind::Comma) {
            let r = arguments(ts, q + 1, id + e.ids);
            let end = after(r, q + 1);
            match r.result {
                Err(x) => parsed(Err(x), p, end, e.ids + r.ids),
                Ok(vs) => parsed(Ok(seq![v] + vs), p, end, e.ids + r.ids),
            }
        } else {
            parsed(Ok(seq![v]), p, q, e.ids)
        },
    }
}

/// The literal that a token stands for, if it stands for one.
pub open spec fn literal_of(k: SpecTokenKind) -> Option<SpecLiteral> {
    match k {
        SpecTokenKind::True => Some(SpecLiteral::Boolean(true)),
        SpecTokenKind::False => Some(SpecLiteral::Boolean(false)),
        SpecTokenKind::Nil => Some(SpecLiteral::Nil),
        SpecTokenKind::Number(v) => Some(SpecLiteral::Number(v)),
        SpecTokenKind::String(v) => Some(SpecLiteral::String(v)),
        _ => None,
    }
}

/// `primary := literal | identifier | "(" expression ")"`
pub open spec fn primary(ts: Seq<SpecToken>, p: int, id: int) -> Parsed<SpecExpr>
    decreases remaining(ts, p), 48int,
{
    if p >= ts.len() || p < 0 {
        end_of_input()
    } else {
        let t = ts[p];
        if literal_of(t.kind) is Some {
            parsed(Ok(node(id, SpecExprKind::Literal(literal_of(t.kind)->0), t.line)), p, p + 1, 1)
        } else if t.kind is Identifier {
            parsed(Ok(node(id, SpecExprKind::Identifier(t), t.line)), p, p + 1, 1)
        } else if t.kind is LeftParen {
            let inner = expression(ts, p + 1, id);
            let q = after(inner, p + 1);
            match inner.result {
                Err(e) => parsed(Err(e), p, q, inner.ids),
                Ok(x) => if at(ts, q, SpecTokenKind::RightParen) {
                    parsed(
                        Ok(node(id + inner.ids, SpecExprKind::Grouping(Box::new(x)), t.line)),
                        p,
                        q + 1,
                        inner.ids + 1,
                    )
                } else {
                    parsed(Err(SpecParseError::ExpectedToken(SpecTokenKind::RightParen)), p, q, inner.ids)
                },
            }
        } else {
            parsed(Err(SpecParseError::ExpectedExpr(t)), p, p + 1, 0)
        }
    }
}

/// `program := block*`: one result per top-level statement, parsing going on
/// after an error from where the failed statement stopped.
#[verifier::opaque]
pub open spec fn program(ts: Seq<SpecToken>, p: int, id: int) -> Seq<Result<SpecStmt, SpecParseError>>
    decreases remaining(ts, p), 100int,
{
    if p < 0 || p >= ts.len() {
        seq![]
    } else {
        let b = block(ts, p, id);
        seq![b.result] + program(ts, after(b, p), id + b.ids)
    }
}

/// `block := "{" block* "}" | declaration`
#[verifier::opaque]
pub open spec fn block(ts: Seq<SpecToken>, p: int, id: int) -> Parsed<SpecStmt>
    decreases remaining(ts, p), 90int,
{
    if p >= ts.len() {
        end_of_input()
    } else if at(ts, p, SpecTokenKind::LeftBrace) {
        let r = statements(ts, p + 1, id);
        let q = p + 1 + r.used;
        match r.result {
            Err(e) => parsed(Err(e), p, q, r.ids),
            Ok(ss) => parsed(Ok(SpecStmt::Block(ss)), p, q + 1, r.ids),
        }
    } else {
        declaration(ts, p, id)
    }
}

/// The statements of a block, up to its closing brace.
#[verifier::opaque]
pub open spec fn statements(ts: Seq<SpecToken>, p: int, id: int) -> Taken<Seq<SpecStmt>>
    decreases remaining(ts, p), 99int,
{
    if at(ts, p, SpecTokenKind::RightBrace) {
        Taken { result: Ok(seq![]), used: 0, ids: 0 }
    } else if p >= ts.len() {
        Taken { result: Err(SpecParseError::UnexpectedEndOfInput), used: 1, ids: 0 }
    } else {
        let b = block(ts, p, id);
        let q = after(b, p);
        match b.result {
            Err(e) => taken(Err(e), p, q, b.ids),
            Ok(s) => {
                let r = statements(ts, q, id + b.ids);
                match r.result {
                    Err(e) => taken(Err(e), p, q + r.used, b.ids + r.ids),
                    Ok(ss) => taken(Ok(seq![s] + ss), p, q + r.used, b.ids + r.ids),
                }
            },
        }
    }
}

/// `declaration := var_declaration | "fun" function | statement`
#[verifier::opaque]
pub open spec fn declaration(ts: Seq<SpecToken>, p: int, id: int) -> Parsed<SpecStmt>
    decreases remaining(ts, p), 89int,
{
    if p >= ts.len() {
        end_of_input()
    } else if at(ts, p, SpecTokenKind::Var) {
        var_declaration(ts, p, id)
    } else if at(ts, p, SpecTokenKind::Fun) {
        let f = function(ts, p + 1, id);
        parsed(f.result, p, p + 1 + f.used, f.ids)
    } else {
        statement(ts, p, id)
    }
}

/// `var_declaration := "var" identifier ( "=" expression )? ";"`. Starts at
/// the `var` keyword.
#[verifier::opaque]
pub open spec fn var_declaration(ts: Seq<SpecToken>, p: int, id: int) -> Parsed<SpecStmt>
    decreases remaining(ts, p), 88int,
{
    if !ident_at(ts, p + 1) {
        parsed(Err(SpecParseError::ExpectedIdentifier), p, p + 1, 0)
    } else {
        let name = ts[p + 1];
        if at(ts, p + 2, SpecTokenKind::Equal) {
            let e = expression(ts, p + 3, id);
            let q = after(e, p + 3);
            match e.result {
                Err(x) => parsed(Err(x), p, q, e.ids),
                Ok(v) => if at(ts, q, SpecTokenKind::Semicolon) {
                    parsed(Ok(SpecStmt::Declaration(name, Some(v))), p, q + 1, e.ids)
                } else {
                    parsed(Err(SpecParseError::ExpectedToken(SpecTokenKind::Semicolon)), p, q, e.ids)
                },
            }
        } else if at(ts, p + 2, SpecTokenKind::Semicolon) {
            parsed(Ok(SpecStmt::Declaration(name, None)), p, p + 3, 0)
        } else {
            parsed(Err(SpecParseError::ExpectedToken(SpecTokenKind::Semicolon)), p, p + 2, 0)
        }
    }
}

/// `function := identifier "(" parameters? ")" block`, where the body must be
/// a block.
#[verifier::opaque]
pub open spec fn function(ts: Seq<SpecToken>, p: int, id: int) -> Taken<SpecStmt>
    decreases remaining(ts, p), 0int,
{
    if !ident_at(ts, p) {
        Taken { result: Err(SpecParseError::ExpectedIdentifier), used: 0, ids: 0 }
    } else if !at(ts, p + 1, SpecTokenKind::LeftParen) {
        taken(Err(SpecParseError::ExpectedToken(SpecTokenKind::LeftParen)), p, p + 1, 0)
    } else {
        let name = ts[p];
        let ps = if at(ts, p + 2, SpecTokenKind::RightParen) {
            Taken { result: Ok(seq![]), used: 0, ids: 0 }
        } else {
            parameters(ts, p + 2)
        };
        let q = p + 2 + ps.used;
        match ps.result {
            Err(e) => taken(Err(e), p, q, 0),
            Ok(params) => if at(ts, q, SpecTokenKind::RightParen) {
                let b = block_statement(ts, q + 1, id);
                let end = after(b, q + 1);
                match b.result {
                    Err(e) => taken(Err(e), p, end, b.ids),
                    Ok(body) => taken(
                        Ok(SpecStmt::Function { name, params, body: Box::new(body) }),
                        p,
                        end,
                        b.ids,
                    ),
                }
            } else {
                taken(Err(SpecParseError::ExpectedToken(SpecTokenKind::RightParen)), p, q, 0)
            },
        }
    }
}

/// `parameters := identifier ( "," identifier )*`
#[verifier::opaque]
pub open spec fn parameters(ts: Seq<SpecToken>, p: int) -> Taken<Seq<SpecToken>>
    decreases remaining(ts, p), 0int,
{
    if !ident_at(ts, p) {
        Taken { result: Err(SpecParseError::ExpectedIdentifier), used: 0, ids: 0 }
    } else if at(ts, p + 1, SpecTokenKind::Comma) {
        let r = parameters(ts, p + 2);
        match r.result {
            Err(e) => taken(Err(e), p, p + 2 + r.used, 0),
            Ok(rest) => taken(Ok(seq![ts[p]] + rest), p, p + 2 + r.used, 0),
        }
    } else {
        taken(Ok(seq![ts[p]]), p, p + 1, 0)
    }
}

/// A statement that is not a declaration.
#[verifier::opaque]
pub open spec fn non_decl_statement(ts: Seq<SpecToken>, p: int, id: int) -> Parsed<SpecStmt>
    decreases remaining(ts, p), 91int,
{
    if p >= ts.len() {
        end_of_input()
    } else {
        let b = block(ts, p, id);
        match b.result {
            Ok(SpecStmt::Declaration(name, _)) => Parsed {
                result: Err(SpecParseError::ExpectedExpr(name)),
                extra: b.extra,
                ids: b.ids,
            },
            _ => b,
        }
    }
}

/// A statement that must be a block.
#[verifier::opaque]
pub open spec fn block_statement(ts: Seq<SpecToken>, p: int, id: int) -> Parsed<SpecStmt>
    decreases remaining(ts, p), 92int,
{
    if p >= ts.len() {
        end_of_input()
    } else {
        let b = block(ts, p, id);
        match b.result {
            Ok(SpecStmt::Block(_)) => b,
            Ok(_) => Parsed { result: Err(SpecParseError::ExpectedBlock), extra: b.extra, ids: b.ids },
            Err(_) => b,
        }
    }
}

/// `statement := print | if | while | for | break | continue | return | class | expression ";"`
#[verifier::opaque]
pub open spec fn statement(ts: Seq<SpecToken>, p: int, id: int) -> Parsed<SpecStmt>
    decreases remaining(ts, p), 88int,
{
    if p >= ts.len() || p < 0 {
        end_of_input()
    } else {
        match ts[p].kind {
            SpecTokenKind::Print => print_statement(ts, p, id),
            SpecTokenKind::If => if_statement(ts, p, id),
            SpecTokenKind::While => while_statement(ts, p, id),
            SpecTokenKind::For => for_statement(ts, p, id),
            SpecTokenKind::Break => jump_statement(ts, p),
            SpecTokenKind::Continue => jump_statement(ts, p),
            SpecTokenKind::Return => return_statement(ts, p, id),
            SpecTokenKind::Class => class_statement(ts, p, id),
            _ => expression_statement(ts, p, id),
        }
    }
}

/// `print := "print" expression ";"`. Starts at the `print` keyword.
#[verifier::opaque]
pub open spec fn print_statement(ts: Seq<SpecToken>, p: int, id: int) -> Parsed<SpecStmt>
    decreases remaining(ts, p), 87int,
{
    if p < 0 || p >= ts.len() {
        end_of_input()
    } else {
        let e = expression(ts, p + 1, id);
        let q = after(e, p + 1);
        match e.result {
            Err(x) => parsed(Err(x), p, q, e.ids),
            Ok(v) => if at(ts, q, SpecTokenKind::Semicolon) {
                parsed(Ok(SpecStmt::Print(v)), p, q + 1, e.ids)
            } else {
                parsed(Err(SpecParseError::ExpectedToken(SpecTokenKind::Semicolon)), p, q, e.ids)
            },
        }
    }
}

/// `break ";"` or `continue ";"`. Starts at the keyword.
#[verifier::opaque]
pub open spec fn jump_statement(ts: Seq<SpecToken>, p: int) -> Parsed<SpecStmt> {
    if p < 0 || p >= ts.len() {
        end_of_input()
    } else if !at(ts, p + 1, SpecTokenKind::Semicolon) {
        parsed(Err(SpecParseError::ExpectedToken(SpecTokenKind::Semicolon)), p, p + 1, 0)
    } else if ts[p].kind is Break {
        parsed(Ok(SpecStmt::Break(ts[p])), p, p + 2, 0)
    } else {
        parsed(Ok(SpecStmt::Continue(ts[p])), p, p + 2, 0)
    }
}

/// `return := "return" expression? ";"`. Starts at the `return` keyword.
#[verifier::opaque]
pub open spec fn return_statement(ts: Seq<SpecToken>, p: int, id: int) -> Parsed<SpecStmt>
    decreases remaining(ts, p), 87int,
{
    if p < 0 || p >= ts.len() {
        end_of_input()
    } else {
        let v = optional_expression(ts, p + 1, id, SpecTokenKind::Semicolon);
        let q = p + 1 + v.used;
        match v.result {
            Err(x) => parsed(Err(x), p, q, v.ids),
            Ok(value) => if at(ts, q, SpecTokenKind::Semicolon) {
                parsed(Ok(SpecStmt::Return(value)), p, q + 1, v.ids)
            } else {
                parsed(Err(SpecParseError::ExpectedToken(SpecTokenKind::Semicolon)), p, q, v.ids)
            },
        }
    }
}

/// An expression, or nothing when the next token has kind `stop` (which is
/// left in place).
#[verifier::opaque]
pub open spec fn optional_expression(ts: Seq<SpecToken>, p: int, id: int, stop: SpecTokenKind) -> Taken<Option<SpecExpr>>
    decreases remaining(ts, p), 86int,
{
    if at(ts, p, stop) {
        Taken { result: Ok(None), used: 0, ids: 0 }
    } else {
        let e = expression(ts, p, id);
        Taken {
            result: match e.result {
                Ok(v) => Ok(Some(v)),
                Err(x) => Err(x),
            },
            used: e.extra + 1,
            ids: e.ids,
        }
    }
}

/// `expression_statement := expression ";"`
#[verifier::opaque]
pub open spec fn expression_statement(ts: Seq<SpecToken>, p: int, id: int) -> Parsed<SpecStmt>
    decreases remaining(ts, p), 86int,
{
    if p >= ts.len() {
        end_of_input()
    } else {
        let e = expression(ts, p, id);
        let q = after(e, p);
        match e.result {
            Err(x) => parsed(Err(x), p, q, e.ids),
            Ok(v) => if at(ts, q, SpecTokenKind::Semicolon) {
                parsed(Ok(SpecStmt::Expression(v)), p, q + 1, e.ids)
            } else {
                parsed(Err(SpecParseError::ExpectedToken(SpecTokenKind::Semicolon)), p, q, e.ids)
            },
        }
    }
}

/// `if := "if" "(" expression ")" statement else_branch`, where the
/// branches may not be declarations. Starts at the `if` keyword.
#[verifier::opaque]
pub open spec fn if_statement(ts: Seq<SpecToken>, p: int, id: int) -> Parsed<SpecStmt>
    decreases remaining(ts, p), 87int,
{
    if !at(ts, p + 1, SpecTokenKind::LeftParen) {
        parsed(Err(SpecParseError::ExpectedToken(SpecTokenKind::LeftParen)), p, p + 1, 0)
    } else {
        let c = expression(ts, p + 2, id);
        let q = after(c, p + 2);
        match c.result {
            Err(e) => parsed(Err(e), p, q, c.ids),
            Ok(condition) => if !at(ts, q, SpecTokenKind::RightParen) {
                parsed(Err(SpecParseError::ExpectedToken(SpecTokenKind::RightParen)), p, q, c.ids)
            } else {
                let t = non_decl_statement(ts, q + 1, id + c.ids);
                let q1 = after(t, q + 1);
                match t.result {
                    Err(e) => parsed(Err(e), p, q1, c.ids + t.ids),
                    Ok(then_branch) => {
                        let el = else_branch(ts, q1, id + c.ids + t.ids);
                        let q2 = q1 + el.used;
                        let ids = c.ids + t.ids + el.ids;
                        match el.result {
                            Err(e) => parsed(Err(e), p, q2, ids),
                            Ok(else_branch) => parsed(
                                Ok(
                                    SpecStmt::If {
                                        condition,
                                        then_branch: Box::new(then_branch),
                                        else_branch: match else_branch {
                                            Some(s) => Some(Box::new(s)),
                                            None => None,
                                        },
                                    },
                                ),
                                p,
                                q2,
                                ids,
                            ),
                        }
                    },
                }
            },
        }
    }
}

/// `else_branch := ( "else" statement )?`
#[verifier::opaque]
pub open spec fn else_branch(ts: Seq<SpecToken>, p: int, id: int) -> Taken<Option<SpecStmt>>
    decreases remaining(ts, p), 92int,
{
    if at(ts, p, SpecTokenKind::Else) {
        let b = non_decl_statement(ts, p + 1, id);
        Taken {
            result: match b.result {
                Ok(s) => Ok(Some(s)),
                Err(e) => Err(e),
            },
            used: b.extra + 2,
            ids: b.ids,
        }
    } else {
        Taken { result: Ok(None), used: 0, ids: 0 }
    }
}

/// `while := "while" "(" expression ")" statement`, where the body may not be
/// a declaration. Starts at the `while` keyword.
#[verifier::opaque]
pub open spec fn while_statement(ts: Seq<SpecToken>, p: int, id: int) -> Parsed<SpecStmt>
    decreases remaining(ts, p), 87int,
{
    if !at(ts, p + 1, SpecTokenKind::LeftParen) {
        parsed(Err(SpecParseError::ExpectedToken(SpecTokenKind::LeftParen)), p, p + 1, 0)
    } else {
        let c = expression(ts, p + 2, id);
        let q = after(c, p + 2);
        match c.result {
            Err(e) => parsed(Err(e), p, q, c.ids),
            Ok(condition) => if !at(ts, q, SpecTokenKind::RightParen) {
                parsed(Err(SpecParseError::ExpectedToken(SpecTokenKind::RightParen)), p, q, c.ids)
            } else {
                let b = non_decl_statement(ts, q + 1, id + c.ids);
                let q1 = after(b, q + 1);
                match b.result {
                    Err(e) => parsed(Err(e), p, q1, c.ids + b.ids),
                    Ok(body) => parsed(
                        Ok(SpecStmt::While { condition, block: Box::new(body) }),
                        p,
                        q1,
                        c.ids + b.ids,
                    ),
                }
            },
        }
    }
}

/// `for := "for" "(" for_initializer for_header statement`, where the body
/// may not be a declaration. Starts at the `for` keyword.
#[verifier::opaque]
pub open spec fn for_statement(ts: Seq<SpecToken>, p: int, id: int) -> Parsed<SpecStmt>
    decreases remaining(ts, p), 87int,
{
    if !at(ts, p + 1, SpecTokenKind::LeftParen) {
        parsed(Err(SpecParseError::ExpectedToken(SpecTokenKind::LeftParen)), p, p + 1, 0)
    } else {
        let init = for_initializer(ts, p + 2, id);
        let q1 = after(init, p + 2);
        match init.result {
            Err(e) => parsed(Err(e), p, q1, init.ids),
            Ok(initializer) => {
                let h = for_header(ts, q1, id + init.ids);
                let q2 = q1 + h.used;
                let ids = init.ids + h.ids;
                match h.result {
                    Err(e) => parsed(Err(e), p, q2, ids),
                    Ok(clauses) => {
                        let b = non_decl_statement(ts, q2, id + ids);
                        let q3 = after(b, q2);
                        match b.result {
                            Err(e) => parsed(Err(e), p, q3, ids + b.ids),
                            Ok(body) => parsed(
                                Ok(
                                    SpecStmt::For {
                                        initializer: match initializer {
                                            Some(s) => Some(Box::new(s)),
                                            None => None,
                                        },
                                        condition: clauses.0,
                                        increment: clauses.1,
                                        block: Box::new(body),
                                    },
                                ),
                                p,
                                q3,
                                ids + b.ids,
                            ),
                        }
                    },
                }
            },
        }
    }
}

/// `for_header := expression? ";" expression? ")"`: the condition and the
/// increment of a `for`, through the closing parenthesis.
#[verifier::opaque]
pub open spec fn for_header(ts: Seq<SpecToken>, p: int, id: int) -> Taken<(Option<SpecExpr>, Option<SpecExpr>)> {
    let c = optional_expression(ts, p, id, SpecTokenKind::Semicolon);
    let q1 = p + c.used;
    match c.result {
        Err(e) => taken(Err(e), p, q1, c.ids),
        Ok(condition) => if !at(ts, q1, SpecTokenKind::Semicolon) {
            taken(Err(SpecParseError::ExpectedToken(SpecTokenKind::Semicolon)), p, q1, c.ids)
        } else {
            let i = optional_expression(ts, q1 + 1, id + c.ids, SpecTokenKind::RightParen);
            let q2 = q1 + 1 + i.used;
            let ids = c.ids + i.ids;
            match i.result {
                Err(e) => taken(Err(e), p, q2, ids),
                Ok(increment) => if !at(ts, q2, SpecTokenKind::RightParen) {
                    taken(Err(SpecParseError::ExpectedToken(SpecTokenKind::RightParen)), p, q2, ids)
                } else {
                    taken(Ok((condition, increment)), p, q2 + 1, ids)
                },
            }
        },
    }
}

/// `for_initializer := ";" | var_declaration | expression ";"`
#[verifier::opaque]
pub open spec fn for_initializer(ts: Seq<SpecToken>, p: int, id: int) -> Parsed<Option<SpecStmt>>
    decreases remaining(ts, p), 93int,
{
    if at(ts, p, SpecTokenKind::Semicolon) {
        Parsed { result: Ok(None), extra: 0, ids: 0 }
    } else {
        let d = if at(ts, p, SpecTokenKind::Var) {
            declaration(ts, p, id)
        } else {
            expression_statement(ts, p, id)
        };
        Parsed {
            result: match d.result {
                Ok(s) => Ok(Some(s)),
                Err(e) => Err(e),
            },
            extra: d.extra,
            ids: d.ids,
        }
    }
}

/// `class := "class" identifier "{" function* "}"`. Starts at the `class`
/// keyword.
#[verifier::opaque]
pub open spec fn class_statement(ts: Seq<SpecToken>, p: int, id: int) -> Parsed<SpecStmt>
    decreases remaining(ts, p), 87int,
{
    if !ident_at(ts, p + 1) {
        parsed(Err(SpecParseError::ExpectedIdentifier), p, p + 1, 0)
    } else if !at(ts, p + 2, SpecTokenKind::LeftBrace) {
        parsed(Err(SpecParseError::ExpectedToken(SpecTokenKind::LeftBrace)), p, p + 2, 0)
    } else {
        let name = ts[p + 1];
        let m = methods(ts, p + 3, id);
        let q = p + 3 + m.used;
        match m.result {
            Err(e) => parsed(Err(e), p, q, m.ids),
            Ok(ms) => if at(ts, q, SpecTokenKind::RightBrace) {
                parsed(Ok(SpecStmt::Class { name, methods: ms, superclass: None }), p, q + 1, m.ids)
            } else {
                parsed(Err(SpecParseError::ExpectedToken(SpecTokenKind::RightBrace)), p, q, m.ids)
            },
        }
    }
}

/// The methods of a class, up to its closing brace.
#[verifier::opaque]
pub open spec fn methods(ts: Seq<SpecToken>, p: int, id: int) -> Taken<Seq<SpecStmt>>
    decreases remaining(ts, p), 1int,
{
    if at(ts, p, SpecTokenKind::RightBrace) {
        Taken { result: Ok(seq![]), used: 0, ids: 0 }
    } else if p >= ts.len() || p < 0 {
        Taken { result: Err(SpecParseError::ExpectedIdentifier), used: 0, ids: 0 }
    } else {
        let f = function(ts, p, id);
        match f.result {
            Err(e) => Taken { result: Err(e), used: f.used, ids: f.ids },
            Ok(s) => if f.used == 0 {
                // Cannot happen: a function that parses has consumed its name.
                Taken { result: Ok(seq![s]), used: 0, ids: f.ids }
            } else {
                let r = methods(ts, p + f.used, id + f.ids);
                match r.result {
                    Err(e) => taken(Err(e), p, p + f.used + r.used, f.ids + r.ids),
                    Ok(ms) => taken(Ok(seq![s] + ms), p, p + f.used + r.used, f.ids + r.ids),
                }
            },
        }
    }
}

/// At or past the end of the tokens, every statement-level rule meets the
/// end of input.
pub proof fn lemma_end_of_input(ts: Seq<SpecToken>, p: int, id: int)
    ensures
        p >= ts.len() ==> {
            &&& block(ts, p, id) == end_of_input::<SpecStmt>()
            &&& declaration(ts, p, id) == end_of_input::<SpecStmt>()
            &&& statement(ts, p, id) == end_of_input::<SpecStmt>()
            &&& non_decl_statement(ts, p, id) == end_of_input::<SpecStmt>()
            &&& block_statement(ts, p, id) == end_of_input::<SpecStmt>()
            &&& expression_statement(ts, p, id) == end_of_input::<SpecStmt>()
            &&& expression(ts, p, id) == end_of_input::<SpecExpr>()
            &&& function(ts, p, id) == Taken::<SpecStmt> {
                result: Err(SpecParseError::ExpectedIdentifier),
                used: 0,
                ids: 0,
            }
        },
{
    reveal_with_fuel(expression, 1);
    reveal_with_fuel(function, 1);
    reveal_with_fuel(block, 1);
    reveal_with_fuel(declaration, 1);
    reveal_with_fuel(statement, 1);
    reveal_with_fuel(non_decl_statement, 1);
    reveal_with_fuel(block_statement, 1);
    reveal_with_fuel(expression_statement, 1);
}

/// A function that parses has consumed at least its name.
pub proof fn lemma_function_progress(ts: Seq<SpecToken>, p: int, id: int)
    ensures
        function(ts, p, id).result is Ok ==> function(ts, p, id).used > 0,
{
    reveal_with_fuel(function, 1);
}

} // verus!
