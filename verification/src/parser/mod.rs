//! The parser: builds statements and expressions from tokens, by recursive
//! descent, as the grammar in [`grammar`] says.
pub mod expr;
pub mod grammar;
pub mod ids;
pub mod laws;
pub mod precedence;
pub mod size;
pub mod stmt;

use crate::lexer::{kind_name, SpecToken, Token, TokenKind};
use crate::parser::expr::{lemma_exprs_view, Expr, ExprKind, LiteralValue, SpecExpr, SpecExprKind};
use crate::parser::ids::{
    expr_ids, ids_between, lemma_ids_concat, lemma_ids_then, lemma_ids_widen, list_ids, opt_ids, opt_stmt_ids,
    results_ids, stmt_ids, stmts_ids,
};
use crate::parser::grammar::{at, ident_at, level_op, Level, Parsed, SpecParseError, Taken};
use crate::parser::size::{expr_len, list_len, method_len, methods_len, names_len, opt_len, stmt_len, stmts_len};
use crate::parser::precedence::{all_well_nested, lemma_level_ops, level_prec, top_prec, well_nested};
use crate::parser::stmt::{lemma_stmts_view_push, lemma_tokens_view_push, stmts_view, tokens_view, SpecStmt, Stmt};
use crate::text::{decimal, push_decimal};
use vstd::prelude::*;

verus! {

/// An error met while parsing.
pub enum ParseError {
    ExpectedToken(TokenKind),
    ExpectedExpr(Token),
    UnexpectedEndOfInput,
    ExpectedIdentifier,
    ExpectedBlock,
    InvalidAssignmentTarget,
}

impl View for ParseError {
    type V = SpecParseError;

    open spec fn view(&self) -> SpecParseError {
        match self {
            ParseError::ExpectedToken(k) => SpecParseError::ExpectedToken(k@),
            ParseError::ExpectedExpr(t) => SpecParseError::ExpectedExpr(t@),
            ParseError::UnexpectedEndOfInput => SpecParseError::UnexpectedEndOfInput,
            ParseError::ExpectedIdentifier => SpecParseError::ExpectedIdentifier,
            ParseError::ExpectedBlock => SpecParseError::ExpectedBlock,
            ParseError::InvalidAssignmentTarget => SpecParseError::InvalidAssignmentTarget,
        }
    }
}

/// The message shown for a parse error.
pub open spec fn parse_error_text(e: SpecParseError) -> Seq<char> {
    match e {
        SpecParseError::ExpectedToken(k) => "Expected "@ + kind_name(k),
        SpecParseError::ExpectedExpr(t) => "[Line "@ + decimal(t.line as nat) + "] Error at '"@ + t.lexeme
            + "': Expect expression."@,
        SpecParseError::UnexpectedEndOfInput => "Unexpected end of input"@,
        SpecParseError::ExpectedIdentifier => "Expected identifier"@,
        SpecParseError::InvalidAssignmentTarget => "Invalid assignment target"@,
        SpecParseError::ExpectedBlock => "Expected block"@,
    }
}

impl ParseError {
    /// The message shown for this error, such as `Expected SEMICOLON`.
    pub fn to_display_string(&self) -> (s: String)
        ensures
            s@ == parse_error_text(self@),
    {
        match self {
            ParseError::ExpectedToken(k) => {
                let mut s = String::from_str("Expected ");
                let name = k.to_display_string();
                s.append(name.as_str());
                s
            },
            ParseError::ExpectedExpr(t) => {
                let mut s = String::from_str("[Line ");
                push_decimal(&mut s, t.line);
                s.append("] Error at '");
                s.append(t.lexeme.as_str());
                s.append("': Expect expression.");
                s
            },
            ParseError::UnexpectedEndOfInput => String::from_str("Unexpected end of input"),
            ParseError::ExpectedIdentifier => String::from_str("Expected identifier"),
            ParseError::InvalidAssignmentTarget => String::from_str("Invalid assignment target"),
            ParseError::ExpectedBlock => String::from_str("Expected block"),
        }
    }
}

/// The model of a parsing result.
pub open spec fn result_view<T: View>(r: Result<T, ParseError>) -> Result<T::V, SpecParseError> {
    match r {
        Ok(v) => Ok(v@),
        Err(e) => Err(e@),
    }
}

/// A parser over a sequence of tokens.
pub struct Parser {
    tokens: Vec<Token>,
    pos: usize,
    next_id: usize,
}

/// Whether a parsing method, run from `before` to `after`, did what the
/// grammar outcome `s` says, with result `r`.
pub open spec fn follows<T>(before: &Parser, after: &Parser, s: Parsed<T>, r: Result<T, SpecParseError>) -> bool {
    &&& s.result == r
    &&& after.pos() == before.pos() + 1 + s.extra
    &&& after.next_id() == before.next_id() + s.ids
}

/// Like [`follows`], for a step that may consume no token.
pub open spec fn follows_step<T>(before: &Parser, after: &Parser, s: Taken<T>, r: Result<T, SpecParseError>) -> bool {
    &&& s.result == r
    &&& after.pos() == before.pos() + s.used
    &&& after.next_id() == before.next_id() + s.ids
}

/// A parsing method that always consumes a token, run from `before` to
/// `after`, returned `r` as the grammar outcome `s` says, kept what every
/// method keeps, and stopped inside the tokens if it succeeded.
pub open spec fn parses<T: View>(before: &Parser, after: &Parser, s: Parsed<T::V>, r: Result<T, ParseError>) -> bool {
    &&& progressed(before, after)
    &&& follows(before, after, s, result_view(r))
    &&& r is Ok ==> after.pos() <= after.tokens().len()
}

/// Like [`parses`], for a step that may consume no token.
pub open spec fn steps<T: View>(before: &Parser, after: &Parser, s: Taken<T::V>, r: Result<T, ParseError>) -> bool {
    &&& progressed(before, after)
    &&& follows_step(before, after, s, result_view(r))
    &&& r is Ok ==> after.pos() <= after.tokens().len()
}

/// Whether a parsed expression's ids, in the order they were handed out,
/// strictly increase and lie among the ids handed out from `before` to
/// `after`: every node of the expression has an id of its own.
pub open spec fn fresh_ids(before: &Parser, after: &Parser, r: Result<Expr, ParseError>) -> bool {
    r is Ok ==> ids_between(expr_ids(r->Ok_0@), before.next_id(), after.next_id())
}

/// Whether a parsed expression respects operator precedence everywhere, and
/// binds at its top at least as tightly as precedence `p`.
pub open spec fn nested_at(r: Result<Expr, ParseError>, p: int) -> bool {
    r is Ok ==> well_nested(r->Ok_0@) && top_prec(r->Ok_0@) >= p
}

/// Whether a parsed expression is written with exactly the tokens consumed
/// from `before` to `after`.
pub open spec fn spans(before: &Parser, after: &Parser, r: Result<Expr, ParseError>) -> bool {
    r is Ok ==> expr_len(r->Ok_0@) == after.pos() - before.pos()
}

/// Whether a parsed statement is written with exactly the tokens consumed
/// from `before` to `after`.
pub open spec fn spans_stmt(before: &Parser, after: &Parser, r: Result<Stmt, ParseError>) -> bool {
    r is Ok ==> stmt_len(r->Ok_0@) == after.pos() - before.pos()
}

/// Adding an expression to a list adds its tokens, and a comma before it if
/// the list was not empty.
pub proof fn lemma_list_len_push(s: Seq<Expr>, e: Expr)
    ensures
        list_len(crate::parser::expr::exprs_view(s.push(e))) == list_len(crate::parser::expr::exprs_view(s))
            + (if s.len() > 0 { 1int } else { 0int }) + expr_len(e@),
{
    crate::parser::expr::lemma_exprs_view_push(s, e);
    lemma_exprs_view(s);
    let v = crate::parser::expr::exprs_view(s).push(e@);
    assert(v.subrange(0, v.len() - 1) =~= crate::parser::expr::exprs_view(s));
}

/// What a call node is made of: the ids, tokens and nesting of its callee
/// and arguments.
pub proof fn lemma_call_node(e: SpecExpr, callee: SpecExpr, args: Seq<SpecExpr>)
    requires
        e.kind == (SpecExprKind::Call { expr: Box::new(callee), arguments: args }),
    ensures
        expr_ids(e) == expr_ids(callee) + list_ids(args) + seq![e.id as int],
        expr_len(e) == expr_len(callee) + 2 + list_len(args),
        well_nested(e) == (top_prec(callee) >= 8 && well_nested(callee) && all_well_nested(args)),
        top_prec(e) == 8,
{
}

/// Adding a statement to a list adds its tokens.
pub proof fn lemma_stmts_len_push(s: Seq<Stmt>, x: Stmt)
    ensures
        stmts_len(stmts_view(s.push(x))) == stmts_len(stmts_view(s)) + stmt_len(x@),
        methods_len(stmts_view(s.push(x))) == methods_len(stmts_view(s)) + method_len(x@),
{
    lemma_stmts_view_push(s, x);
    let v = stmts_view(s).push(x@);
    assert(v.subrange(0, v.len() - 1) =~= stmts_view(s));
}

/// Like [`fresh_ids`], for the expressions of a parsed statement.
pub open spec fn fresh_stmt_ids(before: &Parser, after: &Parser, r: Result<Stmt, ParseError>) -> bool {
    r is Ok ==> ids_between(stmt_ids(r->Ok_0@), before.next_id(), after.next_id())
}

/// The ids of a list of statements: adding one at the end adds its ids.
pub proof fn lemma_stmts_ids_push(s: Seq<Stmt>, x: Stmt)
    ensures
        stmts_ids(stmts_view(s.push(x))) == stmts_ids(stmts_view(s)) + stmt_ids(x@),
{
    lemma_stmts_view_push(s, x);
    let v = stmts_view(s).push(x@);
    assert(v.subrange(0, v.len() - 1) =~= stmts_view(s));
}

/// The ids of a list of expressions: adding one at the end adds its ids.
pub proof fn lemma_list_ids_push(s: Seq<Expr>, e: Expr)
    ensures
        list_ids(crate::parser::expr::exprs_view(s.push(e)))
            == list_ids(crate::parser::expr::exprs_view(s)) + expr_ids(e@),
{
    crate::parser::expr::lemma_exprs_view_push(s, e);
    let v = crate::parser::expr::exprs_view(s).push(e@);
    assert(v.subrange(0, v.len() - 1) =~= crate::parser::expr::exprs_view(s));
}

/// What every parsing method keeps: the tokens, the invariant, and no more
/// ids handed out than tokens consumed.
pub open spec fn progressed(before: &Parser, after: &Parser) -> bool {
    &&& after.wf()
    &&& after.same_tokens(before)
    &&& before.pos() <= after.pos()
    &&& after.next_id() - before.next_id() <= after.pos() - before.pos()
}

impl Parser {
    /// The models of the tokens.
    pub closed spec fn tokens(&self) -> Seq<SpecToken> {
        tokens_view(self.tokens@)
    }

    /// The position of the next token.
    pub closed spec fn pos(&self) -> int {
        self.pos as int
    }

    /// The id that the next expression gets.
    pub closed spec fn next_id(&self) -> int {
        self.next_id as int
    }

    /// Whether two parsers hold the same tokens.
    pub closed spec fn same_tokens(&self, other: &Parser) -> bool {
        self.tokens == other.tokens
    }

    /// The parser's invariant: the position is at most one past the end, and
    /// no more ids have been handed out than tokens consumed.
    pub closed spec fn wf(&self) -> bool {
        &&& self.tokens@.len() + 2 <= usize::MAX
        &&& self.pos <= self.tokens@.len() + 1
        &&& self.next_id <= self.pos
    }

    /// The invariant, with the position inside the tokens or at their end.
    pub open spec fn ready(&self) -> bool {
        self.wf() && self.pos() <= self.tokens().len()
    }

    /// A parser at the first of `tokens`, handing out ids from 0.
    pub fn new(tokens: Vec<Token>) -> (p: Parser)
        requires
            tokens@.len() + 2 <= usize::MAX,
        ensures
            p.wf(),
            p.tokens() == tokens_view(tokens@),
            p.pos() == 0,
            p.next_id() == 0,
    {
        Parser { tokens, pos: 0, next_id: 0 }
    }

    fn make_expr(&mut self, kind: ExprKind, line: usize) -> (e: Expr)
        requires
            old(self).next_id < usize::MAX,
        ensures
            e.id == old(self).next_id,
            e.kind == kind,
            e.line == line,
            final(self).next_id == old(self).next_id + 1,
            final(self).pos == old(self).pos,
            final(self).tokens == old(self).tokens,
    {
        let id = self.next_id;
        self.next_id = self.next_id + 1;
        Expr { id, kind, line }
    }

    fn peek(&self) -> (t: Option<&Token>)
        ensures
            match t {
                Some(t) => self.pos < self.tokens@.len() && *t == self.tokens@[self.pos as int],
                None => self.pos >= self.tokens@.len(),
            },
    {
        if self.pos < self.tokens.len() {
            Some(&self.tokens[self.pos])
        } else {
            None
        }
    }

    fn advance(&mut self)
        requires
            old(self).wf(),
            old(self).pos <= old(self).tokens@.len(),
        ensures
            final(self).wf(),
            final(self).pos == old(self).pos + 1,
            final(self).next_id == old(self).next_id,
            final(self).tokens == old(self).tokens,
    {
        self.pos = self.pos + 1;
    }

    /// Whether the next token has kind `kind`.
    fn check(&self, kind: &TokenKind) -> (r: bool)
        ensures
            r == at(self.tokens(), self.pos(), kind@),
    {
        match self.peek() {
            Some(t) => t.kind.same_as(kind),
            None => false,
        }
    }

    fn expect(&mut self, kind: TokenKind) -> (r: Result<(), ParseError>)
        requires
            old(self).wf(),
        ensures
            final(self).tokens == old(self).tokens,
            final(self).next_id == old(self).next_id,
            final(self).wf(),
            at(old(self).tokens(), old(self).pos(), kind@) ==> r is Ok && final(self).pos == old(self).pos + 1,
            !at(old(self).tokens(), old(self).pos(), kind@) ==> r == Err::<(), ParseError>(ParseError::ExpectedToken(kind))
                && final(self).pos == old(self).pos,
    {
        if self.check(&kind) {
            self.advance();
            Ok(())
        } else {
            Err(ParseError::ExpectedToken(kind))
        }
    }

    fn expect_identifier(&mut self) -> (r: Result<Token, ParseError>)
        requires
            old(self).wf(),
        ensures
            final(self).tokens == old(self).tokens,
            final(self).next_id == old(self).next_id,
            final(self).wf(),
            ident_at(old(self).tokens(), old(self).pos()) ==> r is Ok && r->Ok_0@ == old(self).tokens()[old(self).pos()]
                && final(self).pos == old(self).pos + 1,
            !ident_at(old(self).tokens(), old(self).pos()) ==> r is Err && r->Err_0 is ExpectedIdentifier
                && final(self).pos == old(self).pos,
    {
        let name = match self.peek() {
            Some(t) => match &t.kind {
                TokenKind::Identifier(_) => t.duplicate(),
                _ => return Err(ParseError::ExpectedIdentifier),
            },
            None => return Err(ParseError::ExpectedIdentifier),
        };
        self.advance();
        Ok(name)
    }
}

/// The next tighter precedence level.
fn tighter(l: Level) -> (n: Level)
    ensures
        n == grammar::next_level(l),
{
    match l {
        Level::Or => Level::And,
        Level::And => Level::Equality,
        Level::Equality => Level::Comparison,
        Level::Comparison => Level::Addition,
        _ => Level::Multiplication,
    }
}

/// Whether a token of kind `k` is an operator of level `l`.
fn is_level_op(l: Level, k: &TokenKind) -> (r: bool)
    ensures
        r == level_op(l, k@),
{
    match l {
        Level::Or => matches!(k, TokenKind::Or),
        Level::And => matches!(k, TokenKind::And),
        Level::Equality => matches!(k, TokenKind::EqualEqual | TokenKind::BangEqual),
        Level::Comparison => matches!(
            k,
            TokenKind::Less | TokenKind::LessEqual | TokenKind::Greater | TokenKind::GreaterEqual
        ),
        Level::Addition => matches!(k, TokenKind::Plus | TokenKind::Minus),
        Level::Multiplication => matches!(k, TokenKind::Star | TokenKind::Slash),
    }
}

/// The node joining two operands at level `l`.
fn level_kind(l: Level, left: Expr, operator: Token, right: Expr) -> (k: ExprKind)
    ensures
        crate::parser::expr::kind_view(k) == grammar::level_node(l, left@, operator@, right@),
{
    match l {
        Level::Or | Level::And => ExprKind::Logical { left: Box::new(left), operator, right: Box::new(right) },
        _ => ExprKind::Binary { left: Box::new(left), operator, right: Box::new(right) },
    }
}

impl Parser {
    /// Whether the next token is an operator of level `l`.
    fn at_level_op(&self, l: Level) -> (r: bool)
        ensures
            r == (0 <= self.pos() < self.tokens().len() && level_op(l, self.tokens()[self.pos()].kind)),
    {
        match self.peek() {
            Some(t) => is_level_op(l, &t.kind),
            None => false,
        }
    }

    /// Parses one expression at the current position. Past the end of the
    /// tokens, where an earlier call has already met the end of input, it meets
    /// the end of input again.
    pub fn parse_expression(&mut self) -> (r: Result<Expr, ParseError>)
        requires
            old(self).wf(),
        ensures
            spans(old(self), final(self), r),
            nested_at(r, 0),
            final(self).wf(),
            final(self).same_tokens(old(self)),
            old(self).next_id() <= final(self).next_id(),
            fresh_ids(old(self), final(self), r),
            old(self).pos() <= old(self).tokens().len() ==> parses(
                old(self),
                final(self),
                grammar::expression(old(self).tokens(), old(self).pos(), old(self).next_id()),
                r,
            ),
            old(self).pos() > old(self).tokens().len() ==> {
                &&& r matches Err(ParseError::UnexpectedEndOfInput)
                &&& final(self).pos() == old(self).pos()
                &&& final(self).next_id() == old(self).next_id()
            },
    {
        if self.pos > self.tokens.len() {
            return Err(ParseError::UnexpectedEndOfInput);
        }
        self.expression()
    }

    fn expression(&mut self) -> (r: Result<Expr, ParseError>)
        requires
            old(self).ready(),
        ensures
            spans(old(self), final(self), r),
            nested_at(r, 0),
            fresh_ids(old(self), final(self), r),
            parses(old(self), final(self), grammar::expression(old(self).tokens(), old(self).pos(), old(self).next_id()), r),
        decreases grammar::remaining(old(self).tokens(), old(self).pos()), 85int,
    {
        proof {
            reveal_with_fuel(grammar::expression, 1);
        }
        self.assignment()
    }

    fn assignment(&mut self) -> (r: Result<Expr, ParseError>)
        requires
            old(self).ready(),
        ensures
            spans(old(self), final(self), r),
            nested_at(r, 0),
            fresh_ids(old(self), final(self), r),
            parses(old(self), final(self), grammar::assignment(old(self).tokens(), old(self).pos(), old(self).next_id()), r),
        decreases grammar::remaining(old(self).tokens(), old(self).pos()), 84int,
    {
        let ghost id0 = self.next_id();
        let expr = self.binary(Level::Or)?;
        if self.check(&TokenKind::Equal) {
            let line = self.peek().unwrap().line;
            self.advance();
            let ghost n1 = self.next_id();
            let value = self.assignment()?;
            let ghost v = value@;
            let ghost n2 = self.next_id();
            match &expr.kind {
                ExprKind::Identifier(name) => {
                    let name = name.duplicate();
                    let e = self.make_expr(ExprKind::Assign { name, value: Box::new(value) }, line);
                    proof {
                        lemma_ids_then(expr_ids(v), n1, n2);
                        lemma_ids_widen(expr_ids(v) + seq![n2], n1, n2 + 1, id0, n2 + 1);
                        assert(expr_ids(e@) == expr_ids(v) + seq![n2]);
                    }
                    return Ok(e);
                },
                _ => return Err(ParseError::InvalidAssignmentTarget),
            }
        }
        Ok(expr)
    }

    /// Parses a run of operands joined by the operators of level `l`, left to
    /// right. The `or`, `and`, `equality`, `comparison`, `addition` and
    /// `multiplication` rules are its six instances.
    fn binary(&mut self, l: Level) -> (r: Result<Expr, ParseError>)
        requires
            old(self).ready(),
        ensures
            spans(old(self), final(self), r),
            nested_at(r, level_prec(l)),
            fresh_ids(old(self), final(self), r),
            parses(old(self), final(self), grammar::binary(old(self).tokens(), l, old(self).pos(), old(self).next_id()), r),
        decreases grammar::remaining(old(self).tokens(), old(self).pos()), grammar::level_rank(l),
    {
        let ghost ts = self.tokens();
        let ghost p0 = self.pos();
        let ghost id0 = self.next_id();
        let mut left = self.operand(l)?;
        let ghost first = grammar::operand(ts, l, p0, id0);
        let ghost goal = grammar::binary(ts, l, p0, id0);
        while self.at_level_op(l)
            invariant
                self.ready(),
                self.same_tokens(old(self)),
                self.tokens() == ts,
                ts == old(self).tokens(),
                p0 == old(self).pos(),
                id0 == old(self).next_id(),
                goal == grammar::binary(ts, l, p0, id0),
                p0 < self.pos(),
                p0 < ts.len(),
                self.next_id() - id0 <= self.pos() - p0,
                id0 <= self.next_id(),
                ids_between(expr_ids(left@), id0, self.next_id()),
                well_nested(left@),
                top_prec(left@) >= level_prec(l),
                expr_len(left@) == self.pos() - p0,
                ({
                    let cur = grammar::binary_rest(ts, l, left@, self.pos(), self.next_id());
                    &&& goal.result == cur.result
                    &&& p0 + 1 + goal.extra == self.pos() + cur.used
                    &&& id0 + goal.ids == self.next_id() + cur.ids
                }),
            decreases ts.len() - self.pos(),
        {
            let operator = self.peek().unwrap().duplicate();
            let line = operator.line;
            self.advance();
            let ghost n1 = self.next_id();
            let right = self.operand(l)?;
            let ghost n2 = self.next_id();
            let ghost lv = left@;
            let ghost rv = right@;
            let ghost op = operator@;
            left = self.make_expr(level_kind(l, left, operator, right), line);
            proof {
                lemma_level_ops(l, op.kind);
                lemma_ids_concat(expr_ids(lv), expr_ids(rv), id0, n1, n2);
                lemma_ids_then(expr_ids(lv) + expr_ids(rv), id0, n2);
                assert(crate::parser::ids::kind_ids(grammar::level_node(l, lv, op, rv)) == expr_ids(lv) + expr_ids(rv));
                assert(expr_ids(left@) == expr_ids(lv) + expr_ids(rv) + seq![n2]);
            }
        }
        Ok(left)
    }

    /// The operands of level `l`.
    fn operand(&mut self, l: Level) -> (r: Result<Expr, ParseError>)
        requires
            old(self).ready(),
        ensures
            spans(old(self), final(self), r),
            nested_at(r, level_prec(l) + 1),
            fresh_ids(old(self), final(self), r),
            parses(old(self), final(self), grammar::operand(old(self).tokens(), l, old(self).pos(), old(self).next_id()), r),
        decreases grammar::remaining(old(self).tokens(), old(self).pos()), grammar::level_rank(l) - 1,
    {
        proof {
            lemma_level_ops(l, crate::lexer::SpecTokenKind::Plus);
        }
        match l {
            Level::Multiplication => self.unary(),
            _ => self.binary(tighter(l)),
        }
    }

    fn unary(&mut self) -> (r: Result<Expr, ParseError>)
        requires
            old(self).ready(),
        ensures
            spans(old(self), final(self), r),
            nested_at(r, 7),
            fresh_ids(old(self), final(self), r),
            parses(old(self), final(self), grammar::unary(old(self).tokens(), old(self).pos(), old(self).next_id()), r),
        decreases grammar::remaining(old(self).tokens(), old(self).pos()), 50int,
    {
        if matches!(self.peek(), Some(Token { kind: TokenKind::Bang, .. }) | Some(Token { kind: TokenKind::Minus, .. })) {
            let operator = self.peek().unwrap().duplicate();
            let line = operator.line;
            self.advance();
            let ghost n1 = self.next_id();
            let right = self.unary()?;
            let ghost rv = right@;
            let ghost n2 = self.next_id();
            let e = self.make_expr(ExprKind::Unary { operator, right: Box::new(right) }, line);
            proof {
                lemma_ids_then(expr_ids(rv), n1, n2);
                assert(expr_ids(e@) == expr_ids(rv) + seq![n2]);
            }
            Ok(e)
        } else {
            self.call()
        }
    }

    #[verifier::spinoff_prover]
    fn call(&mut self) -> (r: Result<Expr, ParseError>)
        requires
            old(self).ready(),
        ensures
            spans(old(self), final(self), r),
            nested_at(r, 8),
            fresh_ids(old(self), final(self), r),
            parses(old(self), final(self), grammar::call(old(self).tokens(), old(self).pos(), old(self).next_id()), r),
        decreases grammar::remaining(old(self).tokens(), old(self).pos()), 49int,
    {
        let ghost ts = self.tokens();
        let ghost p0 = self.pos();
        let ghost id0 = self.next_id();
        let ghost goal = grammar::call(ts, p0, id0);
        let mut expr = self.primary()?;
        while self.check(&TokenKind::LeftParen)
            invariant
                self.ready(),
                self.same_tokens(old(self)),
                self.tokens() == ts,
                ts == old(self).tokens(),
                p0 == old(self).pos(),
                id0 == old(self).next_id(),
                goal == grammar::call(ts, p0, id0),
                p0 < self.pos(),
                p0 < ts.len(),
                self.next_id() - id0 <= self.pos() - p0,
                id0 <= self.next_id(),
                ids_between(expr_ids(expr@), id0, self.next_id()),
                well_nested(expr@),
                top_prec(expr@) >= 8,
                expr_len(expr@) == self.pos() - p0,
                ({
                    let cur = grammar::call_rest(ts, expr@, self.pos(), self.next_id());
                    &&& goal.result == cur.result
                    &&& p0 + 1 + goal.extra == self.pos() + cur.used
                    &&& id0 + goal.ids == self.next_id() + cur.ids
                }),
            decreases ts.len() - self.pos(),
        {
            let line = self.peek().unwrap().line;
            self.advance();
            let ghost n1 = self.next_id();
            let mut arguments: Vec<Expr> = Vec::new();
            proof {
                assert(list_ids(crate::parser::expr::exprs_view(arguments@)) =~= Seq::<int>::empty());
                assert(all_well_nested(crate::parser::expr::exprs_view(arguments@)));
                assert(list_len(crate::parser::expr::exprs_view(arguments@)) == 0);
            }
            if !self.check(&TokenKind::RightParen) {
                arguments = self.arguments()?;
            }
            self.expect(TokenKind::RightParen)?;
            proof {
                lemma_exprs_view(arguments@);
            }
            let ghost n2 = self.next_id();
            let ghost cv = expr@;
            let ghost args = crate::parser::expr::exprs_view(arguments@);
            let ghost av = list_ids(args);
            expr = self.make_expr(ExprKind::Call { expr: Box::new(expr), arguments }, line);
            proof {
                lemma_call_node(expr@, cv, args);
                lemma_ids_concat(expr_ids(cv), av, id0, n1, n2);
                lemma_ids_then(expr_ids(cv) + av, id0, n2);
            }
        }
        Ok(expr)
    }

    /// Parses the arguments of a call, separated by commas.
    #[verifier::spinoff_prover]
    fn arguments(&mut self) -> (r: Result<Vec<Expr>, ParseError>)
        requires
            old(self).ready(),
        ensures
            r is Ok ==> list_len(crate::parser::expr::exprs_view(r->Ok_0@)) == final(self).pos() - old(self).pos(),
            r is Ok ==> all_well_nested(crate::parser::expr::exprs_view(r->Ok_0@)),
            r is Ok ==> ids_between(list_ids(crate::parser::expr::exprs_view(r->Ok_0@)), old(self).next_id(), final(self).next_id()),
            progressed(old(self), final(self)),
            ({
                let s = grammar::arguments(old(self).tokens(), old(self).pos(), old(self).next_id());
                &&& s.result == match r {
                    Ok(v) => Ok(crate::parser::expr::exprs_view(v@)),
                    Err(e) => Err::<Seq<SpecExpr>, SpecParseError>(e@),
                }
                &&& final(self).pos() == old(self).pos() + 1 + s.extra
                &&& final(self).next_id() == old(self).next_id() + s.ids
            }),
            r is Ok ==> final(self).pos() <= final(self).tokens().len(),
        decreases grammar::remaining(old(self).tokens(), old(self).pos()), 86int,
    {
        let ghost ts = self.tokens();
        let ghost p0 = self.pos();
        let ghost id0 = self.next_id();
        let ghost goal = grammar::arguments(ts, p0, id0);
        let mut arguments: Vec<Expr> = Vec::new();
        proof {
            assert(list_ids(crate::parser::expr::exprs_view(arguments@)) =~= Seq::<int>::empty());
        }
        loop
            invariant_except_break
                self.ready(),
                self.pos() - p0 == list_len(crate::parser::expr::exprs_view(arguments@)) + (if arguments@.len() > 0 {
                    1int
                } else {
                    0int
                }),
                ({
                    let cur = grammar::arguments(ts, self.pos(), self.next_id());
                    &&& goal.result == match cur.result {
                        Ok(vs) => Ok(crate::parser::expr::exprs_view(arguments@) + vs),
                        Err(e) => Err::<Seq<SpecExpr>, SpecParseError>(e),
                    }
                    &&& p0 + 1 + goal.extra == self.pos() + 1 + cur.extra
                    &&& id0 + goal.ids == self.next_id() + cur.ids
                }),
            invariant
                self.wf(),
                self.same_tokens(old(self)),
                self.tokens() == ts,
                ts == old(self).tokens(),
                p0 == old(self).pos(),
                id0 == old(self).next_id(),
                goal == grammar::arguments(ts, p0, id0),
                p0 <= self.pos(),
                self.next_id() - id0 <= self.pos() - p0,
                id0 <= self.next_id(),
                ids_between(list_ids(crate::parser::expr::exprs_view(arguments@)), id0, self.next_id()),
                all_well_nested(crate::parser::expr::exprs_view(arguments@)),
            ensures
                self.pos() - p0 == list_len(crate::parser::expr::exprs_view(arguments@)),
                self.ready(),
                p0 < self.pos(),
                goal.result == Ok::<Seq<SpecExpr>, SpecParseError>(crate::parser::expr::exprs_view(arguments@)),
                p0 + 1 + goal.extra == self.pos(),
                id0 + goal.ids == self.next_id(),
            decreases ts.len() - self.pos(),
        {
            let ghost before = arguments@;
            let ghost pos_b = self.pos();
            let ghost id_b = self.next_id();
            let ghost cur = grammar::arguments(ts, pos_b, id_b);
            let argument = self.expression()?;
            arguments.push(argument);
            proof {
                crate::parser::expr::lemma_exprs_view_push(before, argument);
                lemma_list_ids_push(before, argument);
                lemma_list_len_push(before, argument);
                let pushed = crate::parser::expr::exprs_view(arguments@);
                assert(pushed.subrange(0, pushed.len() - 1) =~= crate::parser::expr::exprs_view(before));
                lemma_ids_concat(
                    list_ids(crate::parser::expr::exprs_view(before)),
                    expr_ids(argument@),
                    id0,
                    id_b,
                    self.next_id(),
                );
            }
            if !self.check(&TokenKind::Comma) {
                proof {
                    assert(cur.result == Ok::<Seq<SpecExpr>, SpecParseError>(seq![argument@]));
                    assert(crate::parser::expr::exprs_view(before) + seq![argument@]
                        =~= crate::parser::expr::exprs_view(arguments@));
                }
                break;
            }
            self.advance();
            proof {
                let next = grammar::arguments(ts, self.pos(), self.next_id());
                assert(cur.result == match next.result {
                    Err(x) => Err::<Seq<SpecExpr>, SpecParseError>(x),
                    Ok(vs) => Ok(seq![argument@] + vs),
                });
                assert forall|vs: Seq<SpecExpr>|
                    crate::parser::expr::exprs_view(before) + (seq![argument@] + vs)
                        == #[trigger] (crate::parser::expr::exprs_view(arguments@) + vs) by {
                    assert(crate::parser::expr::exprs_view(before) + (seq![argument@] + vs)
                        =~= crate::parser::expr::exprs_view(arguments@) + vs);
                }
            }
        }
        Ok(arguments)
    }

    #[verifier::spinoff_prover]
    fn primary(&mut self) -> (r: Result<Expr, ParseError>)
        requires
            old(self).ready(),
        ensures
            spans(old(self), final(self), r),
            nested_at(r, 8),
            fresh_ids(old(self), final(self), r),
            parses(old(self), final(self), grammar::primary(old(self).tokens(), old(self).pos(), old(self).next_id()), r),
        decreases grammar::remaining(old(self).tokens(), old(self).pos()), 48int,
    {
        let t = match self.peek() {
            Some(t) => t.duplicate(),
            None => {
                self.advance();
                return Err(ParseError::UnexpectedEndOfInput);
            },
        };
        let line = t.line;
        self.advance();
        match &t.kind {
            TokenKind::True => Ok(self.make_expr(ExprKind::Literal(LiteralValue::Boolean(true)), line)),
            TokenKind::False => Ok(self.make_expr(ExprKind::Literal(LiteralValue::Boolean(false)), line)),
            TokenKind::Nil => Ok(self.make_expr(ExprKind::Literal(LiteralValue::Nil), line)),
            TokenKind::Number(v) => {
                let n = v.clone();
                Ok(self.make_expr(ExprKind::Literal(LiteralValue::Number(n)), line))
            },
            TokenKind::String(v) => {
                let s = v.clone();
                Ok(self.make_expr(ExprKind::Literal(LiteralValue::String(s)), line))
            },
            TokenKind::LeftParen => {
                let ghost n1 = self.next_id();
                let inner = match self.expression() {
                    Ok(e) => e,
                    Err(e) => return Err(e),
                };
                match self.expect(TokenKind::RightParen) {
                    Ok(()) => {},
                    Err(e) => return Err(e),
                }
                let ghost iv = inner@;
                let ghost n2 = self.next_id();
                let e = self.make_expr(ExprKind::Grouping(Box::new(inner)), line);
                proof {
                    lemma_ids_then(expr_ids(iv), n1, n2);
                    assert(expr_ids(e@) == expr_ids(iv) + seq![n2]);
                }
                Ok(e)
            },
            TokenKind::Identifier(_) => Ok(self.make_expr(ExprKind::Identifier(t), line)),
            _ => Err(ParseError::ExpectedExpr(t)),
        }
    }
}

/// The model of an optional statement.
pub open spec fn opt_stmt_view(s: Option<Stmt>) -> Option<SpecStmt> {
    match s {
        Some(s) => Some(s@),
        None => None,
    }
}

impl Parser {
    /// Parses the statements from the current position to the end of the
    /// tokens: one result per top-level statement, going on after an error
    /// from where the failed statement stopped.
    #[verifier::spinoff_prover]
    pub fn parse(&mut self) -> (statements: Vec<Result<Stmt, ParseError>>)
        requires
            old(self).wf(),
        ensures
            final(self).pos() >= final(self).tokens().len(),
            old(self).next_id() <= final(self).next_id(),
            ids_between(
                results_ids(statements@.map_values(|r: Result<Stmt, ParseError>| result_view(r))),
                old(self).next_id(),
                final(self).next_id(),
            ),
            statements@.map_values(|r: Result<Stmt, ParseError>| result_view(r))
                == grammar::program(old(self).tokens(), old(self).pos(), old(self).next_id()),
            final(self).same_tokens(old(self)),
            final(self).wf(),
    {
        proof {
            reveal_with_fuel(grammar::program, 1);
        }
        let ghost ts = self.tokens();
        let ghost goal = grammar::program(ts, self.pos(), self.next_id());
        let mut statements: Vec<Result<Stmt, ParseError>> = Vec::new();
        proof {
            assert(statements@.map_values(|r: Result<Stmt, ParseError>| result_view(r)) =~= seq![]);
        }
        while self.peek().is_some()
            invariant
                self.wf(),
                self.same_tokens(old(self)),
                self.tokens() == ts,
                ts == old(self).tokens(),
                goal == statements@.map_values(|r: Result<Stmt, ParseError>| result_view(r))
                    + grammar::program(ts, self.pos(), self.next_id()),
                old(self).next_id() <= self.next_id(),
                ids_between(
                    results_ids(statements@.map_values(|r: Result<Stmt, ParseError>| result_view(r))),
                    old(self).next_id(),
                    self.next_id(),
                ),
            decreases ts.len() + 1 - self.pos(),
        {
            proof {
                reveal_with_fuel(grammar::program, 1);
            }
            let ghost before = statements@;
            let ghost p = self.pos();
            let ghost b = grammar::block(ts, p, self.next_id());
            let ghost rest = grammar::program(ts, p + 1 + b.extra, self.next_id() + b.ids);
            assert(grammar::program(ts, p, self.next_id()) == seq![b.result] + rest);
            let ghost id_b = self.next_id();
            let statement = self.block();
            let ghost sv = result_view(statement);
            statements.push(statement);
            proof {
                let prev = before.map_values(|r: Result<Stmt, ParseError>| result_view(r));
                let now = statements@.map_values(|r: Result<Stmt, ParseError>| result_view(r));
                assert(now =~= prev.push(sv));
                assert(now.drop_last() =~= prev);
                let added = match sv {
                    Ok(x) => stmt_ids(x),
                    Err(_) => Seq::<int>::empty(),
                };
                assert(results_ids(now) == results_ids(prev) + added);
                lemma_ids_concat(results_ids(prev), added, old(self).next_id(), id_b, self.next_id());
                assert(statements@.map_values(|r: Result<Stmt, ParseError>| result_view(r))
                    =~= before.map_values(|r: Result<Stmt, ParseError>| result_view(r)).push(b.result));
                assert(goal =~= statements@.map_values(|r: Result<Stmt, ParseError>| result_view(r)) + rest);
            }
        }
        proof {
            assert(goal =~= statements@.map_values(|r: Result<Stmt, ParseError>| result_view(r)));
        }
        statements
    }

    #[verifier::spinoff_prover]
    fn block(&mut self) -> (r: Result<Stmt, ParseError>)
        requires
            old(self).ready(),
        ensures
            spans_stmt(old(self), final(self), r),
            fresh_stmt_ids(old(self), final(self), r),
            parses(old(self), final(self), grammar::block(old(self).tokens(), old(self).pos(), old(self).next_id()), r),
        decreases grammar::remaining(old(self).tokens(), old(self).pos()), 90int,
    {
        proof {
            grammar::lemma_end_of_input(self.tokens(), self.pos(), self.next_id());
        }
        proof {
            reveal_with_fuel(grammar::block, 1);
        }
        if self.check(&TokenKind::LeftBrace) {
            self.advance();
            match self.statements() {
                Ok(statements) => {
                    self.advance();
                    Ok(Stmt::Block(statements))
                },
                Err(e) => Err(e),
            }
        } else {
            self.declaration()
        }
    }

    /// Parses the statements of a block up to its closing brace, which it
    /// leaves in place.
    #[verifier::spinoff_prover]
    fn statements(&mut self) -> (r: Result<Vec<Stmt>, ParseError>)
        requires
            old(self).ready(),
            old(self).pos() > 0,
        ensures
            r is Ok ==> stmts_len(stmts_view(r->Ok_0@)) == final(self).pos() - old(self).pos(),
            r is Ok ==> ids_between(stmts_ids(stmts_view(r->Ok_0@)), old(self).next_id(), final(self).next_id()),
            progressed(old(self), final(self)),
            ({
                let s = grammar::statements(old(self).tokens(), old(self).pos(), old(self).next_id());
                &&& s.result == match r {
                    Ok(v) => Ok(stmts_view(v@)),
                    Err(e) => Err::<Seq<SpecStmt>, SpecParseError>(e@),
                }
                &&& final(self).pos() == old(self).pos() + s.used
                &&& final(self).next_id() == old(self).next_id() + s.ids
            }),
            r is Ok ==> final(self).pos() < final(self).tokens().len(),
        decreases grammar::remaining(old(self).tokens(), old(self).pos() - 1), 89int,
    {
        proof {
            reveal_with_fuel(grammar::statements, 1);
        }
        let ghost ts = self.tokens();
        let ghost p0 = self.pos();
        let ghost id0 = self.next_id();
        let ghost goal = grammar::statements(ts, p0, id0);
        let mut statements: Vec<Stmt> = Vec::new();
        proof {
            assert(stmts_ids(stmts_view(statements@)) =~= Seq::<int>::empty());
        }
        while !self.check(&TokenKind::RightBrace)
            invariant
                self.ready(),
                self.same_tokens(old(self)),
                self.tokens() == ts,
                ts == old(self).tokens(),
                p0 == old(self).pos(),
                id0 == old(self).next_id(),
                goal == grammar::statements(ts, p0, id0),
                0 < p0 <= self.pos(),
                self.next_id() - id0 <= self.pos() - p0,
                id0 <= self.next_id(),
                ids_between(stmts_ids(stmts_view(statements@)), id0, self.next_id()),
                stmts_len(stmts_view(statements@)) == self.pos() - p0,
                ({
                    let cur = grammar::statements(ts, self.pos(), self.next_id());
                    &&& goal.result == match cur.result {
                        Ok(ss) => Ok(stmts_view(statements@) + ss),
                        Err(e) => Err::<Seq<SpecStmt>, SpecParseError>(e),
                    }
                    &&& p0 + goal.used == self.pos() + cur.used
                    &&& id0 + goal.ids == self.next_id() + cur.ids
                }),
            decreases ts.len() - self.pos(),
        {
            proof {
                reveal_with_fuel(grammar::statements, 1);
                grammar::lemma_end_of_input(self.tokens(), self.pos(), self.next_id());
            }
            let ghost before = statements@;
            let ghost id_b = self.next_id();
            let statement = match self.block() {
                Ok(s) => s,
                Err(e) => return Err(e),
            };
            statements.push(statement);
            proof {
                lemma_stmts_ids_push(before, statement);
                lemma_stmts_len_push(before, statement);
                lemma_ids_concat(stmts_ids(stmts_view(before)), stmt_ids(statement@), id0, id_b, self.next_id());
                lemma_stmts_view_push(before, statement);
                assert forall|ss: Seq<SpecStmt>|
                    stmts_view(before) + (seq![statement@] + ss)
                        == #[trigger] (stmts_view(statements@) + ss) by {
                    assert(stmts_view(before) + (seq![statement@] + ss)
                        =~= stmts_view(statements@) + ss);
                }
            }
        }
        proof {
            assert(stmts_view(statements@) + seq![] =~= stmts_view(statements@));
        }
        Ok(statements)
    }

    #[verifier::spinoff_prover]
    fn declaration(&mut self) -> (r: Result<Stmt, ParseError>)
        requires
            old(self).ready(),
        ensures
            spans_stmt(old(self), final(self), r),
            fresh_stmt_ids(old(self), final(self), r),
            parses(old(self), final(self), grammar::declaration(old(self).tokens(), old(self).pos(), old(self).next_id()), r),
        decreases grammar::remaining(old(self).tokens(), old(self).pos()), 89int,
    {
        proof {
            grammar::lemma_end_of_input(self.tokens(), self.pos(), self.next_id());
        }
        proof {
            reveal_with_fuel(grammar::declaration, 1);
        }
        if self.check(&TokenKind::Var) {
            self.var_declaration()
        } else if self.check(&TokenKind::Fun) {
            self.advance();
            self.parse_function()
        } else {
            self.statement()
        }
    }

    #[verifier::spinoff_prover]
    fn var_declaration(&mut self) -> (r: Result<Stmt, ParseError>)
        requires
            old(self).ready(),
        ensures
            spans_stmt(old(self), final(self), r),
            fresh_stmt_ids(old(self), final(self), r),
            parses(old(self), final(self), grammar::var_declaration(old(self).tokens(), old(self).pos(), old(self).next_id()), r),
        decreases grammar::remaining(old(self).tokens(), old(self).pos()), 88int,
    {
        proof {
            reveal_with_fuel(grammar::var_declaration, 1);
        }
        self.advance();
        let var_name = match self.expect_identifier() {
            Ok(t) => t,
            Err(e) => return Err(e),
        };
        if self.check(&TokenKind::Equal) {
            self.advance();
            let expr = match self.expression() {
                Ok(e) => e,
                Err(e) => return Err(e),
            };
            if !self.check(&TokenKind::Semicolon) {
                return Err(ParseError::ExpectedToken(TokenKind::Semicolon));
            }
            self.advance();
            Ok(Stmt::Declaration(var_name, Some(expr)))
        } else {
            if !self.check(&TokenKind::Semicolon) {
                return Err(ParseError::ExpectedToken(TokenKind::Semicolon));
            }
            self.advance();
            Ok(Stmt::Declaration(var_name, None))
        }
    }

    #[verifier::spinoff_prover]
    fn parse_function(&mut self) -> (r: Result<Stmt, ParseError>)
        requires
            old(self).ready(),
        ensures
            r is Ok ==> method_len(r->Ok_0@) == final(self).pos() - old(self).pos() && r->Ok_0 is Function,
            fresh_stmt_ids(old(self), final(self), r),
            steps(old(self), final(self), grammar::function(old(self).tokens(), old(self).pos(), old(self).next_id()), r),
        decreases grammar::remaining(old(self).tokens(), old(self).pos()), 0int,
    {
        proof {
            reveal_with_fuel(grammar::function, 1);
        }
        let fn_name = match self.expect_identifier() {
            Ok(t) => t,
            Err(e) => return Err(e),
        };
        if !self.check(&TokenKind::LeftParen) {
            return Err(ParseError::ExpectedToken(TokenKind::LeftParen));
        }
        self.advance();
        let mut params: Vec<Token> = Vec::new();
        proof {
            assert(tokens_view(params@) =~= seq![]);
        }
        if !self.check(&TokenKind::RightParen) {
            params = match self.parameters() {
                Ok(ps) => ps,
                Err(e) => return Err(e),
            };
        }
        if !self.check(&TokenKind::RightParen) {
            return Err(ParseError::ExpectedToken(TokenKind::RightParen));
        }
        self.advance();
        let body = match self.expect_block_statement() {
            Ok(b) => b,
            Err(e) => return Err(e),
        };
        Ok(Stmt::Function { name: fn_name, params, body: Box::new(body) })
    }

    /// Parses a function's parameter names, separated by commas.
    #[verifier::spinoff_prover]
    fn parameters(&mut self) -> (r: Result<Vec<Token>, ParseError>)
        requires
            old(self).ready(),
        ensures
            r is Ok ==> names_len(tokens_view(r->Ok_0@)) == final(self).pos() - old(self).pos(),
            progressed(old(self), final(self)),
            ({
                let s = grammar::parameters(old(self).tokens(), old(self).pos());
                &&& s.result == match r {
                    Ok(v) => Ok(tokens_view(v@)),
                    Err(e) => Err::<Seq<SpecToken>, SpecParseError>(e@),
                }
                &&& final(self).pos() == old(self).pos() + s.used
                &&& final(self).next_id() == old(self).next_id()
            }),
            r is Ok ==> final(self).pos() <= final(self).tokens().len(),
    {
        proof {
            reveal_with_fuel(grammar::parameters, 1);
        }
        let ghost ts = self.tokens();
        let ghost p0 = self.pos();
        let ghost goal = grammar::parameters(ts, p0);
        let mut params: Vec<Token> = Vec::new();
        loop
            invariant_except_break
                ({
                    let cur = grammar::parameters(ts, self.pos());
                    &&& goal.result == match cur.result {
                        Ok(vs) => Ok(tokens_view(params@) + vs),
                        Err(e) => Err::<Seq<SpecToken>, SpecParseError>(e),
                    }
                    &&& p0 + goal.used == self.pos() + cur.used
                }),
                self.pos() - p0 == 2 * params@.len(),
            invariant
                self.ready(),
                self.same_tokens(old(self)),
                self.tokens() == ts,
                ts == old(self).tokens(),
                p0 == old(self).pos(),
                self.next_id() == old(self).next_id(),
                goal == grammar::parameters(ts, p0),
                p0 <= self.pos(),
            ensures
                goal.result == Ok::<Seq<SpecToken>, SpecParseError>(tokens_view(params@)),
                p0 + goal.used == self.pos(),
                self.pos() - p0 == names_len(tokens_view(params@)),
            decreases ts.len() - self.pos(),
        {
            proof {
                reveal_with_fuel(grammar::parameters, 1);
            }
            let ghost before = params@;
            let param = match self.expect_identifier() {
                Ok(t) => t,
                Err(e) => return Err(e),
            };
            params.push(param);
            proof {
                lemma_tokens_view_push(before, param);
            }
            if !self.check(&TokenKind::Comma) {
                proof {
                    assert(tokens_view(before) + seq![param@] =~= tokens_view(params@));
                }
                break;
            }
            self.advance();
            proof {
                assert forall|vs: Seq<SpecToken>|
                    tokens_view(before) + (seq![param@] + vs) == #[trigger] (tokens_view(params@) + vs) by {
                    assert(tokens_view(before) + (seq![param@] + vs) =~= tokens_view(params@) + vs);
                }
            }
        }
        Ok(params)
    }

    #[verifier::spinoff_prover]
    fn non_decl_statement(&mut self) -> (r: Result<Stmt, ParseError>)
        requires
            old(self).ready(),
        ensures
            spans_stmt(old(self), final(self), r),
            fresh_stmt_ids(old(self), final(self), r),
            parses(old(self), final(self), grammar::non_decl_statement(old(self).tokens(), old(self).pos(), old(self).next_id()), r),
        decreases grammar::remaining(old(self).tokens(), old(self).pos()), 91int,
    {
        proof {
            grammar::lemma_end_of_input(self.tokens(), self.pos(), self.next_id());
        }
        proof {
            reveal_with_fuel(grammar::non_decl_statement, 1);
        }
        match self.block() {
            Ok(Stmt::Declaration(name, _)) => Err(ParseError::ExpectedExpr(name)),
            other => other,
        }
    }

    #[verifier::spinoff_prover]
    fn expect_block_statement(&mut self) -> (r: Result<Stmt, ParseError>)
        requires
            old(self).ready(),
        ensures
            spans_stmt(old(self), final(self), r),
            fresh_stmt_ids(old(self), final(self), r),
            parses(old(self), final(self), grammar::block_statement(old(self).tokens(), old(self).pos(), old(self).next_id()), r),
        decreases grammar::remaining(old(self).tokens(), old(self).pos()), 92int,
    {
        proof {
            grammar::lemma_end_of_input(self.tokens(), self.pos(), self.next_id());
        }
        proof {
            reveal_with_fuel(grammar::block_statement, 1);
        }
        match self.block() {
            Ok(Stmt::Block(stmts)) => Ok(Stmt::Block(stmts)),
            Ok(_) => Err(ParseError::ExpectedBlock),
            Err(e) => Err(e),
        }
    }

    #[verifier::spinoff_prover]
    fn statement(&mut self) -> (r: Result<Stmt, ParseError>)
        requires
            old(self).ready(),
        ensures
            spans_stmt(old(self), final(self), r),
            fresh_stmt_ids(old(self), final(self), r),
            parses(old(self), final(self), grammar::statement(old(self).tokens(), old(self).pos(), old(self).next_id()), r),
        decreases grammar::remaining(old(self).tokens(), old(self).pos()), 88int,
    {
        proof {
            grammar::lemma_end_of_input(self.tokens(), self.pos(), self.next_id());
        }
        proof {
            reveal_with_fuel(grammar::statement, 1);
        }
        match self.peek() {
            Some(Token { kind: TokenKind::Print, .. }) => self.print_statement(),
            Some(Token { kind: TokenKind::If, .. }) => self.parse_if(),
            Some(Token { kind: TokenKind::While, .. }) => self.parse_while(),
            Some(Token { kind: TokenKind::For, .. }) => self.parse_for(),
            Some(Token { kind: TokenKind::Break, .. }) => self.jump_statement(),
            Some(Token { kind: TokenKind::Continue, .. }) => self.jump_statement(),
            Some(Token { kind: TokenKind::Return, .. }) => self.return_statement(),
            Some(Token { kind: TokenKind::Class, .. }) => self.parse_class_statement(),
            _ => self.parse_expression_statement(),
        }
    }

    #[verifier::spinoff_prover]
    fn print_statement(&mut self) -> (r: Result<Stmt, ParseError>)
        requires
            old(self).ready(),
        ensures
            spans_stmt(old(self), final(self), r),
            fresh_stmt_ids(old(self), final(self), r),
            parses(old(self), final(self), grammar::print_statement(old(self).tokens(), old(self).pos(), old(self).next_id()), r),
        decreases grammar::remaining(old(self).tokens(), old(self).pos()), 87int,
    {
        proof {
            reveal_with_fuel(grammar::print_statement, 1);
        }
        if self.peek().is_none() {
            self.advance();
            return Err(ParseError::UnexpectedEndOfInput);
        }
        self.advance();
        let value = match self.expression() {
            Ok(e) => e,
            Err(e) => return Err(e),
        };
        if !self.check(&TokenKind::Semicolon) {
            return Err(ParseError::ExpectedToken(TokenKind::Semicolon));
        }
        self.advance();
        Ok(Stmt::Print(value))
    }

    /// Parses `break;` or `continue;`.
    #[verifier::spinoff_prover]
    fn jump_statement(&mut self) -> (r: Result<Stmt, ParseError>)
        requires
            old(self).ready(),
        ensures
            spans_stmt(old(self), final(self), r),
            fresh_stmt_ids(old(self), final(self), r),
            parses(old(self), final(self), grammar::jump_statement(old(self).tokens(), old(self).pos()), r),
    {
        proof {
            reveal_with_fuel(grammar::jump_statement, 1);
        }
        let t = match self.peek() {
            Some(t) => t.duplicate(),
            None => {
                self.advance();
                return Err(ParseError::UnexpectedEndOfInput);
            },
        };
        self.advance();
        if !self.check(&TokenKind::Semicolon) {
            return Err(ParseError::ExpectedToken(TokenKind::Semicolon));
        }
        self.advance();
        match t.kind {
            TokenKind::Break => Ok(Stmt::Break(t)),
            _ => Ok(Stmt::Continue(t)),
        }
    }

    #[verifier::spinoff_prover]
    fn return_statement(&mut self) -> (r: Result<Stmt, ParseError>)
        requires
            old(self).ready(),
        ensures
            spans_stmt(old(self), final(self), r),
            fresh_stmt_ids(old(self), final(self), r),
            parses(old(self), final(self), grammar::return_statement(old(self).tokens(), old(self).pos(), old(self).next_id()), r),
        decreases grammar::remaining(old(self).tokens(), old(self).pos()), 87int,
    {
        proof {
            reveal_with_fuel(grammar::return_statement, 1);
        }
        if self.peek().is_none() {
            self.advance();
            return Err(ParseError::UnexpectedEndOfInput);
        }
        self.advance();
        let return_value = match self.optional_expression(&TokenKind::Semicolon) {
            Ok(v) => v,
            Err(e) => return Err(e),
        };
        if !self.check(&TokenKind::Semicolon) {
            return Err(ParseError::ExpectedToken(TokenKind::Semicolon));
        }
        self.advance();
        Ok(Stmt::Return(return_value))
    }

    /// Parses an expression, unless the next token has kind `stop`.
    #[verifier::spinoff_prover]
    fn optional_expression(&mut self, stop: &TokenKind) -> (r: Result<Option<Expr>, ParseError>)
        requires
            old(self).ready(),
        ensures
            r is Ok ==> opt_len(crate::parser::stmt::opt_expr_view(r->Ok_0)) == final(self).pos() - old(self).pos(),
            r is Ok ==> ids_between(opt_ids(crate::parser::stmt::opt_expr_view(r->Ok_0)), old(self).next_id(), final(self).next_id()),
            progressed(old(self), final(self)),
            ({
                let s = grammar::optional_expression(old(self).tokens(), old(self).pos(), old(self).next_id(), stop@);
                &&& s.result == match r {
                    Ok(v) => Ok(crate::parser::stmt::opt_expr_view(v)),
                    Err(e) => Err::<Option<SpecExpr>, SpecParseError>(e@),
                }
                &&& final(self).pos() == old(self).pos() + s.used
                &&& final(self).next_id() == old(self).next_id() + s.ids
            }),
            r is Ok ==> final(self).pos() <= final(self).tokens().len(),
        decreases grammar::remaining(old(self).tokens(), old(self).pos()), 86int,
    {
        proof {
            reveal_with_fuel(grammar::optional_expression, 1);
        }
        if self.check(stop) {
            Ok(None)
        } else {
            match self.expression() {
                Ok(e) => Ok(Some(e)),
                Err(e) => Err(e),
            }
        }
    }

    #[verifier::spinoff_prover]
    fn parse_expression_statement(&mut self) -> (r: Result<Stmt, ParseError>)
        requires
            old(self).ready(),
        ensures
            spans_stmt(old(self), final(self), r),
            fresh_stmt_ids(old(self), final(self), r),
            parses(old(self), final(self), grammar::expression_statement(old(self).tokens(), old(self).pos(), old(self).next_id()), r),
        decreases grammar::remaining(old(self).tokens(), old(self).pos()), 86int,
    {
        proof {
            grammar::lemma_end_of_input(self.tokens(), self.pos(), self.next_id());
        }
        proof {
            reveal_with_fuel(grammar::expression_statement, 1);
        }
        let value = match self.expression() {
            Ok(e) => e,
            Err(e) => return Err(e),
        };
        if !self.check(&TokenKind::Semicolon) {
            return Err(ParseError::ExpectedToken(TokenKind::Semicolon));
        }
        self.advance();
        Ok(Stmt::Expression(value))
    }

    #[verifier::spinoff_prover]
    fn parse_if(&mut self) -> (r: Result<Stmt, ParseError>)
        requires
            old(self).ready(),
        ensures
            spans_stmt(old(self), final(self), r),
            fresh_stmt_ids(old(self), final(self), r),
            parses(old(self), final(self), grammar::if_statement(old(self).tokens(), old(self).pos(), old(self).next_id()), r),
        decreases grammar::remaining(old(self).tokens(), old(self).pos()), 87int,
    {
        proof {
            reveal_with_fuel(grammar::if_statement, 1);
        }
        self.advance();
        if !self.check(&TokenKind::LeftParen) {
            return Err(ParseError::ExpectedToken(TokenKind::LeftParen));
        }
        self.advance();
        let condition = match self.expression() {
            Ok(e) => e,
            Err(e) => return Err(e),
        };
        if !self.check(&TokenKind::RightParen) {
            return Err(ParseError::ExpectedToken(TokenKind::RightParen));
        }
        self.advance();
        let statement = match self.non_decl_statement() {
            Ok(s) => s,
            Err(e) => return Err(e),
        };
        let else_statement = match self.else_branch() {
            Ok(s) => s,
            Err(e) => return Err(e),
        };
        Ok(
            Stmt::If {
                condition,
                then_branch: Box::new(statement),
                else_branch: match else_statement {
                    Some(s) => Some(Box::new(s)),
                    None => None,
                },
            },
        )
    }

    /// Parses the `else` branch of an `if`, if there is one.
    #[verifier::spinoff_prover]
    fn else_branch(&mut self) -> (r: Result<Option<Stmt>, ParseError>)
        requires
            old(self).ready(),
        ensures
            r is Ok ==> final(self).pos() - old(self).pos() == match r->Ok_0 {
                Some(b) => 1 + stmt_len(b@),
                None => 0,
            },
            r is Ok ==> ids_between(opt_stmt_ids(opt_stmt_view(r->Ok_0)), old(self).next_id(), final(self).next_id()),
            progressed(old(self), final(self)),
            ({
                let s = grammar::else_branch(old(self).tokens(), old(self).pos(), old(self).next_id());
                &&& s.result == match r {
                    Ok(v) => Ok(opt_stmt_view(v)),
                    Err(e) => Err::<Option<SpecStmt>, SpecParseError>(e@),
                }
                &&& final(self).pos() == old(self).pos() + s.used
                &&& final(self).next_id() == old(self).next_id() + s.ids
            }),
            r is Ok ==> final(self).pos() <= final(self).tokens().len(),
        decreases grammar::remaining(old(self).tokens(), old(self).pos()), 92int,
    {
        proof {
            reveal_with_fuel(grammar::else_branch, 1);
        }
        if self.check(&TokenKind::Else) {
            self.advance();
            match self.non_decl_statement() {
                Ok(s) => Ok(Some(s)),
                Err(e) => Err(e),
            }
        } else {
            Ok(None)
        }
    }

    #[verifier::spinoff_prover]
    fn parse_while(&mut self) -> (r: Result<Stmt, ParseError>)
        requires
            old(self).ready(),
        ensures
            spans_stmt(old(self), final(self), r),
            fresh_stmt_ids(old(self), final(self), r),
            parses(old(self), final(self), grammar::while_statement(old(self).tokens(), old(self).pos(), old(self).next_id()), r),
        decreases grammar::remaining(old(self).tokens(), old(self).pos()), 87int,
    {
        proof {
            reveal_with_fuel(grammar::while_statement, 1);
        }
        self.advance();
        if !self.check(&TokenKind::LeftParen) {
            return Err(ParseError::ExpectedToken(TokenKind::LeftParen));
        }
        self.advance();
        let condition = match self.expression() {
            Ok(e) => e,
            Err(e) => return Err(e),
        };
        if !self.check(&TokenKind::RightParen) {
            return Err(ParseError::ExpectedToken(TokenKind::RightParen));
        }
        self.advance();
        let block = match self.non_decl_statement() {
            Ok(b) => b,
            Err(e) => return Err(e),
        };
        Ok(Stmt::While { condition, block: Box::new(block) })
    }

    #[verifier::spinoff_prover]
    fn parse_for(&mut self) -> (r: Result<Stmt, ParseError>)
        requires
            old(self).ready(),
        ensures
            spans_stmt(old(self), final(self), r),
            fresh_stmt_ids(old(self), final(self), r),
            parses(old(self), final(self), grammar::for_statement(old(self).tokens(), old(self).pos(), old(self).next_id()), r),
        decreases grammar::remaining(old(self).tokens(), old(self).pos()), 87int,
    {
        proof {
            reveal_with_fuel(grammar::for_statement, 1);
        }
        self.advance();
        if !self.check(&TokenKind::LeftParen) {
            return Err(ParseError::ExpectedToken(TokenKind::LeftParen));
        }
        self.advance();
        let ghost n0 = self.next_id();
        let initializer = match self.for_initializer() {
            Ok(i) => i,
            Err(e) => return Err(e),
        };
        let ghost n1 = self.next_id();
        let (condition, increment) = match self.for_header() {
            Ok(h) => h,
            Err(e) => return Err(e),
        };
        let ghost n2 = self.next_id();
        let block = match self.non_decl_statement() {
            Ok(b) => b,
            Err(e) => return Err(e),
        };
        let ghost n3 = self.next_id();
        let ghost first = opt_stmt_ids(opt_stmt_view(initializer));
        let ghost clauses = opt_ids(crate::parser::stmt::opt_expr_view(condition))
            + opt_ids(crate::parser::stmt::opt_expr_view(increment));
        let ghost body = stmt_ids(block@);
        let r = Stmt::For {
            initializer: match initializer {
                Some(s) => Some(Box::new(s)),
                None => None,
            },
            condition,
            increment,
            block: Box::new(block),
        };
        proof {
            lemma_ids_concat(first, clauses, n0, n1, n2);
            lemma_ids_concat(first + clauses, body, n0, n2, n3);
            assert(stmt_ids(r@) =~= first + clauses + body);
        }
        Ok(r)
    }

    /// Parses the condition and the increment of a `for`, through the
    /// closing parenthesis.
    #[verifier::spinoff_prover]
    fn for_header(&mut self) -> (r: Result<(Option<Expr>, Option<Expr>), ParseError>)
        requires
            old(self).ready(),
        ensures
            r is Ok ==> final(self).pos() - old(self).pos() == opt_len(crate::parser::stmt::opt_expr_view(r->Ok_0.0))
                + opt_len(crate::parser::stmt::opt_expr_view(r->Ok_0.1)) + 2,
            r is Ok ==> ids_between(
                opt_ids(crate::parser::stmt::opt_expr_view(r->Ok_0.0)) + opt_ids(crate::parser::stmt::opt_expr_view(r->Ok_0.1)),
                old(self).next_id(),
                final(self).next_id(),
            ),
            progressed(old(self), final(self)),
            ({
                let s = grammar::for_header(old(self).tokens(), old(self).pos(), old(self).next_id());
                &&& s.result == match r {
                    Ok(v) => Ok((crate::parser::stmt::opt_expr_view(v.0), crate::parser::stmt::opt_expr_view(v.1))),
                    Err(e) => Err::<(Option<SpecExpr>, Option<SpecExpr>), SpecParseError>(e@),
                }
                &&& final(self).pos() == old(self).pos() + s.used
                &&& final(self).next_id() == old(self).next_id() + s.ids
            }),
            r is Ok ==> final(self).pos() <= final(self).tokens().len(),
    {
        proof {
            reveal_with_fuel(grammar::for_header, 1);
        }
        let condition = match self.optional_expression(&TokenKind::Semicolon) {
            Ok(c) => c,
            Err(e) => return Err(e),
        };
        if !self.check(&TokenKind::Semicolon) {
            return Err(ParseError::ExpectedToken(TokenKind::Semicolon));
        }
        self.advance();
        let increment = match self.optional_expression(&TokenKind::RightParen) {
            Ok(i) => i,
            Err(e) => return Err(e),
        };
        if !self.check(&TokenKind::RightParen) {
            return Err(ParseError::ExpectedToken(TokenKind::RightParen));
        }
        self.advance();
        Ok((condition, increment))
    }

    /// Parses the initializer clause of a `for`: nothing, a variable
    /// declaration or an expression statement, with its semicolon.
    #[verifier::spinoff_prover]
    fn for_initializer(&mut self) -> (r: Result<Option<Stmt>, ParseError>)
        requires
            old(self).ready(),
        ensures
            r is Ok ==> final(self).pos() - old(self).pos() == match r->Ok_0 {
                Some(b) => stmt_len(b@),
                None => 1,
            },
            r is Ok ==> ids_between(opt_stmt_ids(opt_stmt_view(r->Ok_0)), old(self).next_id(), final(self).next_id()),
            progressed(old(self), final(self)),
            ({
                let s = grammar::for_initializer(old(self).tokens(), old(self).pos(), old(self).next_id());
                &&& s.result == match r {
                    Ok(v) => Ok(opt_stmt_view(v)),
                    Err(e) => Err::<Option<SpecStmt>, SpecParseError>(e@),
                }
                &&& final(self).pos() == old(self).pos() + 1 + s.extra
                &&& final(self).next_id() == old(self).next_id() + s.ids
            }),
            r is Ok ==> final(self).pos() <= final(self).tokens().len(),
        decreases grammar::remaining(old(self).tokens(), old(self).pos()), 93int,
    {
        proof {
            reveal_with_fuel(grammar::for_initializer, 1);
        }
        if self.check(&TokenKind::Semicolon) {
            self.advance();
            Ok(None)
        } else if self.check(&TokenKind::Var) {
            match self.declaration() {
                Ok(s) => Ok(Some(s)),
                Err(e) => Err(e),
            }
        } else {
            match self.parse_expression_statement() {
                Ok(s) => Ok(Some(s)),
                Err(e) => Err(e),
            }
        }
    }

    #[verifier::spinoff_prover]
    fn parse_class_statement(&mut self) -> (r: Result<Stmt, ParseError>)
        requires
            old(self).ready(),
        ensures
            spans_stmt(old(self), final(self), r),
            fresh_stmt_ids(old(self), final(self), r),
            parses(old(self), final(self), grammar::class_statement(old(self).tokens(), old(self).pos(), old(self).next_id()), r),
        decreases grammar::remaining(old(self).tokens(), old(self).pos()), 87int,
    {
        proof {
            reveal_with_fuel(grammar::class_statement, 1);
        }
        self.advance();
        let name = match self.expect_identifier() {
            Ok(t) => t,
            Err(e) => return Err(e),
        };
        if !self.check(&TokenKind::LeftBrace) {
            return Err(ParseError::ExpectedToken(TokenKind::LeftBrace));
        }
        self.advance();
        let stmts = match self.methods() {
            Ok(ms) => ms,
            Err(e) => return Err(e),
        };
        if !self.check(&TokenKind::RightBrace) {
            return Err(ParseError::ExpectedToken(TokenKind::RightBrace));
        }
        self.advance();
        Ok(Stmt::Class { name, methods: stmts, superclass: None })
    }

    /// Parses the methods of a class up to its closing brace, which it leaves
    /// in place.
    #[verifier::spinoff_prover]
    fn methods(&mut self) -> (r: Result<Vec<Stmt>, ParseError>)
        requires
            old(self).ready(),
            old(self).pos() > 0,
        ensures
            r is Ok ==> methods_len(stmts_view(r->Ok_0@)) == final(self).pos() - old(self).pos(),
            r is Ok ==> ids_between(stmts_ids(stmts_view(r->Ok_0@)), old(self).next_id(), final(self).next_id()),
            progressed(old(self), final(self)),
            ({
                let s = grammar::methods(old(self).tokens(), old(self).pos(), old(self).next_id());
                &&& s.result == match r {
                    Ok(v) => Ok(stmts_view(v@)),
                    Err(e) => Err::<Seq<SpecStmt>, SpecParseError>(e@),
                }
                &&& final(self).pos() == old(self).pos() + s.used
                &&& final(self).next_id() == old(self).next_id() + s.ids
            }),
            r is Ok ==> final(self).pos() <= final(self).tokens().len(),
        decreases grammar::remaining(old(self).tokens(), old(self).pos() - 1), 1int,
    {
        proof {
            reveal_with_fuel(grammar::methods, 1);
        }
        let ghost ts = self.tokens();
        let ghost p0 = self.pos();
        let ghost id0 = self.next_id();
        let ghost goal = grammar::methods(ts, p0, id0);
        let mut stmts: Vec<Stmt> = Vec::new();
        proof {
            assert(stmts_ids(stmts_view(stmts@)) =~= Seq::<int>::empty());
        }
        while !self.check(&TokenKind::RightBrace)
            invariant
                self.ready(),
                self.same_tokens(old(self)),
                self.tokens() == ts,
                ts == old(self).tokens(),
                p0 == old(self).pos(),
                id0 == old(self).next_id(),
                goal == grammar::methods(ts, p0, id0),
                0 < p0 <= self.pos(),
                self.next_id() - id0 <= self.pos() - p0,
                id0 <= self.next_id(),
                ids_between(stmts_ids(stmts_view(stmts@)), id0, self.next_id()),
                methods_len(stmts_view(stmts@)) == self.pos() - p0,
                ({
                    let cur = grammar::methods(ts, self.pos(), self.next_id());
                    &&& goal.result == match cur.result {
                        Ok(ss) => Ok(stmts_view(stmts@) + ss),
                        Err(e) => Err::<Seq<SpecStmt>, SpecParseError>(e),
                    }
                    &&& p0 + goal.used == self.pos() + cur.used
                    &&& id0 + goal.ids == self.next_id() + cur.ids
                }),
            decreases ts.len() - self.pos(),
        {
            proof {
                reveal_with_fuel(grammar::methods, 1);
                grammar::lemma_function_progress(self.tokens(), self.pos(), self.next_id());
                grammar::lemma_end_of_input(self.tokens(), self.pos(), self.next_id());
            }
            let ghost before = stmts@;
            let ghost id_b = self.next_id();
            let method = match self.parse_function() {
                Ok(m) => m,
                Err(e) => return Err(e),
            };
            stmts.push(method);
            proof {
                lemma_stmts_ids_push(before, method);
                lemma_stmts_len_push(before, method);
                lemma_ids_concat(stmts_ids(stmts_view(before)), stmt_ids(method@), id0, id_b, self.next_id());
                lemma_stmts_view_push(before, method);
                assert forall|ss: Seq<SpecStmt>|
                    stmts_view(before) + (seq![method@] + ss) == #[trigger] (stmts_view(stmts@) + ss) by {
                    assert(stmts_view(before) + (seq![method@] + ss) =~= stmts_view(stmts@) + ss);
                }
            }
        }
        proof {
            assert(stmts_view(stmts@) + seq![] =~= stmts_view(stmts@));
        }
        Ok(stmts)
    }
}

} // verus!
