//! Expressions of the syntax tree.
use crate::lexer::{token_line, SpecToken, Token};
use vstd::prelude::*;

verus! {

/// A literal value written in the source. A number keeps its text.
#[derive(Clone, Debug)]
pub enum LiteralValue {
    Nil,
    Boolean(bool),
    Number(String),
    String(String),
}

/// The model of a [`LiteralValue`].
pub enum SpecLiteral {
    Nil,
    Boolean(bool),
    Number(Seq<char>),
    String(Seq<char>),
}

impl View for LiteralValue {
    type V = SpecLiteral;

    open spec fn view(&self) -> SpecLiteral {
        match self {
            LiteralValue::Nil => SpecLiteral::Nil,
            LiteralValue::Boolean(b) => SpecLiteral::Boolean(*b),
            LiteralValue::Number(s) => SpecLiteral::Number(s@),
            LiteralValue::String(s) => SpecLiteral::String(s@),
        }
    }
}

/// An expression node: a number that identifies it, what it is, and the line
/// it was written on.
pub struct Expr {
    pub id: usize,
    pub kind: ExprKind,
    pub line: usize,
}

/// The forms an expression takes.
pub enum ExprKind {
    Literal(LiteralValue),
    Identifier(Token),
    Assign { name: Token, value: Box<Expr> },
    Grouping(Box<Expr>),
    Unary { operator: Token, right: Box<Expr> },
    Binary { left: Box<Expr>, operator: Token, right: Box<Expr> },
    Logical { left: Box<Expr>, operator: Token, right: Box<Expr> },
    Call { expr: Box<Expr>, arguments: Vec<Expr> },
    Get { object: Box<Expr>, name: Token },
    SetField { object: Box<Expr>, name: Token, value: Box<Expr> },
    This(Token),
    Super(Token, Token),
}

/// The model of an [`Expr`].
pub struct SpecExpr {
    pub id: usize,
    pub kind: SpecExprKind,
    pub line: usize,
}

/// The model of an [`ExprKind`].
pub enum SpecExprKind {
    Literal(SpecLiteral),
    Identifier(SpecToken),
    Assign { name: SpecToken, value: Box<SpecExpr> },
    Grouping(Box<SpecExpr>),
    Unary { operator: SpecToken, right: Box<SpecExpr> },
    Binary { left: Box<SpecExpr>, operator: SpecToken, right: Box<SpecExpr> },
    Logical { left: Box<SpecExpr>, operator: SpecToken, right: Box<SpecExpr> },
    Call { expr: Box<SpecExpr>, arguments: Seq<SpecExpr> },
    Get { object: Box<SpecExpr>, name: SpecToken },
    SetField { object: Box<SpecExpr>, name: SpecToken, value: Box<SpecExpr> },
    This(SpecToken),
    Super(SpecToken, SpecToken),
}

/// The model of an expression.
pub open spec fn expr_view(e: Expr) -> SpecExpr
    decreases e, 1int,
{
    SpecExpr { id: e.id, kind: kind_view(e.kind), line: e.line }
}

/// The model of an expression's form.
pub open spec fn kind_view(k: ExprKind) -> SpecExprKind
    decreases k, 0int,
{
    match k {
        ExprKind::Literal(v) => SpecExprKind::Literal(v@),
        ExprKind::Identifier(t) => SpecExprKind::Identifier(t@),
        ExprKind::Assign { name, value } => SpecExprKind::Assign {
            name: name@,
            value: Box::new(expr_view(*value)),
        },
        ExprKind::Grouping(e) => SpecExprKind::Grouping(Box::new(expr_view(*e))),
        ExprKind::Unary { operator, right } => SpecExprKind::Unary {
            operator: operator@,
            right: Box::new(expr_view(*right)),
        },
        ExprKind::Binary { left, operator, right } => SpecExprKind::Binary {
            left: Box::new(expr_view(*left)),
            operator: operator@,
            right: Box::new(expr_view(*right)),
        },
        ExprKind::Logical { left, operator, right } => SpecExprKind::Logical {
            left: Box::new(expr_view(*left)),
            operator: operator@,
            right: Box::new(expr_view(*right)),
        },
        ExprKind::Call { expr, arguments } => SpecExprKind::Call {
            expr: Box::new(expr_view(*expr)),
            arguments: exprs_view(arguments@),
        },
        ExprKind::Get { object, name } => SpecExprKind::Get {
            object: Box::new(expr_view(*object)),
            name: name@,
        },
        ExprKind::SetField { object, name, value } => SpecExprKind::SetField {
            object: Box::new(expr_view(*object)),
            name: name@,
            value: Box::new(expr_view(*value)),
        },
        ExprKind::This(t) => SpecExprKind::This(t@),
        ExprKind::Super(t, m) => SpecExprKind::Super(t@, m@),
    }
}

/// The models of a sequence of expressions.
pub open spec fn exprs_view(s: Seq<Expr>) -> Seq<SpecExpr>
    decreases s, 2int,
{
    if s.len() == 0 {
        Seq::empty()
    } else {
        exprs_view(s.subrange(0, s.len() - 1)).push(expr_view(s[s.len() - 1]))
    }
}

/// `exprs_view` keeps the length and maps each element.
pub proof fn lemma_exprs_view(s: Seq<Expr>)
    ensures
        exprs_view(s).len() == s.len(),
        forall|i: int| 0 <= i < s.len() ==> #[trigger] exprs_view(s)[i] == expr_view(s[i]),
    decreases s.len(),
{
    if s.len() > 0 {
        lemma_exprs_view(s.subrange(0, s.len() - 1));
    }
}

/// Appending an expression appends its model.
pub proof fn lemma_exprs_view_push(s: Seq<Expr>, e: Expr)
    ensures
        exprs_view(s.push(e)) == exprs_view(s).push(expr_view(e)),
{
    assert(s.push(e).subrange(0, s.len() as int) =~= s);
}

impl View for Expr {
    type V = SpecExpr;

    open spec fn view(&self) -> SpecExpr {
        expr_view(*self)
    }
}

/// The text of a literal: `nil`, `true`, `false`, a number's text, or a
/// string's contents.
pub open spec fn literal_text(v: SpecLiteral) -> Seq<char> {
    match v {
        SpecLiteral::Nil => "nil"@,
        SpecLiteral::Boolean(b) => if b { "true"@ } else { "false"@ },
        SpecLiteral::Number(t) => t,
        SpecLiteral::String(t) => t,
    }
}

/// The printed form of an expression: operators first and in parentheses for
/// unary and binary expressions, `(group ..)` for a grouping, infix for logical
/// expressions, and calls with their arguments separated by `, `.
pub open spec fn pretty(e: SpecExpr) -> Seq<char>
    decreases e, 1int,
{
    pretty_kind(e.kind)
}

/// The printed form of an expression's form.
pub open spec fn pretty_kind(k: SpecExprKind) -> Seq<char>
    decreases k, 0int,
{
    match k {
        SpecExprKind::Literal(v) => literal_text(v),
        SpecExprKind::Grouping(e) => "(group "@ + pretty(*e) + ")"@,
        SpecExprKind::Unary { operator, right } => "("@ + operator.lexeme + " "@ + pretty(*right) + ")"@,
        SpecExprKind::Identifier(t) => t.lexeme,
        SpecExprKind::Assign { name, value } => token_line(name) + " = "@ + pretty(*value),
        SpecExprKind::Logical { left, operator, right } => pretty(*left) + " "@ + operator.lexeme + " "@
            + pretty(*right),
        SpecExprKind::Binary { left, operator, right } => "("@ + operator.lexeme + " "@ + pretty(*left) + " "@
            + pretty(*right) + ")"@,
        SpecExprKind::Call { expr, arguments } => pretty(*expr) + "("@ + pretty_list(arguments) + ")"@,
        SpecExprKind::Get { object, name } => pretty(*object) + "."@ + name.lexeme,
        SpecExprKind::SetField { object, name, value } => pretty(*object) + "."@ + name.lexeme + " = "@
            + pretty(*value),
        SpecExprKind::This(t) => t.lexeme,
        SpecExprKind::Super(t, m) => t.lexeme + "."@ + m.lexeme,
    }
}

/// The printed forms of a list of expressions, separated by `, `.
pub open spec fn pretty_list(es: Seq<SpecExpr>) -> Seq<char>
    decreases es, 2int,
{
    if es.len() == 0 {
        Seq::empty()
    } else if es.len() == 1 {
        pretty(es[0])
    } else {
        pretty_list(es.subrange(0, es.len() - 1)) + ", "@ + pretty(es[es.len() - 1])
    }
}

impl LiteralValue {
    fn write_text(&self, out: &mut String)
        ensures
            final(out)@ == old(out)@ + literal_text(self@),
    {
        match self {
            LiteralValue::Nil => out.append("nil"),
            LiteralValue::Boolean(b) => if *b {
                out.append("true")
            } else {
                out.append("false")
            },
            LiteralValue::Number(t) => out.append(t.as_str()),
            LiteralValue::String(t) => out.append(t.as_str()),
        }
    }
}

impl Expr {
    /// The printed form of this expression, such as `(+ 1 (group 2))`; a
    /// number prints as the text it holds.
    pub fn pretty_print(&self) -> (s: String)
        ensures
            s@ == pretty(self@),
    {
        let mut s = String::new();
        self.write_pretty(&mut s);
        assert(s@ =~= Seq::<char>::empty() + pretty(self@));
        s
    }

    /// Appends the printed form of this expression to `out`.
    fn write_pretty(&self, out: &mut String)
        ensures
            final(out)@ == old(out)@ + pretty(self@),
        decreases self, 1int,
    {
        let ghost start = out@;
        match &self.kind {
            ExprKind::Literal(v) => v.write_text(out),
            ExprKind::Grouping(e) => {
                out.append("(group ");
                e.write_pretty(out);
                out.append(")");
            },
            ExprKind::Unary { operator, right } => {
                out.append("(");
                out.append(operator.lexeme.as_str());
                out.append(" ");
                right.write_pretty(out);
                out.append(")");
            },
            ExprKind::Identifier(t) => out.append(t.lexeme.as_str()),
            ExprKind::Assign { name, value } => {
                let shown = name.to_display_string();
                out.append(shown.as_str());
                out.append(" = ");
                value.write_pretty(out);
            },
            ExprKind::Logical { left, operator, right } => {
                left.write_pretty(out);
                out.append(" ");
                out.append(operator.lexeme.as_str());
                out.append(" ");
                right.write_pretty(out);
            },
            ExprKind::Binary { left, operator, right } => {
                out.append("(");
                out.append(operator.lexeme.as_str());
                out.append(" ");
                left.write_pretty(out);
                out.append(" ");
                right.write_pretty(out);
                out.append(")");
            },
            ExprKind::Call { expr, arguments } => {
                expr.write_pretty(out);
                out.append("(");
                write_list(arguments, out);
                out.append(")");
            },
            ExprKind::Get { object, name } => {
                object.write_pretty(out);
                out.append(".");
                out.append(name.lexeme.as_str());
            },
            ExprKind::SetField { object, name, value } => {
                object.write_pretty(out);
                out.append(".");
                out.append(name.lexeme.as_str());
                out.append(" = ");
                value.write_pretty(out);
            },
            ExprKind::This(t) => out.append(t.lexeme.as_str()),
            ExprKind::Super(t, m) => {
                out.append(t.lexeme.as_str());
                out.append(".");
                out.append(m.lexeme.as_str());
            },
        }
        assert(out@ =~= start + pretty(self@));
    }
}

/// Appends the printed forms of `es`, separated by `, `, to `out`.
fn write_list(es: &Vec<Expr>, out: &mut String)
    ensures
        final(out)@ == old(out)@ + pretty_list(exprs_view(es@)),
    decreases es, 0int,
{
    let ghost start = out@;
    proof {
        lemma_exprs_view(es@);
    }
    let mut i: usize = 0;
    while i < es.len()
        invariant
            i <= es.len(),
            exprs_view(es@).len() == es@.len(),
            forall|j: int| 0 <= j < es@.len() ==> #[trigger] exprs_view(es@)[j] == expr_view(es@[j]),
            out@ == start + pretty_list(exprs_view(es@).subrange(0, i as int)),
        decreases es.len() - i,
    {
        let ghost before = out@;
        let ghost done = exprs_view(es@).subrange(0, i as int);
        let ghost next = exprs_view(es@).subrange(0, i + 1);
        if i > 0 {
            out.append(", ");
        }
        assert(decreases_to!(es => es@[i as int]));
        es[i].write_pretty(out);
        proof {
            assert(next.subrange(0, i as int) =~= done);
            if i == 0 {
                assert(pretty_list(done) =~= Seq::<char>::empty());
                assert(out@ =~= start + pretty_list(next));
            } else {
                assert(out@ =~= start + pretty_list(next));
            }
        }
        i = i + 1;
    }
    proof {
        assert(exprs_view(es@).subrange(0, es@.len() as int) =~= exprs_view(es@));
    }
}

impl LiteralValue {
    /// A copy of this literal.
    pub fn duplicate(&self) -> (r: LiteralValue)
        ensures
            r@ == self@,
    {
        match self {
            LiteralValue::Nil => LiteralValue::Nil,
            LiteralValue::Boolean(b) => LiteralValue::Boolean(*b),
            LiteralValue::Number(t) => LiteralValue::Number(t.clone()),
            LiteralValue::String(t) => LiteralValue::String(t.clone()),
        }
    }
}

impl Expr {
    /// A copy of this expression, ids included.
    pub fn duplicate(&self) -> (r: Expr)
        ensures
            r@ == self@,
        decreases self, 1int,
    {
        Expr { id: self.id, kind: duplicate_kind(&self.kind), line: self.line }
    }
}

/// A copy of an expression's form.
fn duplicate_kind(k: &ExprKind) -> (r: ExprKind)
    ensures
        kind_view(r) == kind_view(*k),
    decreases k, 0int,
{
    match k {
        ExprKind::Literal(v) => ExprKind::Literal(v.duplicate()),
        ExprKind::Identifier(t) => ExprKind::Identifier(t.duplicate()),
        ExprKind::Assign { name, value } => ExprKind::Assign {
            name: name.duplicate(),
            value: Box::new(value.duplicate()),
        },
        ExprKind::Grouping(e) => ExprKind::Grouping(Box::new(e.duplicate())),
        ExprKind::Unary { operator, right } => ExprKind::Unary {
            operator: operator.duplicate(),
            right: Box::new(right.duplicate()),
        },
        ExprKind::Binary { left, operator, right } => ExprKind::Binary {
            left: Box::new(left.duplicate()),
            operator: operator.duplicate(),
            right: Box::new(right.duplicate()),
        },
        ExprKind::Logical { left, operator, right } => ExprKind::Logical {
            left: Box::new(left.duplicate()),
            operator: operator.duplicate(),
            right: Box::new(right.duplicate()),
        },
        ExprKind::Call { expr, arguments } => ExprKind::Call {
            expr: Box::new(expr.duplicate()),
            arguments: duplicate_exprs(arguments),
        },
        ExprKind::Get { object, name } => ExprKind::Get {
            object: Box::new(object.duplicate()),
            name: name.duplicate(),
        },
        ExprKind::SetField { object, name, value } => ExprKind::SetField {
            object: Box::new(object.duplicate()),
            name: name.duplicate(),
            value: Box::new(value.duplicate()),
        },
        ExprKind::This(t) => ExprKind::This(t.duplicate()),
        ExprKind::Super(t, m) => ExprKind::Super(t.duplicate(), m.duplicate()),
    }
}

/// Copies of a list of expressions.
pub fn duplicate_exprs(es: &Vec<Expr>) -> (r: Vec<Expr>)
    ensures
        exprs_view(r@) == exprs_view(es@),
    decreases es, 2int,
{
    let mut out: Vec<Expr> = Vec::new();
    let mut i: usize = 0;
    proof {
        assert(es@.subrange(0, 0) =~= out@);
    }
    while i < es.len()
        invariant
            i <= es@.len(),
            exprs_view(out@) == exprs_view(es@.subrange(0, i as int)),
        decreases es.len() - i,
    {
        assert(decreases_to!(es => es@[i as int]));
        let e = es[i].duplicate();
        proof {
            lemma_exprs_view_push(out@, e);
            lemma_exprs_view_push(es@.subrange(0, i as int), es@[i as int]);
            assert(es@.subrange(0, i as int).push(es@[i as int]) =~= es@.subrange(0, i + 1));
        }
        out.push(e);
        i = i + 1;
    }
    proof {
        assert(es@.subrange(0, es@.len() as int) =~= es@);
    }
    out
}

} // verus!
