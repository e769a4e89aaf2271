//! Tokens produced by the scanner.
use vstd::prelude::*;

verus! {

/// The kind of a token, with the value it carries where it has one.
///
/// `String` carries the text between the quotes, `Identifier` the name, and
/// `Number` the literal's text.
#[derive(Clone, Debug)]
pub enum TokenKind {
    LeftParen,
    RightParen,
    LeftBrace,
    RightBrace,
    Comma,
    Dot,
    Star,
    Plus,
    Minus,
    Semicolon,
    Equal,
    EqualEqual,
    Bang,
    BangEqual,
    Less,
    LessEqual,
    Greater,
    GreaterEqual,
    Slash,
    String(String),
    Identifier(String),
    Number(String),
    And,
    Class,
    Else,
    False,
    For,
    Fun,
    If,
    Nil,
    Or,
    Print,
    Return,
    Super,
    This,
    True,
    Var,
    While,
    Break,
    Continue,
}

/// The mathematical model of a [`TokenKind`]: carried strings become
/// character sequences.
pub enum SpecTokenKind {
    LeftParen,
    RightParen,
    LeftBrace,
    RightBrace,
    Comma,
    Dot,
    Star,
    Plus,
    Minus,
    Semicolon,
    Equal,
    EqualEqual,
    Bang,
    BangEqual,
    Less,
    LessEqual,
    Greater,
    GreaterEqual,
    Slash,
    String(Seq<char>),
    Identifier(Seq<char>),
    Number(Seq<char>),
    And,
    Class,
    Else,
    False,
    For,
    Fun,
    If,
    Nil,
    Or,
    Print,
    Return,
    Super,
    This,
    True,
    Var,
    While,
    Break,
    Continue,
}

impl View for TokenKind {
    type V = SpecTokenKind;

    open spec fn view(&self) -> SpecTokenKind {
        match self {
            TokenKind::LeftParen => SpecTokenKind::LeftParen,
            TokenKind::RightParen => SpecTokenKind::RightParen,
            TokenKind::LeftBrace => SpecTokenKind::LeftBrace,
            TokenKind::RightBrace => SpecTokenKind::RightBrace,
            TokenKind::Comma => SpecTokenKind::Comma,
            TokenKind::Dot => SpecTokenKind::Dot,
            TokenKind::Star => SpecTokenKind::Star,
            TokenKind::Plus => SpecTokenKind::Plus,
            TokenKind::Minus => SpecTokenKind::Minus,
            TokenKind::Semicolon => SpecTokenKind::Semicolon,
            TokenKind::Equal => SpecTokenKind::Equal,
            TokenKind::EqualEqual => SpecTokenKind::EqualEqual,
            TokenKind::Bang => SpecTokenKind::Bang,
            TokenKind::BangEqual => SpecTokenKind::BangEqual,
            TokenKind::Less => SpecTokenKind::Less,
            TokenKind::LessEqual => SpecTokenKind::LessEqual,
            TokenKind::Greater => SpecTokenKind::Greater,
            TokenKind::GreaterEqual => SpecTokenKind::GreaterEqual,
            TokenKind::Slash => SpecTokenKind::Slash,
            TokenKind::String(s) => SpecTokenKind::String(s@),
            TokenKind::Identifier(s) => SpecTokenKind::Identifier(s@),
            TokenKind::Number(s) => SpecTokenKind::Number(s@),
            TokenKind::And => SpecTokenKind::And,
            TokenKind::Class => SpecTokenKind::Class,
            TokenKind::Else => SpecTokenKind::Else,
            TokenKind::False => SpecTokenKind::False,
            TokenKind::For => SpecTokenKind::For,
            TokenKind::Fun => SpecTokenKind::Fun,
            TokenKind::If => SpecTokenKind::If,
            TokenKind::Nil => SpecTokenKind::Nil,
            TokenKind::Or => SpecTokenKind::Or,
            TokenKind::Print => SpecTokenKind::Print,
            TokenKind::Return => SpecTokenKind::Return,
            TokenKind::Super => SpecTokenKind::Super,
            TokenKind::This => SpecTokenKind::This,
            TokenKind::True => SpecTokenKind::True,
            TokenKind::Var => SpecTokenKind::Var,
            TokenKind::While => SpecTokenKind::While,
            TokenKind::Break => SpecTokenKind::Break,
            TokenKind::Continue => SpecTokenKind::Continue,
        }
    }
}

/// The name under which a token kind is displayed.
pub open spec fn kind_name(k: SpecTokenKind) -> Seq<char> {
    match k {
        SpecTokenKind::LeftParen => "LEFT_PAREN"@,
        SpecTokenKind::RightParen => "RIGHT_PAREN"@,
        SpecTokenKind::LeftBrace => "LEFT_BRACE"@,
        SpecTokenKind::RightBrace => "RIGHT_BRACE"@,
        SpecTokenKind::Comma => "COMMA"@,
        SpecTokenKind::Dot => "DOT"@,
        SpecTokenKind::Star => "STAR"@,
        SpecTokenKind::Plus => "PLUS"@,
        SpecTokenKind::Minus => "MINUS"@,
        SpecTokenKind::Semicolon => "SEMICOLON"@,
        SpecTokenKind::Equal => "EQUAL"@,
        SpecTokenKind::EqualEqual => "EQUAL_EQUAL"@,
        SpecTokenKind::Bang => "BANG"@,
        SpecTokenKind::BangEqual => "BANG_EQUAL"@,
        SpecTokenKind::Less => "LESS"@,
        SpecTokenKind::LessEqual => "LESS_EQUAL"@,
        SpecTokenKind::Greater => "GREATER"@,
        SpecTokenKind::GreaterEqual => "GREATER_EQUAL"@,
        SpecTokenKind::Slash => "SLASH"@,
        SpecTokenKind::String(_) => "STRING"@,
        SpecTokenKind::Identifier(_) => "IDENTIFIER"@,
        SpecTokenKind::Number(_) => "NUMBER"@,
        SpecTokenKind::And => "AND"@,
        SpecTokenKind::Class => "CLASS"@,
        SpecTokenKind::Else => "ELSE"@,
        SpecTokenKind::False => "FALSE"@,
        SpecTokenKind::For => "FOR"@,
        SpecTokenKind::Fun => "FUN"@,
        SpecTokenKind::If => "IF"@,
        SpecTokenKind::Nil => "NIL"@,
        SpecTokenKind::Or => "OR"@,
        SpecTokenKind::Print => "PRINT"@,
        SpecTokenKind::Return => "RETURN"@,
        SpecTokenKind::Super => "SUPER"@,
        SpecTokenKind::This => "THIS"@,
        SpecTokenKind::True => "TRUE"@,
        SpecTokenKind::Var => "VAR"@,
        SpecTokenKind::While => "WHILE"@,
        SpecTokenKind::Break => "BREAK"@,
        SpecTokenKind::Continue => "CONTINUE"@,
    }
}

impl TokenKind {
    /// The kind's display name, such as `LEFT_PAREN` or `STRING`.
    pub fn to_display_string(&self) -> (s: String)
        ensures
            s@ == kind_name(self@),
    {
        let name = match self {
            TokenKind::LeftParen => "LEFT_PAREN",
            TokenKind::RightParen => "RIGHT_PAREN",
            TokenKind::LeftBrace => "LEFT_BRACE",
            TokenKind::RightBrace => "RIGHT_BRACE",
            TokenKind::Comma => "COMMA",
            TokenKind::Dot => "DOT",
            TokenKind::Star => "STAR",
            TokenKind::Plus => "PLUS",
            TokenKind::Minus => "MINUS",
            TokenKind::Semicolon => "SEMICOLON",
            TokenKind::Equal => "EQUAL",
            TokenKind::EqualEqual => "EQUAL_EQUAL",
            TokenKind::Bang => "BANG",
            TokenKind::BangEqual => "BANG_EQUAL",
            TokenKind::Less => "LESS",
            TokenKind::LessEqual => "LESS_EQUAL",
            TokenKind::Greater => "GREATER",
            TokenKind::GreaterEqual => "GREATER_EQUAL",
            TokenKind::Slash => "SLASH",
            TokenKind::String(_) => "STRING",
            TokenKind::Identifier(_) => "IDENTIFIER",
            TokenKind::Number(_) => "NUMBER",
            TokenKind::And => "AND",
            TokenKind::Class => "CLASS",
            TokenKind::Else => "ELSE",
            TokenKind::False => "FALSE",
            TokenKind::For => "FOR",
            TokenKind::Fun => "FUN",
            TokenKind::If => "IF",
            TokenKind::Nil => "NIL",
            TokenKind::Or => "OR",
            TokenKind::Print => "PRINT",
            TokenKind::Return => "RETURN",
            TokenKind::Super => "SUPER",
            TokenKind::This => "THIS",
            TokenKind::True => "TRUE",
            TokenKind::Var => "VAR",
            TokenKind::While => "WHILE",
            TokenKind::Break => "BREAK",
            TokenKind::Continue => "CONTINUE",
        };
        String::from_str(name)
    }

    /// A copy of this kind, carried string included.
    pub fn duplicate(&self) -> (k: TokenKind)
        ensures
            k@ == self@,
    {
        match self {
            TokenKind::LeftParen => TokenKind::LeftParen,
            TokenKind::RightParen => TokenKind::RightParen,
            TokenKind::LeftBrace => TokenKind::LeftBrace,
            TokenKind::RightBrace => TokenKind::RightBrace,
            TokenKind::Comma => TokenKind::Comma,
            TokenKind::Dot => TokenKind::Dot,
            TokenKind::Star => TokenKind::Star,
            TokenKind::Plus => TokenKind::Plus,
            TokenKind::Minus => TokenKind::Minus,
            TokenKind::Semicolon => TokenKind::Semicolon,
            TokenKind::Equal => TokenKind::Equal,
            TokenKind::EqualEqual => TokenKind::EqualEqual,
            TokenKind::Bang => TokenKind::Bang,
            TokenKind::BangEqual => TokenKind::BangEqual,
            TokenKind::Less => TokenKind::Less,
            TokenKind::LessEqual => TokenKind::LessEqual,
            TokenKind::Greater => TokenKind::Greater,
            TokenKind::GreaterEqual => TokenKind::GreaterEqual,
            TokenKind::Slash => TokenKind::Slash,
            TokenKind::String(s) => TokenKind::String(s.clone()),
            TokenKind::Identifier(s) => TokenKind::Identifier(s.clone()),
            TokenKind::Number(s) => TokenKind::Number(s.clone()),
            TokenKind::And => TokenKind::And,
            TokenKind::Class => TokenKind::Class,
            TokenKind::Else => TokenKind::Else,
            TokenKind::False => TokenKind::False,
            TokenKind::For => TokenKind::For,
            TokenKind::Fun => TokenKind::Fun,
            TokenKind::If => TokenKind::If,
            TokenKind::Nil => TokenKind::Nil,
            TokenKind::Or => TokenKind::Or,
            TokenKind::Print => TokenKind::Print,
            TokenKind::Return => TokenKind::Return,
            TokenKind::Super => TokenKind::Super,
            TokenKind::This => TokenKind::This,
            TokenKind::True => TokenKind::True,
            TokenKind::Var => TokenKind::Var,
            TokenKind::While => TokenKind::While,
            TokenKind::Break => TokenKind::Break,
            TokenKind::Continue => TokenKind::Continue,
        }
    }

    /// Whether two kinds are equal, carried strings included.
    pub fn same_as(&self, other: &TokenKind) -> (r: bool)
        ensures
            r == (self@ == other@),
    {
        let carries = self.carries_text() || other.carries_text();
        if carries {
            match (self, other) {
                (TokenKind::String(a), TokenKind::String(b)) => string_eq(a, b),
                (TokenKind::Identifier(a), TokenKind::Identifier(b)) => string_eq(a, b),
                (TokenKind::Number(a), TokenKind::Number(b)) => string_eq(a, b),
                _ => false,
            }
        } else {
            proof {
                lemma_tag_determines_kind(self@, other@);
            }
            self.tag() == other.tag()
        }
    }

    /// Whether this kind carries a string.
    pub fn carries_text(&self) -> (r: bool)
        ensures
            r == (self@ is String || self@ is Identifier || self@ is Number),
    {
        match self {
            TokenKind::String(_) => true,
            TokenKind::Identifier(_) => true,
            TokenKind::Number(_) => true,
            _ => false,
        }
    }

    /// A number that tells the variants apart.
    pub fn tag(&self) -> (t: u8)
        ensures
            t == kind_tag(self@),
    {
        match self {
            TokenKind::LeftParen => 0,
            TokenKind::RightParen => 1,
            TokenKind::LeftBrace => 2,
            TokenKind::RightBrace => 3,
            TokenKind::Comma => 4,
            TokenKind::Dot => 5,
            TokenKind::Star => 6,
            TokenKind::Plus => 7,
            TokenKind::Minus => 8,
            TokenKind::Semicolon => 9,
            TokenKind::Equal => 10,
            TokenKind::EqualEqual => 11,
            TokenKind::Bang => 12,
            TokenKind::BangEqual => 13,
            TokenKind::Less => 14,
            TokenKind::LessEqual => 15,
            TokenKind::Greater => 16,
            TokenKind::GreaterEqual => 17,
            TokenKind::Slash => 18,
            TokenKind::String(_) => 19,
            TokenKind::Identifier(_) => 20,
            TokenKind::Number(_) => 21,
            TokenKind::And => 22,
            TokenKind::Class => 23,
            TokenKind::Else => 24,
            TokenKind::False => 25,
            TokenKind::For => 26,
            TokenKind::Fun => 27,
            TokenKind::If => 28,
            TokenKind::Nil => 29,
            TokenKind::Or => 30,
            TokenKind::Print => 31,
            TokenKind::Return => 32,
            TokenKind::Super => 33,
            TokenKind::This => 34,
            TokenKind::True => 35,
            TokenKind::Var => 36,
            TokenKind::While => 37,
            TokenKind::Break => 38,
            TokenKind::Continue => 39,
        }
    }
}

/// The number of a kind's variant (see [`TokenKind::tag`]).
pub open spec fn kind_tag(k: SpecTokenKind) -> u8 {
    match k {
        SpecTokenKind::LeftParen => 0,
        SpecTokenKind::RightParen => 1,
        SpecTokenKind::LeftBrace => 2,
        SpecTokenKind::RightBrace => 3,
        SpecTokenKind::Comma => 4,
        SpecTokenKind::Dot => 5,
        SpecTokenKind::Star => 6,
        SpecTokenKind::Plus => 7,
        SpecTokenKind::Minus => 8,
        SpecTokenKind::Semicolon => 9,
        SpecTokenKind::Equal => 10,
        SpecTokenKind::EqualEqual => 11,
        SpecTokenKind::Bang => 12,
        SpecTokenKind::BangEqual => 13,
        SpecTokenKind::Less => 14,
        SpecTokenKind::LessEqual => 15,
        SpecTokenKind::Greater => 16,
        SpecTokenKind::GreaterEqual => 17,
        SpecTokenKind::Slash => 18,
        SpecTokenKind::String(_) => 19,
        SpecTokenKind::Identifier(_) => 20,
        SpecTokenKind::Number(_) => 21,
        SpecTokenKind::And => 22,
        SpecTokenKind::Class => 23,
        SpecTokenKind::Else => 24,
        SpecTokenKind::False => 25,
        SpecTokenKind::For => 26,
        SpecTokenKind::Fun => 27,
        SpecTokenKind::If => 28,
        SpecTokenKind::Nil => 29,
        SpecTokenKind::Or => 30,
        SpecTokenKind::Print => 31,
        SpecTokenKind::Return => 32,
        SpecTokenKind::Super => 33,
        SpecTokenKind::This => 34,
        SpecTokenKind::True => 35,
        SpecTokenKind::Var => 36,
        SpecTokenKind::While => 37,
        SpecTokenKind::Break => 38,
        SpecTokenKind::Continue => 39,
    }
}

/// Whether two strings hold the same characters.
fn string_eq(a: &String, b: &String) -> (r: bool)
    ensures
        r == (a@ == b@),
{
    *a == *b
}

/// Kinds that carry no string are told apart by their variant numbers.
pub proof fn lemma_tag_determines_kind(a: SpecTokenKind, b: SpecTokenKind)
    requires
        !(a is String || a is Identifier || a is Number),
        !(b is String || b is Identifier || b is Number),
    ensures
        (kind_tag(a) == kind_tag(b)) == (a == b),
{
    match a {
        SpecTokenKind::LeftParen => {},
        _ => {},
    }
}

/// A token: its kind, its text in the source, and the line it ends on.
#[derive(Clone, Debug)]
pub struct Token {
    pub kind: TokenKind,
    pub lexeme: String,
    pub line: usize,
}

/// The mathematical model of a [`Token`].
pub struct SpecToken {
    pub kind: SpecTokenKind,
    pub lexeme: Seq<char>,
    pub line: usize,
}

impl View for Token {
    type V = SpecToken;

    open spec fn view(&self) -> SpecToken {
        SpecToken { kind: self.kind@, lexeme: self.lexeme@, line: self.line }
    }
}

/// The literal text shown for a token: a string's contents, `null` otherwise.
pub open spec fn literal_text(k: SpecTokenKind) -> Seq<char> {
    match k {
        SpecTokenKind::String(v) => v,
        _ => "null"@,
    }
}

/// The line shown for a token: kind name, lexeme and literal, separated by spaces.
pub open spec fn token_line(t: SpecToken) -> Seq<char> {
    kind_name(t.kind) + " "@ + t.lexeme + " "@ + literal_text(t.kind)
}

impl Token {
    /// The token's literal: the contents of a string token, `null` for any other.
    pub fn literal_str(&self) -> (s: &str)
        ensures
            s@ == literal_text(self.kind@),
    {
        match &self.kind {
            TokenKind::String(v) => v.as_str(),
            _ => "null",
        }
    }

    /// The line shown for this token, such as `STRING "hi" hi`.
    pub fn to_display_string(&self) -> (s: String)
        ensures
            s@ == token_line(self@),
    {
        let mut s = self.kind.to_display_string();
        s.append(" ");
        s.append(self.lexeme.as_str());
        s.append(" ");
        s.append(self.literal_str());
        s
    }

    /// A copy of this token.
    pub fn duplicate(&self) -> (t: Token)
        ensures
            t@ == self@,
    {
        Token { kind: self.kind.duplicate(), lexeme: self.lexeme.clone(), line: self.line }
    }
}

} // verus!
