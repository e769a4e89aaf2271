//! The scanner: turns source text into tokens, one call at a time.
pub mod laws;
mod tokens;

pub use tokens::{
    kind_name, kind_tag, lemma_tag_determines_kind, literal_text, token_line, SpecToken,
    SpecTokenKind, Token, TokenKind,
};

use crate::text::{
    alphabetic, alphanumeric, chars_of, decimal, is_alphabetic, is_alphanumeric,
    is_digit, push_char, push_decimal, same_text, string_of,
};
use vstd::prelude::*;

verus! {

/// An error met while scanning; each carries the line where it was met.
#[derive(Clone, Copy, Debug, PartialEq, Eq, Structural)]
pub enum LexError {
    UnexpectedCharacter(usize, char),
    UnterminatedString(usize),
}

/// The message shown for a scanning error.
pub open spec fn lex_error_text(e: LexError) -> Seq<char> {
    match e {
        LexError::UnexpectedCharacter(line, c) => "[line "@ + decimal(line as nat)
            + "] Error: Unexpected character: "@ + seq![c],
        LexError::UnterminatedString(line) => "[line "@ + decimal(line as nat)
            + "] Error: Unterminated string."@,
    }
}

impl LexError {
    /// The message shown for this error, such as
    /// `[line 1] Error: Unterminated string.`.
    pub fn to_display_string(&self) -> (s: String)
        ensures
            s@ == lex_error_text(*self),
    {
        let mut s = String::from_str("[line ");
        match self {
            LexError::UnexpectedCharacter(line, c) => {
                push_decimal(&mut s, *line);
                s.append("] Error: Unexpected character: ");
                push_char(&mut s, *c);
            },
            LexError::UnterminatedString(line) => {
                push_decimal(&mut s, *line);
                s.append("] Error: Unterminated string.");
            },
        }
        s
    }
}

/// The runs of characters that the scanner consumes in one stretch.
#[derive(Clone, Copy)]
pub enum Run {
    /// The rest of a `//` comment: anything but a newline.
    Comment,
    /// The inside of a string literal: anything but a double quote.
    Text,
    /// The rest of a number: digits and dots.
    Number,
    /// The rest of an identifier: letters, digits and underscores.
    Name,
}

/// Whether `c` continues a run of the given sort.
pub open spec fn continues(run: Run, c: char) -> bool {
    match run {
        Run::Comment => c != '\n',
        Run::Text => c != '"',
        Run::Number => is_digit(c) || c == '.',
        Run::Name => alphanumeric(c) || c == '_',
    }
}

/// The index at which the run of the given sort that starts at `i` ends: the
/// first index at or after `i` whose character does not continue it, or the
/// length of the text.
pub open spec fn run_end(chars: Seq<char>, i: int, run: Run) -> int
    decreases chars.len() - i,
{
    if 0 <= i < chars.len() && continues(run, chars[i]) {
        run_end(chars, i + 1, run)
    } else {
        i
    }
}

/// A run ends inside the text, at or after its start, and every character it
/// passes continues it.
pub proof fn lemma_run_end(chars: Seq<char>, i: int, run: Run)
    requires
        0 <= i <= chars.len(),
    ensures
        i <= run_end(chars, i, run) <= chars.len(),
        run_end(chars, i, run) < chars.len() ==> !continues(run, chars[run_end(chars, i, run)]),
        forall|j: int| i <= j < run_end(chars, i, run) ==> continues(run, #[trigger] chars[j]),
    decreases chars.len() - i,
{
    if i < chars.len() && continues(run, chars[i]) {
        lemma_run_end(chars, i + 1, run);
    }
}

/// The kind of a token made of the single character `c`, if it is one.
pub open spec fn single_char_kind(c: char) -> Option<SpecTokenKind> {
    if c == '.' {
        Some(SpecTokenKind::Dot)
    } else if c == '*' {
        Some(SpecTokenKind::Star)
    } else if c == ',' {
        Some(SpecTokenKind::Comma)
    } else if c == '{' {
        Some(SpecTokenKind::LeftBrace)
    } else if c == '}' {
        Some(SpecTokenKind::RightBrace)
    } else if c == '(' {
        Some(SpecTokenKind::LeftParen)
    } else if c == ')' {
        Some(SpecTokenKind::RightParen)
    } else if c == '+' {
        Some(SpecTokenKind::Plus)
    } else if c == '-' {
        Some(SpecTokenKind::Minus)
    } else if c == ';' {
        Some(SpecTokenKind::Semicolon)
    } else {
        None
    }
}

/// The kind of the operator `c` (one of `=`, `!`, `<`, `>`), alone or
/// followed by `=`.
pub open spec fn operator_kind(c: char, with_equal: bool) -> SpecTokenKind {
    if c == '=' {
        if with_equal { SpecTokenKind::EqualEqual } else { SpecTokenKind::Equal }
    } else if c == '!' {
        if with_equal { SpecTokenKind::BangEqual } else { SpecTokenKind::Bang }
    } else if c == '<' {
        if with_equal { SpecTokenKind::LessEqual } else { SpecTokenKind::Less }
    } else {
        if with_equal { SpecTokenKind::GreaterEqual } else { SpecTokenKind::Greater }
    }
}

/// Whether `c` starts an operator of one or two characters.
pub open spec fn is_operator_start(c: char) -> bool {
    c == '=' || c == '!' || c == '<' || c == '>'
}

/// The keyword that a word spells, if it spells one.
pub open spec fn keyword_kind(word: Seq<char>) -> Option<SpecTokenKind> {
    if word == "and"@ {
        Some(SpecTokenKind::And)
    } else if word == "class"@ {
        Some(SpecTokenKind::Class)
    } else if word == "else"@ {
        Some(SpecTokenKind::Else)
    } else if word == "false"@ {
        Some(SpecTokenKind::False)
    } else if word == "for"@ {
        Some(SpecTokenKind::For)
    } else if word == "fun"@ {
        Some(SpecTokenKind::Fun)
    } else if word == "if"@ {
        Some(SpecTokenKind::If)
    } else if word == "nil"@ {
        Some(SpecTokenKind::Nil)
    } else if word == "or"@ {
        Some(SpecTokenKind::Or)
    } else if word == "print"@ {
        Some(SpecTokenKind::Print)
    } else if word == "return"@ {
        Some(SpecTokenKind::Return)
    } else if word == "super"@ {
        Some(SpecTokenKind::Super)
    } else if word == "this"@ {
        Some(SpecTokenKind::This)
    } else if word == "true"@ {
        Some(SpecTokenKind::True)
    } else if word == "var"@ {
        Some(SpecTokenKind::Var)
    } else if word == "while"@ {
        Some(SpecTokenKind::While)
    } else {
        None
    }
}

/// The kind of the word `word`: its keyword, or an identifier.
pub open spec fn word_kind(word: Seq<char>) -> SpecTokenKind {
    match keyword_kind(word) {
        Some(k) => k,
        None => SpecTokenKind::Identifier(word),
    }
}

/// The outcome of one scanning step: the token or error produced (none at the
/// end of the text), and the position and line after it.
pub type ScanStep = (Option<Result<SpecToken, LexError>>, int, int);

/// A token of kind `kind` with text `lexeme` on line `line`.
pub open spec fn spec_token(kind: SpecTokenKind, lexeme: Seq<char>, line: int) -> Option<
    Result<SpecToken, LexError>,
> {
    Some(Ok(SpecToken { kind, lexeme, line: line as usize }))
}

/// What the scanner produces from position `pos` of `chars`, on line `line`.
///
/// Spaces and tabs are skipped, newlines are skipped and counted, `//` starts
/// a comment that runs to the end of the line. Then comes one token or one
/// error. A string may span lines, which are then not counted.
pub open spec fn scan(chars: Seq<char>, pos: int, line: int) -> ScanStep
    decreases chars.len() - pos,
{
    if pos < 0 || pos >= chars.len() {
        (None, pos, line)
    } else {
        let c = chars[pos];
        if single_char_kind(c) is Some {
            (spec_token(single_char_kind(c)->0, seq![c], line), pos + 1, line)
        } else if is_operator_start(c) {
            if pos + 1 < chars.len() && chars[pos + 1] == '=' {
                (spec_token(operator_kind(c, true), seq![c, '='], line), pos + 2, line)
            } else {
                (spec_token(operator_kind(c, false), seq![c], line), pos + 1, line)
            }
        } else if c == '/' {
            if pos + 1 < chars.len() && chars[pos + 1] == '/' {
                let e = run_end(chars, pos + 2, Run::Comment);
                proof {
                    lemma_run_end(chars, pos + 2, Run::Comment);
                }
                scan(chars, e, line)
            } else {
                (spec_token(SpecTokenKind::Slash, seq!['/'], line), pos + 1, line)
            }
        } else if c == '"' {
            let q = run_end(chars, pos + 1, Run::Text);
            if q < chars.len() {
                (
                    spec_token(
                        SpecTokenKind::String(chars.subrange(pos + 1, q)),
                        chars.subrange(pos, q + 1),
                        line,
                    ),
                    q + 1,
                    line,
                )
            } else {
                (Some(Err(LexError::UnterminatedString(line as usize))), q, line)
            }
        } else if is_digit(c) {
            let e = run_end(chars, pos + 1, Run::Number);
            (
                spec_token(
                    SpecTokenKind::Number(chars.subrange(pos, e)),
                    chars.subrange(pos, e),
                    line,
                ),
                e,
                line,
            )
        } else if alphabetic(c) || c == '_' {
            let e = run_end(chars, pos + 1, Run::Name);
            (spec_token(word_kind(chars.subrange(pos, e)), chars.subrange(pos, e), line), e, line)
        } else if c == '\t' || c == ' ' {
            scan(chars, pos + 1, line)
        } else if c == '\n' {
            scan(chars, pos + 1, line + 1)
        } else {
            (Some(Err(LexError::UnexpectedCharacter(line as usize, c))), pos + 1, line)
        }
    }
}

/// The model of what one call of [`Lexer::next`] returns.
pub open spec fn scanned_view(r: Option<Result<Token, LexError>>) -> Option<
    Result<SpecToken, LexError>,
> {
    match r {
        None => None,
        Some(Ok(t)) => Some(Ok(t@)),
        Some(Err(e)) => Some(Err(e)),
    }
}

/// A scanner over a source text.
pub struct Lexer {
    chars: Vec<char>,
    pos: usize,
    line: usize,
}

impl Lexer {
    /// The source text.
    pub closed spec fn source(&self) -> Seq<char> {
        self.chars@
    }

    /// The position of the next character to scan.
    pub closed spec fn pos(&self) -> int {
        self.pos as int
    }

    /// The current line.
    pub closed spec fn line(&self) -> int {
        self.line as int
    }

    /// The scanner's invariant: the position stays inside the text, and the
    /// line counts at most one newline per character passed.
    pub closed spec fn wf(&self) -> bool {
        &&& self.chars@.len() < usize::MAX
        &&& self.pos <= self.chars@.len()
        &&& 1 <= self.line <= self.pos + 1
    }

    /// A scanner at the start of `source`, on line 1.
    pub fn new(source: &str) -> (l: Lexer)
        requires
            source@.len() < usize::MAX,
        ensures
            l.wf(),
            l.source() == source@,
            l.pos() == 0,
            l.line() == 1,
    {
        Lexer { chars: chars_of(source), pos: 0, line: 1 }
    }

    fn peek(&self) -> (c: Option<char>)
        ensures
            c == (if self.pos < self.chars@.len() {
                Some(self.chars@[self.pos as int])
            } else {
                None::<char>
            }),
    {
        if self.pos < self.chars.len() {
            Some(self.chars[self.pos])
        } else {
            None
        }
    }

    fn advance(&mut self) -> (c: Option<char>)
        requires
            old(self).wf(),
            old(self).pos < old(self).chars@.len(),
        ensures
            c == Some(old(self).chars@[old(self).pos as int]),
            final(self).chars == old(self).chars,
            final(self).line == old(self).line,
            final(self).pos == old(self).pos + 1,
            final(self).wf(),
    {
        let c = self.peek();
        self.pos = self.pos + 1;
        c
    }

    fn slice(&self, start: usize, end: usize) -> (s: String)
        requires
            start <= end <= self.chars@.len(),
        ensures
            s@ == self.chars@.subrange(start as int, end as int),
    {
        string_of(&self.chars, start, end)
    }

    fn keyword(&self, ident: &str) -> (k: Option<TokenKind>)
        ensures
            match k {
                Some(k) => keyword_kind(ident@) == Some(k@),
                None => keyword_kind(ident@) is None,
            },
    {
        if same_text(ident, "and") {
            Some(TokenKind::And)
        } else if same_text(ident, "class") {
            Some(TokenKind::Class)
        } else if same_text(ident, "else") {
            Some(TokenKind::Else)
        } else if same_text(ident, "false") {
            Some(TokenKind::False)
        } else if same_text(ident, "for") {
            Some(TokenKind::For)
        } else if same_text(ident, "fun") {
            Some(TokenKind::Fun)
        } else if same_text(ident, "if") {
            Some(TokenKind::If)
        } else if same_text(ident, "nil") {
            Some(TokenKind::Nil)
        } else if same_text(ident, "or") {
            Some(TokenKind::Or)
        } else if same_text(ident, "print") {
            Some(TokenKind::Print)
        } else if same_text(ident, "return") {
            Some(TokenKind::Return)
        } else if same_text(ident, "super") {
            Some(TokenKind::Super)
        } else if same_text(ident, "this") {
            Some(TokenKind::This)
        } else if same_text(ident, "true") {
            Some(TokenKind::True)
        } else if same_text(ident, "var") {
            Some(TokenKind::Var)
        } else if same_text(ident, "while") {
            Some(TokenKind::While)
        } else {
            None
        }
    }
}

/// The kind of a token made of the single character `c`, if it is one.
fn single_char_token_kind(c: char) -> (k: Option<TokenKind>)
    ensures
        match k {
            Some(k) => single_char_kind(c) == Some(k@),
            None => single_char_kind(c) is None,
        },
{
    if c == '.' {
        Some(TokenKind::Dot)
    } else if c == '*' {
        Some(TokenKind::Star)
    } else if c == ',' {
        Some(TokenKind::Comma)
    } else if c == '{' {
        Some(TokenKind::LeftBrace)
    } else if c == '}' {
        Some(TokenKind::RightBrace)
    } else if c == '(' {
        Some(TokenKind::LeftParen)
    } else if c == ')' {
        Some(TokenKind::RightParen)
    } else if c == '+' {
        Some(TokenKind::Plus)
    } else if c == '-' {
        Some(TokenKind::Minus)
    } else if c == ';' {
        Some(TokenKind::Semicolon)
    } else {
        None
    }
}

impl Lexer {
    /// Moves past the run of the given sort that starts at the current
    /// position.
    fn advance_while(&mut self, run: Run)
        requires
            old(self).wf(),
        ensures
            final(self).wf(),
            final(self).chars == old(self).chars,
            final(self).line == old(self).line,
            final(self).pos as int == run_end(old(self).chars@, old(self).pos as int, run),
            old(self).pos <= final(self).pos <= final(self).chars@.len(),
    {
        proof {
            lemma_run_end(self.chars@, self.pos as int, run);
        }
        while self.pos < self.chars.len() && run_continues(run, self.chars[self.pos])
            invariant
                self.wf(),
                self.chars == old(self).chars,
                self.line == old(self).line,
                old(self).pos <= self.pos,
                run_end(self.chars@, self.pos as int, run) == run_end(
                    old(self).chars@,
                    old(self).pos as int,
                    run,
                ),
            decreases self.chars@.len() - self.pos,
        {
            self.advance();
        }
    }

    /// Scans the next token: `None` at the end of the text, otherwise the
    /// token or the error met, exactly as [`scan`] describes.
    pub fn next(&mut self) -> (r: Option<Result<Token, LexError>>)
        requires
            old(self).wf(),
        ensures
            final(self).wf(),
            final(self).source() == old(self).source(),
            scan(old(self).source(), old(self).pos(), old(self).line()) == (
                scanned_view(r),
                final(self).pos(),
                final(self).line(),
            ),
    {
        loop
            invariant
                self.wf(),
                self.chars@ == old(self).chars@,
                scan(self.chars@, self.pos as int, self.line as int) == scan(
                    old(self).chars@,
                    old(self).pos as int,
                    old(self).line as int,
                ),
            decreases self.chars@.len() - self.pos,
        {
            let ghost chars = self.chars@;
            let ghost p0 = self.pos as int;
            match self.peek() {
                None => return None,
                Some('.') | Some('*') | Some(',') | Some('{') | Some('}') | Some('(') | Some(')')
                | Some('+') | Some('-') | Some(';') => {
                    let c = self.advance().unwrap_or_default();
                    let kind = match single_char_token_kind(c) {
                        Some(k) => k,
                        None => TokenKind::Dot,
                    };
                    let mut lexeme = String::new();
                    push_char(&mut lexeme, c);
                    return Some(Ok(Token { kind, lexeme, line: self.line }));
                },
                Some(c) if c == '=' || c == '!' || c == '<' || c == '>' => {
                    self.advance();
                    let mut lexeme = String::new();
                    push_char(&mut lexeme, c);
                    match self.peek() {
                        Some('=') => {
                            self.advance();
                            push_char(&mut lexeme, '=');
                            assert(lexeme@ =~= seq![c, '=']);
                            return Some(
                                Ok(
                                    Token {
                                        kind: operator_token_kind(c, true),
                                        lexeme,
                                        line: self.line,
                                    },
                                ),
                            );
                        },
                        _ => {
                            assert(lexeme@ =~= seq![c]);
                            return Some(
                                Ok(
                                    Token {
                                        kind: operator_token_kind(c, false),
                                        lexeme,
                                        line: self.line,
                                    },
                                ),
                            );
                        },
                    }
                },
                Some('/') => {
                    self.advance();
                    match self.peek() {
                        Some('/') => {
                            self.advance();
                            self.advance_while(Run::Comment);
                        },
                        _ => {
                            let mut lexeme = String::new();
                            push_char(&mut lexeme, '/');
                            assert(lexeme@ =~= seq!['/']);
                            return Some(Ok(Token { kind: TokenKind::Slash, lexeme, line: self.line }));
                        },
                    }
                },
                Some('"') => {
                    let start = self.pos;
                    self.advance();
                    self.advance_while(Run::Text);
                    proof {
                        lemma_run_end(chars, p0 + 1, Run::Text);
                    }
                    match self.peek() {
                        Some(_) => {
                            self.advance();
                            let end = self.pos;
                            return Some(
                                Ok(
                                    Token {
                                        kind: TokenKind::String(self.slice(start + 1, end - 1)),
                                        lexeme: self.slice(start, end),
                                        line: self.line,
                                    },
                                ),
                            );
                        },
                        None => return Some(Err(LexError::UnterminatedString(self.line))),
                    }
                },
                Some(c) if '0' <= c && c <= '9' => {
                    let start = self.pos;
                    self.advance();
                    self.advance_while(Run::Number);
                    let end = self.pos;
                    let number_str = self.slice(start, end);
                    return Some(
                        Ok(
                            Token {
                                kind: TokenKind::Number(self.slice(start, end)),
                                lexeme: number_str,
                                line: self.line,
                            },
                        ),
                    );
                },
                Some(c) if is_alphabetic(c) || c == '_' => {
                    let start = self.pos;
                    self.advance();
                    self.advance_while(Run::Name);
                    let end = self.pos;
                    let lexeme = self.slice(start, end);
                    let kind = match self.keyword(lexeme.as_str()) {
                        Some(k) => k,
                        None => TokenKind::Identifier(self.slice(start, end)),
                    };
                    return Some(Ok(Token { kind, lexeme, line: self.line }));
                },
                Some('\t') | Some(' ') => {
                    self.advance();
                },
                Some('\n') => {
                    self.advance();
                    self.line = self.line + 1;
                },
                Some(c) => {
                    self.advance();
                    return Some(Err(LexError::UnexpectedCharacter(self.line, c)));
                },
            }
        }
    }
}

/// Whether `c` continues a run of the given sort.
fn run_continues(run: Run, c: char) -> (r: bool)
    ensures
        r == continues(run, c),
{
    match run {
        Run::Comment => c != '\n',
        Run::Text => c != '"',
        Run::Number => ('0' <= c && c <= '9') || c == '.',
        Run::Name => is_alphanumeric(c) || c == '_',
    }
}

/// The kind of the operator `c`, alone or followed by `=`.
fn operator_token_kind(c: char, with_equal: bool) -> (k: TokenKind)
    requires
        is_operator_start(c),
    ensures
        k@ == operator_kind(c, with_equal),
{
    if c == '=' {
        if with_equal { TokenKind::EqualEqual } else { TokenKind::Equal }
    } else if c == '!' {
        if with_equal { TokenKind::BangEqual } else { TokenKind::Bang }
    } else if c == '<' {
        if with_equal { TokenKind::LessEqual } else { TokenKind::Less }
    } else {
        if with_equal { TokenKind::GreaterEqual } else { TokenKind::Greater }
    }
}

} // verus!
