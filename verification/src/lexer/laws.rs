//! What every scanning step keeps, and what a whole run of the scanner over a
//! text produces.
use crate::lexer::{lemma_run_end, run_end, scan, LexError, Run, SpecToken, SpecTokenKind};
use vstd::prelude::*;

verus! {

/// Each scanning step moves forward and stays inside the text, never lowers
/// the line, and moves past at least one character when it produces a token
/// or an error; it produces nothing only once it has reached the end.
pub proof fn lemma_scan_progress(chars: Seq<char>, pos: int, line: int)
    requires
        0 <= pos <= chars.len(),
    ensures
        pos <= scan(chars, pos, line).1 <= chars.len(),
        line <= scan(chars, pos, line).2,
        scan(chars, pos, line).0 is Some ==> pos < scan(chars, pos, line).1,
        scan(chars, pos, line).0 is None ==> scan(chars, pos, line).1 == chars.len(),
    decreases chars.len() - pos,
{
    if pos < chars.len() {
        let c = chars[pos];
        lemma_run_end(chars, pos + 1, Run::Text);
        lemma_run_end(chars, pos + 1, Run::Number);
        lemma_run_end(chars, pos + 1, Run::Name);
        if c == '/' && pos + 1 < chars.len() && chars[pos + 1] == '/' {
            lemma_run_end(chars, pos + 2, Run::Comment);
            lemma_scan_progress(chars, crate::lexer::run_end(chars, pos + 2, Run::Comment), line);
        } else if c == '\t' || c == ' ' {
            lemma_scan_progress(chars, pos + 1, line);
        } else if c == '\n' {
            lemma_scan_progress(chars, pos + 1, line + 1);
        }
    }
}

/// Once the scanner has reported the end of the text, it reports the end
/// again, from the same place and on the same line.
pub proof fn lemma_end_is_final(chars: Seq<char>, pos: int, line: int)
    requires
        0 <= pos <= chars.len(),
        scan(chars, pos, line).0 is None,
    ensures
        scan(chars, scan(chars, pos, line).1, scan(chars, pos, line).2) == (
            None::<Result<SpecToken, LexError>>,
            scan(chars, pos, line).1,
            scan(chars, pos, line).2,
        ),
{
    lemma_scan_progress(chars, pos, line);
}

/// The text of every token is the stretch of the source it was scanned from:
/// it starts at or after the position the step started from and ends where
/// the step stopped.
pub proof fn lemma_lexeme_is_source(chars: Seq<char>, pos: int, line: int)
    requires
        0 <= pos <= chars.len(),
        scan(chars, pos, line).0 matches Some(Ok(_)),
    ensures
        exists|start: int|
            pos <= start < scan(chars, pos, line).1 && scan(chars, pos, line).0->0->Ok_0.lexeme
                == chars.subrange(start, scan(chars, pos, line).1),
    decreases chars.len() - pos,
{
    let c = chars[pos];
    let end = scan(chars, pos, line).1;
    lemma_run_end(chars, pos + 1, Run::Text);
    lemma_run_end(chars, pos + 1, Run::Number);
    lemma_run_end(chars, pos + 1, Run::Name);
    if c == '/' && pos + 1 < chars.len() && chars[pos + 1] == '/' {
        lemma_run_end(chars, pos + 2, Run::Comment);
        lemma_lexeme_is_source(chars, crate::lexer::run_end(chars, pos + 2, Run::Comment), line);
    } else if c == '\t' || c == ' ' {
        lemma_lexeme_is_source(chars, pos + 1, line);
    } else if c == '\n' {
        lemma_lexeme_is_source(chars, pos + 1, line + 1);
    } else {
        let lexeme = scan(chars, pos, line).0->0->Ok_0.lexeme;
        assert(lexeme =~= chars.subrange(pos, end));
    }
}

/// The number of newlines among the first `i` characters of `chars`.
pub open spec fn newlines(chars: Seq<char>, i: int) -> nat
    decreases i,
{
    if i <= 0 || i > chars.len() {
        0
    } else {
        newlines(chars, i - 1) + if chars[i - 1] == '\n' { 1nat } else { 0nat }
    }
}

/// Whether the text holds no double quote, so no string literal.
pub open spec fn no_quote(chars: Seq<char>) -> bool {
    forall|i: int| 0 <= i < chars.len() ==> chars[i] != '"'
}

/// Where the next token or error starts when scanning from `pos`: past the
/// spaces, tabs, newlines and `//` comments (each up to, not including, its
/// newline) that come first.
pub open spec fn start_of(chars: Seq<char>, pos: int) -> int
    decreases chars.len() - pos,
{
    if pos < 0 || pos >= chars.len() {
        pos
    } else {
        let c = chars[pos];
        if c == '/' && pos + 1 < chars.len() && chars[pos + 1] == '/' {
            proof {
                lemma_run_end(chars, pos + 2, Run::Comment);
            }
            start_of(chars, run_end(chars, pos + 2, Run::Comment))
        } else if c == ' ' || c == '\t' || c == '\n' {
            start_of(chars, pos + 1)
        } else {
            pos
        }
    }
}

/// A stretch without newlines leaves the count of newlines unchanged.
proof fn lemma_newlines_flat(chars: Seq<char>, a: int, b: int)
    requires
        0 <= a <= b <= chars.len(),
        forall|j: int| a <= j < b ==> chars[j] != '\n',
    ensures
        newlines(chars, b) == newlines(chars, a),
    decreases b - a,
{
    if a < b {
        lemma_newlines_flat(chars, a, b - 1);
    }
}

/// There are no more newlines than characters.
proof fn lemma_newlines_bound(chars: Seq<char>, i: int)
    ensures
        newlines(chars, i) <= if i < 0 { 0 } else { i },
    decreases i,
{
    if i > 0 && i <= chars.len() {
        lemma_newlines_bound(chars, i - 1);
    }
}

/// The text of every token of a kind that carries no value: its punctuation,
/// operator or keyword. Kinds that carry a value have none.
pub open spec fn kind_text(k: SpecTokenKind) -> Option<Seq<char>> {
    match k {
        SpecTokenKind::LeftParen => Some(seq!['(']),
        SpecTokenKind::RightParen => Some(seq![')']),
        SpecTokenKind::LeftBrace => Some(seq!['{']),
        SpecTokenKind::RightBrace => Some(seq!['}']),
        SpecTokenKind::Comma => Some(seq![',']),
        SpecTokenKind::Dot => Some(seq!['.']),
        SpecTokenKind::Star => Some(seq!['*']),
        SpecTokenKind::Plus => Some(seq!['+']),
        SpecTokenKind::Minus => Some(seq!['-']),
        SpecTokenKind::Semicolon => Some(seq![';']),
        SpecTokenKind::Equal => Some(seq!['=']),
        SpecTokenKind::EqualEqual => Some(seq!['=', '=']),
        SpecTokenKind::Bang => Some(seq!['!']),
        SpecTokenKind::BangEqual => Some(seq!['!', '=']),
        SpecTokenKind::Less => Some(seq!['<']),
        SpecTokenKind::LessEqual => Some(seq!['<', '=']),
        SpecTokenKind::Greater => Some(seq!['>']),
        SpecTokenKind::GreaterEqual => Some(seq!['>', '=']),
        SpecTokenKind::Slash => Some(seq!['/']),
        SpecTokenKind::And => Some("and"@),
        SpecTokenKind::Class => Some("class"@),
        SpecTokenKind::Else => Some("else"@),
        SpecTokenKind::False => Some("false"@),
        SpecTokenKind::For => Some("for"@),
        SpecTokenKind::Fun => Some("fun"@),
        SpecTokenKind::If => Some("if"@),
        SpecTokenKind::Nil => Some("nil"@),
        SpecTokenKind::Or => Some("or"@),
        SpecTokenKind::Print => Some("print"@),
        SpecTokenKind::Return => Some("return"@),
        SpecTokenKind::Super => Some("super"@),
        SpecTokenKind::This => Some("this"@),
        SpecTokenKind::True => Some("true"@),
        SpecTokenKind::Var => Some("var"@),
        SpecTokenKind::While => Some("while"@),
        SpecTokenKind::Break => Some("break"@),
        SpecTokenKind::Continue => Some("continue"@),
        _ => None,
    }
}

/// Whether a word is one of the reserved words of the language.
pub open spec fn reserved(w: Seq<char>) -> bool {
    ||| w == "and"@
    ||| w == "class"@
    ||| w == "else"@
    ||| w == "false"@
    ||| w == "for"@
    ||| w == "fun"@
    ||| w == "if"@
    ||| w == "nil"@
    ||| w == "or"@
    ||| w == "print"@
    ||| w == "return"@
    ||| w == "super"@
    ||| w == "this"@
    ||| w == "true"@
    ||| w == "var"@
    ||| w == "while"@
}

/// Whether a token's kind agrees with its text: a punctuation, operator or
/// keyword token has that kind's text; an identifier is named by its text,
/// which is no reserved word; a number holds its text, which starts with a
/// digit; a string's text is its contents in double quotes.
pub open spec fn kind_fits(t: SpecToken) -> bool {
    &&& kind_text(t.kind) matches Some(x) ==> t.lexeme == x
    &&& t.kind matches SpecTokenKind::Identifier(name) ==> name == t.lexeme && !reserved(t.lexeme)
    &&& t.kind matches SpecTokenKind::Number(text) ==> text == t.lexeme && t.lexeme.len() > 0
        && crate::text::is_digit(t.lexeme[0])
    &&& t.kind matches SpecTokenKind::String(v) ==> t.lexeme == seq!['"'] + v + seq!['"']
}

/// What one produced item says of the text: a token's lexeme is the text from
/// where it starts to where the step stopped, a string token's lexeme is its
/// contents in double quotes, an identifier is named by its lexeme; an
/// unexpected character is the one character at the start; an unterminated
/// string runs from a double quote to the end of the text.
pub open spec fn item_fits(chars: Seq<char>, item: Result<SpecToken, LexError>, start: int, end: int) -> bool {
    match item {
        Ok(t) => {
            &&& t.lexeme == chars.subrange(start, end)
            &&& kind_fits(t)
            &&& t.kind matches SpecTokenKind::String(v) ==> t.lexeme == seq!['"'] + v + seq!['"']
            &&& t.kind matches SpecTokenKind::Identifier(name) ==> name == t.lexeme
        },
        Err(LexError::UnexpectedCharacter(_, c)) => end == start + 1 && chars[start] == c,
        Err(LexError::UnterminatedString(_)) => chars[start] == '"' && end == chars.len(),
    }
}

/// The line an item reports is one more than the newlines before its start.
pub open spec fn line_fits(chars: Seq<char>, item: Result<SpecToken, LexError>, start: int) -> bool {
    match item {
        Ok(t) => t.line == 1 + newlines(chars, start),
        Err(LexError::UnexpectedCharacter(l, _)) => l == 1 + newlines(chars, start),
        Err(LexError::UnterminatedString(l)) => l == 1 + newlines(chars, start),
    }
}

/// One scanning step: it skips to where `start_of` says, then produces an
/// item that fits the text there, or nothing at the end of the text. When the
/// line counted at `pos` is one more than the newlines before it and the text
/// holds no string literal, the item reports the line of its start and the
/// line after the step is counted the same way.
pub proof fn lemma_scan_step(chars: Seq<char>, pos: int, line: int)
    requires
        0 <= pos <= chars.len(),
        chars.len() < usize::MAX,
    ensures
        pos <= start_of(chars, pos) <= chars.len(),
        scan(chars, pos, line).0 is None ==> start_of(chars, pos) == chars.len() && scan(chars, pos, line).1
            == chars.len(),
        scan(chars, pos, line).0 matches Some(item) ==> {
            &&& start_of(chars, pos) < scan(chars, pos, line).1
            &&& item_fits(chars, item, start_of(chars, pos), scan(chars, pos, line).1)
        },
        no_quote(chars) && line == 1 + newlines(chars, pos) ==> {
            &&& scan(chars, pos, line).2 == 1 + newlines(chars, scan(chars, pos, line).1)
            &&& scan(chars, pos, line).0 matches Some(item) ==> line_fits(chars, item, start_of(chars, pos))
        },
    decreases chars.len() - pos,
{
    lemma_scan_progress(chars, pos, line);
    if pos < chars.len() {
        let c = chars[pos];
        let end = scan(chars, pos, line).1;
        lemma_run_end(chars, pos + 1, Run::Text);
        lemma_run_end(chars, pos + 1, Run::Number);
        lemma_run_end(chars, pos + 1, Run::Name);
        if c == '/' && pos + 1 < chars.len() && chars[pos + 1] == '/' {
            let e = run_end(chars, pos + 2, Run::Comment);
            lemma_run_end(chars, pos + 2, Run::Comment);
            lemma_scan_step(chars, e, line);
            lemma_newlines_flat(chars, pos, e);
        } else if c == ' ' || c == '\t' {
            lemma_scan_step(chars, pos + 1, line);
        } else if c == '\n' {
            lemma_scan_step(chars, pos + 1, line + 1);
        } else {
            if let Some(Ok(t)) = scan(chars, pos, line).0 {
                assert(t.lexeme =~= chars.subrange(pos, end));
                if let SpecTokenKind::String(v) = t.kind {
                    assert(t.lexeme =~= seq!['"'] + v + seq!['"']);
                }
            }
            if no_quote(chars) && line == 1 + newlines(chars, pos) {
                lemma_newlines_bound(chars, pos);
                assert forall|j: int| pos <= j < end implies chars[j] != '\n' by {
                    if j > pos {
                        assert(('\n' as u32) < 128);
                    }
                }
                lemma_newlines_flat(chars, pos, end);
            }
        }
    }
}

/// One item of a run of the scanner, with where it starts and where the step
/// that produced it stopped.
pub struct Scanned {
    pub item: Result<SpecToken, LexError>,
    pub start: int,
    pub end: int,
}

/// What successive calls of [`crate::lexer::Lexer::next`] produce from position
/// `pos` on line `line`, up to the first `None`.
pub open spec fn run(chars: Seq<char>, pos: int, line: int) -> Seq<Scanned>
    decreases chars.len() - pos,
{
    if pos < 0 || pos > chars.len() {
        Seq::empty()
    } else {
        let st = scan(chars, pos, line);
        match st.0 {
            None => Seq::empty(),
            Some(item) => {
                proof {
                    lemma_scan_progress(chars, pos, line);
                }
                seq![Scanned { item, start: start_of(chars, pos), end: st.1 }] + run(chars, st.1, st.2)
            },
        }
    }
}

/// A whole run of the scanner over a text: it produces at most one item per
/// character left, so it reaches its `None` within that many calls. The items
/// cover the text in order: each starts where skipping spaces, tabs, newlines
/// and `//` comments from the end of the one before leads, fits the text from
/// its start to its end as [`item_fits`] says, and after the last only such
/// skippable text is left. When the text holds no string literal and the run
/// starts with the line counted from the newlines before it, every item
/// reports one more than the number of newlines before its start.
pub proof fn lemma_run(chars: Seq<char>, pos: int, line: int)
    requires
        0 <= pos <= chars.len(),
        chars.len() < usize::MAX,
    ensures
        run(chars, pos, line).len() <= chars.len() - pos,
        forall|k: int| 0 <= k < run(chars, pos, line).len() ==> {
            let x = #[trigger] run(chars, pos, line)[k];
            &&& pos <= x.start < x.end <= chars.len()
            &&& item_fits(chars, x.item, x.start, x.end)
        },
        run(chars, pos, line).len() == 0 ==> start_of(chars, pos) == chars.len(),
        run(chars, pos, line).len() > 0 ==> {
            &&& run(chars, pos, line)[0].start == start_of(chars, pos)
            &&& start_of(chars, run(chars, pos, line).last().end) == chars.len()
        },
        forall|k: int| 0 <= k < run(chars, pos, line).len() - 1 ==> run(chars, pos, line)[k + 1].start
            == start_of(chars, #[trigger] run(chars, pos, line)[k].end),
        no_quote(chars) && line == 1 + newlines(chars, pos) ==> forall|k: int|
            0 <= k < run(chars, pos, line).len() ==> line_fits(
                chars,
                (#[trigger] run(chars, pos, line)[k]).item,
                run(chars, pos, line)[k].start,
            ),
    decreases chars.len() - pos,
{
    lemma_scan_step(chars, pos, line);
    let st = scan(chars, pos, line);
    if let Some(item) = st.0 {
        lemma_scan_progress(chars, pos, line);
        lemma_run(chars, st.1, st.2);
        let rs = run(chars, pos, line);
        let rest = run(chars, st.1, st.2);
        let h = Scanned { item, start: start_of(chars, pos), end: st.1 };
        assert(rs == seq![h] + rest);
        assert(start_of(chars, st.1) >= st.1) by {
            lemma_scan_step(chars, st.1, st.2);
        }
        assert forall|k: int| 0 <= k < rs.len() implies {
            let x = #[trigger] rs[k];
            &&& pos <= x.start < x.end <= chars.len()
            &&& item_fits(chars, x.item, x.start, x.end)
        } by {
            if k > 0 {
                assert(rs[k] == rest[k - 1]);
            }
        }
        assert forall|k: int| 0 <= k < rs.len() - 1 implies rs[k + 1].start == start_of(chars, #[trigger] rs[k].end) by {
            assert(rs[k + 1] == rest[k]);
            if k > 0 {
                assert(rs[k] == rest[k - 1]);
            }
        }
        if rest.len() > 0 {
            assert(rs.last() == rest.last());
        }
        if no_quote(chars) && line == 1 + newlines(chars, pos) {
            assert forall|k: int| 0 <= k < rs.len() implies line_fits(chars, (#[trigger] rs[k]).item, rs[k].start) by {
                if k > 0 {
                    assert(rs[k] == rest[k - 1]);
                }
            }
        }
    }
}

} // verus!
