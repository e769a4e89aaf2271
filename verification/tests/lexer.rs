use lox::lexer::{LexError, Lexer, Token, TokenKind};

fn scan_all(source: &str) -> Vec<Result<Token, LexError>> {
    let mut lexer = Lexer::new(source);
    let mut out = Vec::new();
    while let Some(r) = lexer.next() {
        out.push(r);
    }
    out
}

fn lines(source: &str) -> Vec<String> {
    scan_all(source)
        .iter()
        .map(|r| match r {
            Ok(t) => t.to_display_string(),
            Err(e) => e.to_display_string(),
        })
        .collect()
}

#[test]
fn single_character_tokens() {
    assert_eq!(
        lines("(){};,+-*."),
        vec![
            "LEFT_PAREN ( null",
            "RIGHT_PAREN ) null",
            "LEFT_BRACE { null",
            "RIGHT_BRACE } null",
            "SEMICOLON ; null",
            "COMMA , null",
            "PLUS + null",
            "MINUS - null",
            "STAR * null",
            "DOT . null",
        ]
    );
}

#[test]
fn one_and_two_character_operators() {
    assert_eq!(
        lines("= == ! != < <= > >= /"),
        vec![
            "EQUAL = null",
            "EQUAL_EQUAL == null",
            "BANG ! null",
            "BANG_EQUAL != null",
            "LESS < null",
            "LESS_EQUAL <= null",
            "GREATER > null",
            "GREATER_EQUAL >= null",
            "SLASH / null",
        ]
    );
}

#[test]
fn string_literal_shows_its_contents() {
    assert_eq!(lines("\"hello world\""), vec!["STRING \"hello world\" hello world"]);
}

#[test]
fn unterminated_string_is_an_error() {
    let results = scan_all("\"abc");
    assert_eq!(results.len(), 1);
    match &results[0] {
        Err(e) => {
            assert_eq!(*e, LexError::UnterminatedString(1));
            assert_eq!(e.to_display_string(), "[line 1] Error: Unterminated string.");
        }
        Ok(_) => panic!("expected an error"),
    }
}

#[test]
fn unexpected_character_is_reported_and_scanning_goes_on() {
    assert_eq!(
        lines("@ ;"),
        vec!["[line 1] Error: Unexpected character: @", "SEMICOLON ; null"]
    );
}

#[test]
fn number_keeps_its_text() {
    let results = scan_all("123.45 7");
    match &results[0] {
        Ok(t) => {
            assert!(matches!(&t.kind, TokenKind::Number(text) if text == "123.45"));
            assert_eq!(t.lexeme, "123.45");
            assert_eq!(t.literal_str(), "null");
        }
        Err(_) => panic!("expected a number"),
    }
    assert_eq!(lines("7"), vec!["NUMBER 7 null"]);
}

#[test]
fn keywords_and_identifiers() {
    assert_eq!(
        lines("and class else false for fun if nil or print return super this true var while foo_bar _x1"),
        vec![
            "AND and null",
            "CLASS class null",
            "ELSE else null",
            "FALSE false null",
            "FOR for null",
            "FUN fun null",
            "IF if null",
            "NIL nil null",
            "OR or null",
            "PRINT print null",
            "RETURN return null",
            "SUPER super null",
            "THIS this null",
            "TRUE true null",
            "VAR var null",
            "WHILE while null",
            "IDENTIFIER foo_bar null",
            "IDENTIFIER _x1 null",
        ]
    );
}

#[test]
fn break_and_continue_are_identifiers() {
    assert_eq!(lines("break continue"), vec!["IDENTIFIER break null", "IDENTIFIER continue null"]);
}

#[test]
fn comments_and_newlines() {
    let results = scan_all("// a comment\n  x // another\n\ty\n");
    let toks: Vec<(String, usize)> = results
        .iter()
        .map(|r| match r {
            Ok(t) => (t.lexeme.clone(), t.line),
            Err(_) => panic!("unexpected error"),
        })
        .collect();
    assert_eq!(toks, vec![("x".to_string(), 2), ("y".to_string(), 3)]);
}

#[test]
fn errors_carry_their_line() {
    let results = scan_all("\n\n#");
    assert_eq!(results.len(), 1);
    assert!(matches!(results[0], Err(LexError::UnexpectedCharacter(3, '#'))));
}

#[test]
fn empty_source_has_no_tokens() {
    assert!(scan_all("").is_empty());
    assert!(scan_all("  \t\n // only a comment").is_empty());
}

#[test]
fn end_is_final() {
    let mut lexer = Lexer::new("x");
    assert!(matches!(lexer.next(), Some(Ok(_))));
    assert!(lexer.next().is_none());
    assert!(lexer.next().is_none());
    assert!(lexer.next().is_none());
}

#[test]
fn lexeme_is_source_text() {
    let source = "  foo >= \"a b\" 12.5;";
    for r in scan_all(source) {
        let t = r.expect("no error expected");
        assert!(source.contains(t.lexeme.as_str()));
    }
}

#[test]
fn token_kind_names() {
    assert_eq!(TokenKind::LeftParen.to_display_string(), "LEFT_PAREN");
    assert_eq!(TokenKind::String("s".to_string()).to_display_string(), "STRING");
    assert_eq!(TokenKind::Identifier("s".to_string()).to_display_string(), "IDENTIFIER");
    assert_eq!(TokenKind::Number("1".to_string()).to_display_string(), "NUMBER");
    assert_eq!(TokenKind::Break.to_display_string(), "BREAK");
    assert_eq!(TokenKind::Continue.to_display_string(), "CONTINUE");
}

#[test]
fn string_may_span_lines() {
    let results = scan_all("\"a\nb\" x");
    match &results[0] {
        Ok(t) => assert!(matches!(&t.kind, TokenKind::String(s) if s == "a\nb")),
        Err(_) => panic!("expected a string"),
    }
    match &results[1] {
        Ok(t) => assert_eq!(t.line, 1),
        Err(_) => panic!("expected an identifier"),
    }
}

#[test]
fn unicode_letters_make_identifiers() {
    assert_eq!(lines("héllo ñ1"), vec!["IDENTIFIER héllo null", "IDENTIFIER ñ1 null"]);
    assert_eq!(lines("€"), vec!["[line 1] Error: Unexpected character: €"]);
}

#[test]
fn number_run_takes_digits_and_dots() {
    let results = scan_all("1.2.3+4.");
    let lexemes: Vec<String> = results
        .iter()
        .map(|r| match r {
            Ok(t) => t.lexeme.clone(),
            Err(_) => panic!("unexpected error"),
        })
        .collect();
    assert_eq!(lexemes, vec!["1.2.3", "+", "4."]);
}

#[test]
fn lines_count_newlines_before_each_token() {
    let source = "a\n\n  b // c\n@ d";
    let mut lexer = Lexer::new(source);
    let mut lines = Vec::new();
    while let Some(r) = lexer.next() {
        lines.push(match r {
            Ok(t) => t.line,
            Err(LexError::UnexpectedCharacter(l, _)) => l,
            Err(LexError::UnterminatedString(l)) => l,
        });
    }
    assert_eq!(lines, vec![1, 3, 4, 4]);
}

#[test]
fn lexemes_cover_the_source_in_order() {
    let source = "var x = \"s\"; // note\n x>=1.5";
    let mut offset = 0;
    for r in scan_all(source) {
        let t = r.expect("no error expected");
        let found = source[offset..].find(t.lexeme.as_str()).expect("lexeme in order") + offset;
        assert!(source[offset..found].chars().all(|c| c == ' ' || c == '\n') || source[offset..found].contains("//"));
        offset = found + t.lexeme.len();
    }
    assert_eq!(source[offset..].trim(), "");
    assert!(scan_all(source).len() <= source.chars().count());
}

#[test]
fn ascii_words_and_spaces() {
    assert_eq!(lines("orchid or _x1"), vec!["IDENTIFIER orchid null", "OR or null", "IDENTIFIER _x1 null"]);
    assert_eq!(lines(" \t@"), vec!["[line 1] Error: Unexpected character: @"]);
}
