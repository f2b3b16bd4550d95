use structlang::lexer::{Lexer, Token, UnrecognizedTokenError};

fn lex_str(source: &str) -> Vec<Result<Token, UnrecognizedTokenError>> {
    let mut lexer = Lexer::new(source)
        .unwrap_or_else(|_| panic!("unable to construct lexer for source {source}"));
    let mut tokens: Vec<Result<Token, UnrecognizedTokenError>> = Vec::new();
    while let Some(tok) = lexer.next() {
        tokens.push(tok);
    }
    tokens
}

fn lex_str_ok(source: &str) -> Vec<Token> {
    let lexer = Lexer::new(source)
        .unwrap_or_else(|_| panic!("unable to construct lexer for source {source}"));
    let mut lexer = lexer;
    let mut tokens: Vec<Token> = Vec::new();
    while let Some(tok) = lexer.next() {
        tokens.push(tok.expect("illegal token"));
    }
    tokens
}

#[test]
fn test_empty() {
    assert_eq!(lex_str("").len(), 0);
}

#[test]
fn test_repeated_tokens() {
    let tokens = [
        (",", Token::Comma, 4, false),
        ("\n", Token::Newline, 4, true),
        ("=", Token::Equals, 1, false),
        ("==", Token::EqualsEquals, 4, false),
        ("!=", Token::NotEquals, 4, false),
        ("..", Token::Dots, 4, false),
        (".", Token::Dot, 1, false),
        (":", Token::Colon, 1, false),
        ("::", Token::ColonColon, 4, false),
        (";", Token::Semicolon, 4, false),
        ("?", Token::QuestionMark, 4, false),
        ("->", Token::Arrow, 4, false),
        ("|", Token::Bar, 4, false),
        ("+", Token::Plus, 1, false),
        ("++", Token::PlusPlus, 4, false),
        ("-", Token::Minus, 1, false),
        ("*", Token::Times, 1, false),
        ("**", Token::TimesTimes, 4, false),
        ("/", Token::Divide, 1, false),
        ("//", Token::DivideDivide, 4, false),
        ("%", Token::Percent, 4, false),
        ("<<", Token::LShift, 4, false),
        (">>", Token::RShift, 4, false),
        ("(", Token::LParen, 4, false),
        (")", Token::RParen, 4, false),
        ("{", Token::LCurl, 4, false),
        ("}", Token::RCurl, 4, false),
        ("[", Token::LSquare, 4, false),
        ("]", Token::RSquare, 4, false),
        ("<", Token::LAngle, 1, false),
        (">", Token::RAngle, 1, false),
    ];
    for (tok_str, tok, count, condense) in tokens {
        for n in 1..count {
            let source = tok_str.repeat(n);
            let expected_count = if condense { n.min(1) } else { n };
            let actual = lex_str_ok(&source);
            if actual != vec![tok; expected_count] {
                panic!("tokens not equal: (\"{source}\", [{tok:?}; {n}]), found {actual:?}");
            }
        }
    }
}

#[test]
fn test_spaces_are_skipped() {
    assert_eq!(lex_str_ok("  , \t ,"), vec![Token::Comma, Token::Comma]);
    assert_eq!(lex_str_ok(" \t "), Vec::<Token>::new());
}

#[test]
fn test_newline_condenses_mixed_characters() {
    assert_eq!(lex_str_ok("\n\r\n"), vec![Token::Newline]);
    assert_eq!(lex_str_ok("\n,\n"), vec![
        Token::Newline,
        Token::Comma,
        Token::Newline,
    ]);
}

#[test]
fn test_numbers() {
    assert_eq!(lex_str_ok("42"), vec![Token::Number]);
    assert_eq!(lex_str_ok("1.5"), vec![Token::Number]);
    assert_eq!(lex_str_ok("1."), vec![Token::Number, Token::Dot]);
    assert_eq!(lex_str_ok("1..2"), vec![Token::Number, Token::Dots, Token::Number]);
}

#[test]
fn test_identifiers() {
    assert_eq!(lex_str_ok("_x9 Abc"), vec![Token::Ident, Token::Ident]);
    assert_eq!(lex_str_ok("9a"), vec![Token::Number, Token::Ident]);
}

#[test]
fn test_string_and_character_literals() {
    assert_eq!(lex_str_ok("\"hello\""), vec![Token::String]);
    assert_eq!(lex_str_ok("\"he\\\"llo\""), vec![Token::String]);
    assert_eq!(lex_str_ok("'c'"), vec![Token::Character]);
    assert_eq!(lex_str_ok("'\\''"), vec![Token::Character]);
}

#[test]
fn test_arrow_and_minus() {
    assert_eq!(lex_str_ok("->-"), vec![Token::Arrow, Token::Minus]);
}

#[test]
fn test_unrecognized_first_token_fails_construction() {
    assert!(Lexer::new("!").is_err());
    assert!(Lexer::new("\"unterminated").is_err());
}

#[test]
fn test_unrecognized_later_token_is_reported() {
    let mut lexer = Lexer::new("a !").unwrap();
    assert_eq!(lexer.next(), Some(Ok(Token::Ident)));
    assert_eq!(lexer.next(), Some(Err(UnrecognizedTokenError)));
}

#[test]
fn test_peek_does_not_consume() {
    let mut lexer = Lexer::new(", .").unwrap();
    assert_eq!(lexer.peek(), Some(Token::Comma));
    assert_eq!(lexer.peek(), Some(Token::Comma));
    assert_eq!(lexer.next(), Some(Ok(Token::Comma)));
    assert_eq!(lexer.peek(), Some(Token::Dot));
    assert_eq!(lexer.next(), Some(Ok(Token::Dot)));
    assert_eq!(lexer.peek(), None);
    assert_eq!(lexer.next(), None);
}

#[test]
fn test_slice_is_the_token_text() {
    let mut lexer = Lexer::new("foo 42").unwrap();
    assert_eq!(lexer.next(), Some(Ok(Token::Ident)));
    assert_eq!(lexer.slice(), "foo");
    assert_eq!(lexer.next(), Some(Ok(Token::Number)));
    assert_eq!(lexer.slice(), "42");
}
