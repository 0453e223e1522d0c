use redox::ast::{NumberLiteral, NumberType};
use redox::lexer::{IntErrorKind, Lexer, LexerError, Token};

fn lex_all(source: &str) -> Vec<Result<Token, LexerError>> {
    let mut lexer = Lexer::new(source);
    let mut items = Vec::new();
    while let Some(item) = lexer.next() {
        items.push(item);
    }
    items
}

fn lex_one(source: &str) -> Option<Result<Token, LexerError>> {
    Lexer::new(source).next()
}

#[test]
fn test_lexing_tok() {
    assert_eq!(lex_one("fn"), Some(Ok(Token::KwFn)));
    assert_eq!(lex_one("("), Some(Ok(Token::LeftParen)));
    assert_eq!(lex_one(")"), Some(Ok(Token::RightParen)));
    assert_eq!(lex_one("{"), Some(Ok(Token::LeftBrace)));
    assert_eq!(lex_one("}"), Some(Ok(Token::RightBrace)));
    assert_eq!(lex_one("foo"), Some(Ok(Token::Ident("foo".to_string()))));
    assert_eq!(lex_one("->"), Some(Ok(Token::Arrow)));
}

#[test]
fn test_lexing_seq() {
    let tokens: Vec<Token> = lex_all("fn main() {}").into_iter().map(|item| item.unwrap()).collect();
    assert_eq!(
        tokens,
        vec![
            Token::KwFn,
            Token::Ident("main".to_string()),
            Token::LeftParen,
            Token::RightParen,
            Token::LeftBrace,
            Token::RightBrace,
        ]
    );
}

#[test]
fn lexes_every_fixed_token() {
    assert_eq!(lex_one("return"), Some(Ok(Token::KwReturn)));
    assert_eq!(lex_one(";"), Some(Ok(Token::Semicolon)));
    assert_eq!(lex_one(":"), Some(Ok(Token::Colon)));
    assert_eq!(lex_one(","), Some(Ok(Token::Comma)));
    assert_eq!(lex_one("/*"), Some(Ok(Token::OpenComment)));
    assert_eq!(lex_one("*/"), Some(Ok(Token::CloseComment)));
}

#[test]
fn empty_source_has_no_token() {
    assert_eq!(lex_one(""), None);
    assert_eq!(lex_one(" \t\r\n\x0b\x0c"), None);
}

#[test]
fn keywords_are_whole_words() {
    assert_eq!(lex_one("fnx"), Some(Ok(Token::Ident("fnx".to_string()))));
    assert_eq!(lex_one("returns"), Some(Ok(Token::Ident("returns".to_string()))));
    assert_eq!(lex_one("f"), Some(Ok(Token::Ident("f".to_string()))));
    assert_eq!(lex_one("_a1"), Some(Ok(Token::Ident("_a1".to_string()))));
    assert_eq!(lex_one("Return"), Some(Ok(Token::Ident("Return".to_string()))));
}

#[test]
fn numbers_are_signed_32_by_default() {
    assert_eq!(
        lex_one("42"),
        Some(Ok(Token::NumberLit(NumberLiteral { kind: NumberType::int32(), value: 42 })))
    );
    assert_eq!(lex_one("0"), Some(Ok(Token::NumberLit(NumberLiteral::int32(0)))));
    assert_eq!(lex_one("007"), Some(Ok(Token::NumberLit(NumberLiteral::int32(7)))));
}

#[test]
fn hex_prefix_selects_radix_16() {
    assert_eq!(lex_one("0x10"), Some(Ok(Token::NumberLit(NumberLiteral::int32(16)))));
    assert_eq!(lex_one("0x99"), Some(Ok(Token::NumberLit(NumberLiteral::int32(0x99)))));
}

#[test]
fn hex_prefix_needs_a_digit() {
    assert_eq!(
        lex_all("0x"),
        vec![Ok(Token::NumberLit(NumberLiteral::int32(0))), Ok(Token::Ident("x".to_string()))]
    );
    assert_eq!(
        lex_all("0xf"),
        vec![Ok(Token::NumberLit(NumberLiteral::int32(0))), Ok(Token::Ident("xf".to_string()))]
    );
}

#[test]
fn a_number_ends_where_its_digits_end() {
    assert_eq!(
        lex_all("12ab"),
        vec![Ok(Token::NumberLit(NumberLiteral::int32(12))), Ok(Token::Ident("ab".to_string()))]
    );
}

#[test]
fn largest_number_fits() {
    assert_eq!(
        lex_one("18446744073709551615"),
        Some(Ok(Token::NumberLit(NumberLiteral::int32(u64::MAX))))
    );
    assert_eq!(
        lex_one("0x9999999999999999"),
        Some(Ok(Token::NumberLit(NumberLiteral::int32(0x9999999999999999))))
    );
}

#[test]
fn number_wider_than_64_bits_is_an_error() {
    assert_eq!(
        lex_one("18446744073709551616"),
        Some(Err(LexerError::ParseIntError(IntErrorKind::PosOverflow)))
    );
    assert_eq!(
        lex_one("99999999999999999999999999"),
        Some(Err(LexerError::ParseIntError(IntErrorKind::PosOverflow)))
    );
    assert_eq!(
        lex_one("0x10000000000000000"),
        Some(Err(LexerError::ParseIntError(IntErrorKind::PosOverflow)))
    );
}

#[test]
fn an_overflowing_number_is_consumed_whole() {
    let mut lexer = Lexer::new("99999999999999999999 x");
    assert_eq!(lexer.next(), Some(Err(LexerError::ParseIntError(IntErrorKind::PosOverflow))));
    assert_eq!(lexer.span(), 0..20);
    assert_eq!(lexer.next(), Some(Ok(Token::Ident("x".to_string()))));
}

#[test]
fn non_ascii_byte_is_an_error() {
    assert_eq!(lex_one("é"), Some(Err(LexerError::NonAsciiCharacter)));
    assert_eq!(
        lex_all("a é"),
        vec![
            Ok(Token::Ident("a".to_string())),
            Err(LexerError::NonAsciiCharacter),
            Err(LexerError::NonAsciiCharacter),
        ]
    );
}

#[test]
fn byte_that_starts_no_token_is_an_error() {
    assert_eq!(lex_one("@"), Some(Err(LexerError::NonAsciiCharacter)));
    assert_eq!(lex_one("-"), Some(Err(LexerError::NonAsciiCharacter)));
    assert_eq!(lex_one("/"), Some(Err(LexerError::NonAsciiCharacter)));
    assert_eq!(lex_one("*"), Some(Err(LexerError::NonAsciiCharacter)));
    assert_eq!(lex_one("+"), Some(Err(LexerError::NonAsciiCharacter)));
}

#[test]
fn default_error_is_non_ascii() {
    assert_eq!(LexerError::default(), LexerError::NonAsciiCharacter);
}

#[test]
fn spans_are_byte_ranges() {
    let mut lexer = Lexer::new("  fn  main");
    assert_eq!(lexer.span(), 0..0);
    assert_eq!(lexer.next(), Some(Ok(Token::KwFn)));
    assert_eq!(lexer.span(), 2..4);
    assert_eq!(lexer.next(), Some(Ok(Token::Ident("main".to_string()))));
    assert_eq!(lexer.span(), 6..10);
    assert_eq!(lexer.next(), None);
    assert_eq!(lexer.span(), 10..10);
    assert_eq!(lexer.next(), None);
}

#[test]
fn every_byte_is_whitespace_or_in_a_token() {
    let source = "fn add(x: i32, y: i32) -> i32 { return x; } /* c */ 0x12 ->";
    let mut lexer = Lexer::new(source);
    let mut covered = 0;
    while let Some(item) = lexer.next() {
        assert!(item.is_ok());
        let span = lexer.span();
        assert!(covered <= span.start && span.start < span.end && span.end <= source.len());
        assert!(source.as_bytes()[covered..span.start].iter().all(|b| b.is_ascii_whitespace()));
        covered = span.end;
    }
    assert_eq!(covered, source.len());
}

#[test]
fn tokens_compare_by_kind_and_payload() {
    assert!(Token::KwFn.same(&Token::KwFn));
    assert!(!Token::KwFn.same(&Token::KwReturn));
    assert!(Token::Ident("a".to_string()).same(&Token::Ident("a".to_string())));
    assert!(!Token::Ident("a".to_string()).same(&Token::Ident("b".to_string())));
    assert!(Token::NumberLit(NumberLiteral::int32(1)).same(&Token::NumberLit(NumberLiteral::int32(1))));
    assert!(!Token::NumberLit(NumberLiteral::int32(1)).same(&Token::NumberLit(NumberLiteral::int32(2))));
    assert!(!Token::NumberLit(NumberLiteral::int32(1))
        .same(&Token::NumberLit(NumberLiteral::new(NumberType::int64(), 1))));
    assert_eq!(Token::Ident("a".to_string()).clone(), Token::Ident("a".to_string()));
}

#[test]
fn a_run_ends_after_at_most_one_call_more_than_the_bytes() {
    for source in ["", " ", "a", "fn main() -> i32 { return 0; }", ";;;;", "1 2 3", "x\u{e9}y", "->->"] {
        let mut lexer = Lexer::new(source);
        let mut calls = 0;
        let mut spans: Vec<std::ops::Range<usize>> = Vec::new();
        let ended = loop {
            calls += 1;
            match lexer.next() {
                None => break true,
                Some(Err(_)) => break false,
                Some(Ok(_)) => spans.push(lexer.span()),
            }
        };
        assert!(calls <= source.len() + 1);
        for pair in spans.windows(2) {
            assert!(pair[0].end <= pair[1].start);
        }
        if ended {
            for (i, byte) in source.bytes().enumerate() {
                let holders = spans.iter().filter(|span| span.contains(&i)).count();
                let blank = byte == b' ' || (9..=13).contains(&byte);
                assert_eq!(holders, if blank { 0 } else { 1 });
            }
        }
    }
}
