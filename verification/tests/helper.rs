use redox::ast::NumberLiteral;
use redox::helper::{ParseError, ParserHelper};
use redox::lexer::{IntErrorKind, Lexer, LexerError, Token};

fn helper(source: &str) -> ParserHelper<'_> {
    ParserHelper::new(Lexer::new(source))
}

#[test]
fn advance_pulls_tokens_in_order() {
    let mut cursor = helper("fn main");
    assert_eq!(cursor.current(), Err(ParseError::UnexpectedEOF));
    assert_eq!(cursor.advance(), Ok(Some(Token::KwFn)));
    assert_eq!(cursor.current(), Ok(Token::KwFn));
    assert_eq!(cursor.advance(), Ok(Some(Token::Ident("main".to_string()))));
    assert_eq!(cursor.current(), Ok(Token::Ident("main".to_string())));
    assert_eq!(cursor.advance(), Ok(None));
    assert_eq!(cursor.current(), Err(ParseError::UnexpectedEOF));
    assert_eq!(cursor.advance(), Ok(None));
}

#[test]
fn advance_no_eof_fails_at_the_end() {
    let mut cursor = helper("fn");
    assert_eq!(cursor.advance_no_eof(), Ok(Token::KwFn));
    assert_eq!(cursor.advance_no_eof(), Err(ParseError::UnexpectedEOF));
}

#[test]
fn expect_checks_without_consuming() {
    let mut cursor = helper("fn main");
    assert_eq!(cursor.expect(Token::KwFn), Err(ParseError::UnexpectedEOF));
    cursor.advance().unwrap();
    assert_eq!(cursor.expect(Token::KwFn), Ok(()));
    assert_eq!(cursor.expect(Token::KwFn), Ok(()));
    assert_eq!(cursor.expect(Token::KwReturn), Err(ParseError::UnexpectedToken(Token::KwFn)));
    assert_eq!(cursor.current(), Ok(Token::KwFn));
}

#[test]
fn comments_are_skipped() {
    let mut cursor = helper("/* a comment */ fn /* another one */ main /* last */");
    assert_eq!(cursor.advance(), Ok(Some(Token::KwFn)));
    assert_eq!(cursor.advance(), Ok(Some(Token::Ident("main".to_string()))));
    assert_eq!(cursor.advance(), Ok(None));
}

#[test]
fn comments_next_to_each_other_are_skipped() {
    let mut cursor = helper("/* a */ /* b *//* c */ 7");
    assert_eq!(cursor.advance(), Ok(Some(Token::NumberLit(NumberLiteral::int32(7)))));
    assert_eq!(cursor.advance(), Ok(None));
}

#[test]
fn comments_do_not_nest() {
    let mut cursor = helper("/* a /* b */ c */");
    assert_eq!(cursor.advance(), Ok(Some(Token::Ident("c".to_string()))));
    assert_eq!(cursor.advance(), Ok(Some(Token::CloseComment)));
    assert_eq!(cursor.advance(), Ok(None));
}

#[test]
fn unclosed_comment_is_an_error() {
    assert_eq!(helper("/*").advance(), Err(ParseError::UnclosedComment));
    assert_eq!(helper("/* fn main() {}").advance(), Err(ParseError::UnclosedComment));
    assert_eq!(helper("/* a /* b").advance(), Err(ParseError::UnclosedComment));
    let mut cursor = helper("fn /* never closed");
    assert_eq!(cursor.advance(), Ok(Some(Token::KwFn)));
    assert_eq!(cursor.advance(), Err(ParseError::UnclosedComment));
}

#[test]
fn a_failure_stays_and_keeps_the_current_token() {
    let mut cursor = helper("fn /* never closed");
    cursor.advance().unwrap();
    assert_eq!(cursor.advance(), Err(ParseError::UnclosedComment));
    assert_eq!(cursor.advance(), Err(ParseError::UnclosedComment));
    assert_eq!(cursor.current(), Ok(Token::KwFn));
}

#[test]
fn lexer_errors_are_wrapped() {
    let mut cursor = helper("fn @");
    assert_eq!(cursor.advance(), Ok(Some(Token::KwFn)));
    assert_eq!(cursor.advance(), Err(ParseError::LexerError(LexerError::NonAsciiCharacter)));
    assert_eq!(
        helper("99999999999999999999").advance(),
        Err(ParseError::LexerError(LexerError::ParseIntError(IntErrorKind::PosOverflow)))
    );
}

#[test]
fn lexer_errors_inside_comments_are_surfaced() {
    assert_eq!(
        helper("/* caf\u{e9} */ fn").advance(),
        Err(ParseError::LexerError(LexerError::NonAsciiCharacter))
    );
}

#[test]
fn a_helper_starts_where_its_lexer_stands() {
    let mut lexer = Lexer::new("fn main");
    lexer.next();
    let mut cursor = ParserHelper::new(lexer);
    assert_eq!(cursor.advance(), Ok(Some(Token::Ident("main".to_string()))));
}

#[test]
fn from_lexer_wraps_the_error() {
    assert_eq!(
        ParseError::from_lexer(LexerError::NonAsciiCharacter),
        ParseError::LexerError(LexerError::NonAsciiCharacter)
    );
    assert_eq!(ParseError::UnclosedComment.clone(), ParseError::UnclosedComment);
}

#[test]
fn the_current_token_has_a_span() {
    let mut cursor = helper("  fn /* c */ main");
    assert_eq!(cursor.span(), None);
    cursor.advance().unwrap();
    assert_eq!(cursor.span(), Some(2..4));
    cursor.advance().unwrap();
    assert_eq!(cursor.span(), Some(13..17));
    cursor.advance().unwrap();
    assert_eq!(cursor.span(), None);
}

#[test]
fn stepping_ends_after_at_most_one_step_more_than_the_bytes() {
    for source in [
        "",
        "   ",
        "fn main() -> i32 { return 0; }",
        "/* fn */ fn /* a b c */ x",
        "a /* never closed",
        "a \u{e9} b",
        "/**/",
        "99999999999999999999999",
    ] {
        let mut cursor = helper(source);
        let mut steps = 0;
        loop {
            steps += 1;
            match cursor.advance() {
                Ok(Some(_)) => {
                    let span = cursor.span().unwrap();
                    assert!(span.start < span.end && span.end <= source.len());
                }
                Ok(None) | Err(_) => break,
            }
        }
        assert!(steps <= source.len() + 1);
    }
}
