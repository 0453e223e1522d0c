//! The lexer: from source bytes to tokens with byte spans.

use std::ops::Range;
use vstd::prelude::*;
use vstd::string::StringSliceAdditionalSpecFns;

use crate::ast::{NumberKind, NumberLiteral, NumberType};
use crate::text::{ascii_text, push_ascii};

verus! {

/// Why a run of digits is no 64-bit number.
#[derive(Debug, Clone, Copy, PartialEq, Eq)]
pub enum IntErrorKind {
    /// The value does not fit in 64 bits.
    PosOverflow,
}

/// Why a piece of text is no floating-point number.
#[derive(Debug, Clone, Copy, PartialEq, Eq)]
pub enum FloatErrorKind {
    Empty,
    Invalid,
}

/// An error found while lexing.
#[derive(Debug, Clone, Copy, PartialEq, Eq)]
pub enum LexerError {
    /// A byte that starts no token. Every byte outside ASCII is one.
    NonAsciiCharacter,
    ParseIntError(IntErrorKind),
    ParseFloatError(FloatErrorKind),
}

impl Default for LexerError {
    fn default() -> (error: LexerError)
        ensures
            error == LexerError::NonAsciiCharacter,
    {
        LexerError::NonAsciiCharacter
    }
}

/// A token of the source language.
#[derive(Debug, PartialEq)]
pub enum Token {
    KwFn,
    KwReturn,
    Semicolon,
    Colon,
    Comma,
    LeftParen,
    RightParen,
    LeftBrace,
    RightBrace,
    Arrow,
    OpenComment,
    CloseComment,
    Ident(String),
    NumberLit(NumberLiteral),
}

/// The mathematical value of a [`Token`].
pub enum TokenView {
    KwFn,
    KwReturn,
    Semicolon,
    Colon,
    Comma,
    LeftParen,
    RightParen,
    LeftBrace,
    RightBrace,
    Arrow,
    OpenComment,
    CloseComment,
    Ident(Seq<char>),
    NumberLit(NumberLiteral),
}

impl View for Token {
    type V = TokenView;

    open spec fn view(&self) -> TokenView {
        match self {
            Token::KwFn => TokenView::KwFn,
            Token::KwReturn => TokenView::KwReturn,
            Token::Semicolon => TokenView::Semicolon,
            Token::Colon => TokenView::Colon,
            Token::Comma => TokenView::Comma,
            Token::LeftParen => TokenView::LeftParen,
            Token::RightParen => TokenView::RightParen,
            Token::LeftBrace => TokenView::LeftBrace,
            Token::RightBrace => TokenView::RightBrace,
            Token::Arrow => TokenView::Arrow,
            Token::OpenComment => TokenView::OpenComment,
            Token::CloseComment => TokenView::CloseComment,
            Token::Ident(name) => TokenView::Ident(name@),
            Token::NumberLit(number) => TokenView::NumberLit(*number),
        }
    }
}

impl Clone for Token {
    fn clone(&self) -> (copy: Token)
        ensures
            copy@ == self@,
    {
        match self {
            Token::KwFn => Token::KwFn,
            Token::KwReturn => Token::KwReturn,
            Token::Semicolon => Token::Semicolon,
            Token::Colon => Token::Colon,
            Token::Comma => Token::Comma,
            Token::LeftParen => Token::LeftParen,
            Token::RightParen => Token::RightParen,
            Token::LeftBrace => Token::LeftBrace,
            Token::RightBrace => Token::RightBrace,
            Token::Arrow => Token::Arrow,
            Token::OpenComment => Token::OpenComment,
            Token::CloseComment => Token::CloseComment,
            Token::Ident(name) => Token::Ident(name.clone()),
            Token::NumberLit(number) => Token::NumberLit(*number),
        }
    }
}

impl TokenView {
    /// Whether the token is always written in one way: a keyword or a
    /// punctuation mark. Identifiers and numbers are not, and neither are the
    /// comment delimiters, which no parser sees.
    pub open spec fn is_fixed(self) -> bool {
        !(self is Ident || self is NumberLit || self is OpenComment || self is CloseComment)
    }
}

/// The fixed token that a text is: the text must lex as that one token, from
/// its first byte to its last.
pub open spec fn fixed_token(text: Seq<u8>) -> Option<TokenView> {
    match lex_at(text, 0) {
        Lexeme::Token { token, start, end } => if start == 0 && end == text.len()
            && token.is_fixed() {
            Some(token)
        } else {
            None
        },
        _ => None,
    }
}

impl Token {
    /// Whether the token is a keyword or a punctuation mark.
    pub fn is_fixed(&self) -> (fixed: bool)
        ensures
            fixed == self@.is_fixed(),
    {
        match self {
            Token::Ident(_) => false,
            Token::NumberLit(_) => false,
            Token::OpenComment => false,
            Token::CloseComment => false,
            _ => true,
        }
    }

    /// The keyword or punctuation mark that the text is, if it is one.
    pub fn from_text(text: &str) -> (token: Option<Token>)
        ensures
            match fixed_token(text.spec_bytes()) {
                Some(fixed) => token matches Some(found) && found@ == fixed,
                None => token is None,
            },
    {
        let mut lexer = Lexer::new(text);
        match lexer.next() {
            Some(Ok(token)) => {
                let span = lexer.span();
                if span.start == 0 && span.end == text.as_bytes().len() && token.is_fixed() {
                    Some(token)
                } else {
                    None
                }
            },
            _ => None,
        }
    }

    /// Whether the two tokens are the same kind of token with the same payload.
    pub fn same(&self, other: &Token) -> (equal: bool)
        ensures
            equal == (self@ == other@),
    {
        match (self, other) {
            (Token::KwFn, Token::KwFn) => true,
            (Token::KwReturn, Token::KwReturn) => true,
            (Token::Semicolon, Token::Semicolon) => true,
            (Token::Colon, Token::Colon) => true,
            (Token::Comma, Token::Comma) => true,
            (Token::LeftParen, Token::LeftParen) => true,
            (Token::RightParen, Token::RightParen) => true,
            (Token::LeftBrace, Token::LeftBrace) => true,
            (Token::RightBrace, Token::RightBrace) => true,
            (Token::Arrow, Token::Arrow) => true,
            (Token::OpenComment, Token::OpenComment) => true,
            (Token::CloseComment, Token::CloseComment) => true,
            (Token::Ident(a), Token::Ident(b)) => *a == *b,
            (Token::NumberLit(a), Token::NumberLit(b)) => a.value == b.value && a.kind.bits
                == b.kind.bits && match (a.kind.kind, b.kind.kind) {
                (NumberKind::Signed, NumberKind::Signed) => true,
                (NumberKind::Unsigned, NumberKind::Unsigned) => true,
                (NumberKind::Float, NumberKind::Float) => true,
                _ => false,
            },
            _ => false,
        }
    }
}

/// Space, tab, line feed, vertical tab, form feed and carriage return.
pub open spec fn is_whitespace(byte: u8) -> bool {
    byte == 32 || (9 <= byte <= 13)
}

/// The decimal digits `0` to `9`.
pub open spec fn is_digit(byte: u8) -> bool {
    48 <= byte <= 57
}

/// A letter or an underscore: what an identifier starts with.
pub open spec fn is_ident_start(byte: u8) -> bool {
    (65 <= byte <= 90) || (97 <= byte <= 122) || byte == 95
}

/// A letter, a digit or an underscore: what an identifier goes on with.
pub open spec fn is_ident_continue(byte: u8) -> bool {
    is_ident_start(byte) || is_digit(byte)
}

/// The first position from `pos` on that holds no whitespace.
pub open spec fn whitespace_end(source: Seq<u8>, pos: int) -> int
    decreases source.len() - pos,
{
    if 0 <= pos < source.len() && is_whitespace(source[pos]) {
        whitespace_end(source, pos + 1)
    } else {
        pos
    }
}

/// The first position from `pos` on that holds no letter, digit or underscore.
pub open spec fn ident_end(source: Seq<u8>, pos: int) -> int
    decreases source.len() - pos,
{
    if 0 <= pos < source.len() && is_ident_continue(source[pos]) {
        ident_end(source, pos + 1)
    } else {
        pos
    }
}

/// The first position from `pos` on that holds no digit.
pub open spec fn digits_end(source: Seq<u8>, pos: int) -> int
    decreases source.len() - pos,
{
    if 0 <= pos < source.len() && is_digit(source[pos]) {
        digits_end(source, pos + 1)
    } else {
        pos
    }
}

/// The number that a run of decimal digits denotes in the given radix.
pub open spec fn digits_value(digits: Seq<u8>, radix: nat) -> nat
    decreases digits.len(),
{
    if digits.len() == 0 {
        0
    } else {
        digits_value(digits.drop_last(), radix) * radix + (digits.last() - 48) as nat
    }
}

/// The bytes of the keyword `fn`.
pub open spec fn keyword_fn() -> Seq<u8> {
    seq![102u8, 110u8]
}

/// The bytes of the keyword `return`.
pub open spec fn keyword_return() -> Seq<u8> {
    seq![114u8, 101u8, 116u8, 117u8, 114u8, 110u8]
}

/// The token that a maximal run of letters, digits and underscores is.
pub open spec fn word_token(word: Seq<u8>) -> TokenView {
    if word == keyword_fn() {
        TokenView::KwFn
    } else if word == keyword_return() {
        TokenView::KwReturn
    } else {
        TokenView::Ident(ascii_text(word))
    }
}

/// The token that a single byte is, if it is one.
pub open spec fn punctuation(byte: u8) -> Option<TokenView> {
    if byte == 59 {
        Some(TokenView::Semicolon)
    } else if byte == 58 {
        Some(TokenView::Colon)
    } else if byte == 44 {
        Some(TokenView::Comma)
    } else if byte == 40 {
        Some(TokenView::LeftParen)
    } else if byte == 41 {
        Some(TokenView::RightParen)
    } else if byte == 123 {
        Some(TokenView::LeftBrace)
    } else if byte == 125 {
        Some(TokenView::RightBrace)
    } else {
        None
    }
}

/// What the lexer finds next.
pub enum Lexeme {
    /// Nothing but whitespace is left.
    End,
    /// A token that fills the bytes from `start` up to `end`.
    Token { token: TokenView, start: int, end: int },
    /// An error for the bytes from `start` up to `end`.
    Error { error: LexerError, start: int, end: int },
}

/// Whether the bytes at `start` and after it are `first` and `second`.
pub open spec fn pair_at(source: Seq<u8>, start: int, first: u8, second: u8) -> bool {
    0 <= start && start + 1 < source.len() && source[start] == first && source[start + 1] == second
}

/// Whether a number at `start` has the prefix `0x`, which needs a digit behind it.
pub open spec fn has_hex_prefix(source: Seq<u8>, start: int) -> bool {
    pair_at(source, start, 48, 120) && start + 2 < source.len() && is_digit(source[start + 2])
}

/// The number literal that starts with the digit at `start`: a maximal run of
/// decimal digits, read in radix 16 behind the prefix `0x` and in radix 10 otherwise.
pub open spec fn number_at(source: Seq<u8>, start: int) -> Lexeme {
    let hex = has_hex_prefix(source, start);
    let first = if hex { start + 2 } else { start };
    let end = digits_end(source, first);
    let value = digits_value(source.subrange(first, end), if hex { 16 } else { 10 });
    if value <= u64::MAX {
        Lexeme::Token {
            token: TokenView::NumberLit(
                NumberLiteral {
                    kind: NumberType { kind: NumberKind::Signed, bits: 32 },
                    value: value as u64,
                },
            ),
            start,
            end,
        }
    } else {
        Lexeme::Error { error: LexerError::ParseIntError(IntErrorKind::PosOverflow), start, end }
    }
}

/// The token or error that starts at `start`, which is inside the source and holds no whitespace.
pub open spec fn token_at(source: Seq<u8>, start: int) -> Lexeme {
    let byte = source[start];
    if is_ident_start(byte) {
        let end = ident_end(source, start + 1);
        Lexeme::Token { token: word_token(source.subrange(start, end)), start, end }
    } else if is_digit(byte) {
        number_at(source, start)
    } else if pair_at(source, start, 45, 62) {
        Lexeme::Token { token: TokenView::Arrow, start, end: start + 2 }
    } else if pair_at(source, start, 47, 42) {
        Lexeme::Token { token: TokenView::OpenComment, start, end: start + 2 }
    } else if pair_at(source, start, 42, 47) {
        Lexeme::Token { token: TokenView::CloseComment, start, end: start + 2 }
    } else {
        match punctuation(byte) {
            Some(token) => Lexeme::Token { token, start, end: start + 1 },
            None => Lexeme::Error { error: LexerError::NonAsciiCharacter, start, end: start + 1 },
        }
    }
}

/// What a lexer at `pos` finds next: whitespace is skipped, then comes the end,
/// a token or an error.
pub open spec fn lex_at(source: Seq<u8>, pos: int) -> Lexeme {
    let start = whitespace_end(source, pos);
    if start >= source.len() {
        Lexeme::End
    } else {
        token_at(source, start)
    }
}

/// The text of the ASCII bytes from `start` up to `end`.
fn text_of(source: &[u8], start: usize, end: usize) -> (text: String)
    requires
        start <= end <= source@.len(),
        forall|i: int| start <= i < end ==> source@[i] < 128,
    ensures
        text@ == ascii_text(source@.subrange(start as int, end as int)),
{
    let mut text = String::new();
    push_ascii(&mut text, source, start, end);
    assert(text@ =~= ascii_text(source@.subrange(start as int, end as int)));
    text
}

/// Appends one decimal digit to a number, unless the result leaves 64 bits.
fn append_digit(value: u64, digit: u8, hex: bool) -> (appended: Option<u64>)
    requires
        digit < 10,
    ensures
        match appended {
            Some(appended) => appended == value * (if hex { 16nat } else { 10nat }) + digit,
            None => value * (if hex { 16nat } else { 10nat }) + digit > u64::MAX,
        },
{
    let radix: u64 = if hex { 16 } else { 10 };
    match value.checked_mul(radix) {
        Some(scaled) => scaled.checked_add(digit as u64),
        None => None,
    }
}

/// Positions before the end of a run of whitespace hold whitespace, and the end does not.
proof fn lemma_whitespace_end(source: Seq<u8>, pos: int)
    requires
        0 <= pos <= source.len(),
    ensures
        pos <= whitespace_end(source, pos) <= source.len(),
        forall|i: int| pos <= i < whitespace_end(source, pos) ==> is_whitespace(source[i]),
        whitespace_end(source, pos) < source.len() ==> !is_whitespace(
            source[whitespace_end(source, pos)],
        ),
    decreases source.len() - pos,
{
    if pos < source.len() && is_whitespace(source[pos]) {
        lemma_whitespace_end(source, pos + 1);
    }
}

/// Positions before the end of a run of identifier bytes hold such bytes, and the end does not.
proof fn lemma_ident_end(source: Seq<u8>, pos: int)
    requires
        0 <= pos <= source.len(),
    ensures
        pos <= ident_end(source, pos) <= source.len(),
        forall|i: int| pos <= i < ident_end(source, pos) ==> is_ident_continue(source[i]),
        ident_end(source, pos) < source.len() ==> !is_ident_continue(
            source[ident_end(source, pos)],
        ),
    decreases source.len() - pos,
{
    if pos < source.len() && is_ident_continue(source[pos]) {
        lemma_ident_end(source, pos + 1);
    }
}

/// Positions before the end of a run of digits hold digits, and the end does not.
proof fn lemma_digits_end(source: Seq<u8>, pos: int)
    requires
        0 <= pos <= source.len(),
    ensures
        pos <= digits_end(source, pos) <= source.len(),
        forall|i: int| pos <= i < digits_end(source, pos) ==> is_digit(source[i]),
        digits_end(source, pos) < source.len() ==> !is_digit(source[digits_end(source, pos)]),
    decreases source.len() - pos,
{
    if pos < source.len() && is_digit(source[pos]) {
        lemma_digits_end(source, pos + 1);
    }
}

/// The lexer is total and makes progress: from every position it finds the end
/// of the source, with nothing but whitespace left, or a token or a definite
/// error that fills at least one byte behind the whitespace it skipped.
pub proof fn lemma_lexer_total(source: Seq<u8>, pos: int)
    requires
        0 <= pos <= source.len(),
    ensures
        match lex_at(source, pos) {
            Lexeme::End => forall|i: int| pos <= i < source.len() ==> is_whitespace(source[i]),
            Lexeme::Token { token, start, end } => {
                &&& pos <= start < end <= source.len()
                &&& forall|i: int| pos <= i < start ==> is_whitespace(source[i])
            },
            Lexeme::Error { error, start, end } => {
                &&& pos <= start < end <= source.len()
                &&& forall|i: int| pos <= i < start ==> is_whitespace(source[i])
            },
        },
{
    lemma_whitespace_end(source, pos);
    let start = whitespace_end(source, pos);
    if start < source.len() {
        lemma_ident_end(source, start + 1);
        lemma_digits_end(source, start);
        if start + 2 <= source.len() {
            lemma_digits_end(source, start + 2);
        }
    }
}

/// What a lexer gives from a position on, call after call, until it stops.
pub struct LexerRun {
    /// The tokens in order.
    pub tokens: Seq<TokenView>,
    /// For each token, the bytes of the source that it fills: from the first
    /// number up to the second.
    pub spans: Seq<(int, int)>,
    /// The error that ends the run, if the source does not simply end.
    pub error: Option<LexerError>,
}

/// The run of a lexer that stands at `pos`: the tokens up to the end of the
/// source or up to the first error.
pub open spec fn run_from(source: Seq<u8>, pos: int) -> LexerRun
    decreases source.len() - pos,
    when 0 <= pos <= source.len()
{
    match lex_at(source, pos) {
        Lexeme::End => LexerRun { tokens: Seq::empty(), spans: Seq::empty(), error: None },
        Lexeme::Error { error, start, end } => LexerRun {
            tokens: Seq::empty(),
            spans: Seq::empty(),
            error: Some(error),
        },
        Lexeme::Token { token, start, end } => {
            proof {
                lemma_lexer_total(source, pos);
            }
            let rest = run_from(source, end);
            LexerRun {
                tokens: seq![token] + rest.tokens,
                spans: seq![(start, end)] + rest.spans,
                error: rest.error,
            }
        },
    }
}

/// Whether byte `i` lies in the span.
pub open spec fn in_span(span: (int, int), i: int) -> bool {
    span.0 <= i < span.1
}

/// A run ends: it holds at most as many tokens as the source has bytes behind
/// `pos`, so that the end or an error comes after at most one call more than
/// that. Its spans are not empty, lie in the source and follow each other. And
/// where the run ends without an error, every byte behind `pos` that is no
/// whitespace lies in the span of exactly one token.
pub proof fn lemma_lexer_run(source: Seq<u8>, pos: int)
    requires
        0 <= pos <= source.len(),
    ensures
        run_from(source, pos).tokens.len() == run_from(source, pos).spans.len(),
        run_from(source, pos).tokens.len() <= source.len() - pos,
        forall|k: int|
            0 <= k < run_from(source, pos).spans.len() ==> {
                let span = #[trigger] run_from(source, pos).spans[k];
                pos <= span.0 < span.1 <= source.len()
            },
        forall|j: int, k: int|
            0 <= j < k < run_from(source, pos).spans.len() ==> (#[trigger] run_from(
                source,
                pos,
            ).spans[j]).1 <= (#[trigger] run_from(source, pos).spans[k]).0,
        run_from(source, pos).error is None ==> forall|i: int|
            pos <= i < source.len() && !is_whitespace(#[trigger] source[i]) ==> exists|k: int|
                0 <= k < run_from(source, pos).spans.len() && #[trigger] in_span(
                    run_from(source, pos).spans[k],
                    i,
                ),
        forall|i: int, j: int, k: int|
            0 <= j < run_from(source, pos).spans.len() && 0 <= k < run_from(source, pos).spans.len()
                && #[trigger] in_span(run_from(source, pos).spans[j], i) && #[trigger] in_span(
                run_from(source, pos).spans[k],
                i,
            ) ==> j == k,
    decreases source.len() - pos,
{
    lemma_lexer_total(source, pos);
    let run = run_from(source, pos);
    match lex_at(source, pos) {
        Lexeme::Token { token, start, end } => {
            lemma_lexer_run(source, end);
            let rest = run_from(source, end);
            assert(run.spans == seq![(start, end)] + rest.spans);
            assert forall|k: int| 0 <= k < run.spans.len() implies {
                let span = #[trigger] run.spans[k];
                pos <= span.0 < span.1 <= source.len()
            } by {
                if k > 0 {
                    assert(run.spans[k] == rest.spans[k - 1]);
                }
            }
            assert forall|j: int, k: int| 0 <= j < k < run.spans.len() implies (
            #[trigger] run.spans[j]).1 <= (#[trigger] run.spans[k]).0 by {
                assert(run.spans[k] == rest.spans[k - 1]);
                if j > 0 {
                    assert(run.spans[j] == rest.spans[j - 1]);
                }
            }
            if run.error is None {
                assert forall|i: int|
                    pos <= i < source.len() && !is_whitespace(
                        #[trigger] source[i],
                    ) implies exists|k: int|
                    0 <= k < run.spans.len() && #[trigger] in_span(run.spans[k], i) by {
                    if i < end {
                        assert(in_span(run.spans[0], i));
                    } else {
                        let k = choose|k: int|
                            0 <= k < rest.spans.len() && #[trigger] in_span(rest.spans[k], i);
                        assert(run.spans[k + 1] == rest.spans[k]);
                        assert(in_span(run.spans[k + 1], i));
                    }
                }
            }
            assert forall|i: int, j: int, k: int|
                0 <= j < run.spans.len() && 0 <= k < run.spans.len() && #[trigger] in_span(
                    run.spans[j],
                    i,
                ) && #[trigger] in_span(run.spans[k], i) implies j == k by {
                if j < k {
                    assert(run.spans[j].1 <= run.spans[k].0);
                } else if k < j {
                    assert(run.spans[k].1 <= run.spans[j].0);
                }
            }
        },
        _ => {},
    }
}

/// A lexer over the bytes of a source text. It is used up as it goes: to lex the
/// text again, make a new one.
pub struct Lexer<'a> {
    source: &'a [u8],
    position: usize,
    token_start: usize,
}

impl<'a> Lexer<'a> {
    #[verifier::type_invariant]
    spec fn in_bounds(self) -> bool {
        self.token_start <= self.position <= self.source@.len()
    }

    /// The bytes being lexed.
    pub closed spec fn source(self) -> Seq<u8> {
        self.source@
    }

    /// How many bytes have been consumed.
    pub closed spec fn position(self) -> int {
        self.position as int
    }

    /// Where the token or error that was found last starts.
    pub closed spec fn token_start(self) -> int {
        self.token_start as int
    }

    /// A lexer at the start of `source`.
    pub fn new(source: &'a str) -> (lexer: Lexer<'a>)
        ensures
            lexer.source() == source.spec_bytes(),
            lexer.position() == 0,
            lexer.token_start() == 0,
    {
        Lexer { source: source.as_bytes(), position: 0, token_start: 0 }
    }

    /// The bytes that the token or error found last fills.
    pub fn span(&self) -> (span: Range<usize>)
        ensures
            span.start == self.token_start(),
            span.end == self.position(),
            span.start <= span.end <= self.source().len(),
    {
        proof {
            use_type_invariant(self);
        }
        Range { start: self.token_start, end: self.position }
    }

    /// Skips whitespace and consumes the next token: `None` at the end of the
    /// source, else the token, or the error for the bytes that make none. Call
    /// after call this gives the run from where the lexer stood.
    pub fn next(&mut self) -> (item: Option<Result<Token, LexerError>>)
        ensures
            final(self).source() == old(self).source(),
            match lex_at(old(self).source(), old(self).position()) {
                Lexeme::End => {
                    &&& item is None
                    &&& final(self).position() == old(self).source().len()
                    &&& final(self).token_start() == old(self).source().len()
                },
                Lexeme::Token { token, start, end } => {
                    &&& item matches Some(Ok(found))
                    &&& found@ == token
                    &&& final(self).token_start() == start
                    &&& final(self).position() == end
                },
                Lexeme::Error { error, start, end } => {
                    &&& item == Some(Err::<Token, LexerError>(error))
                    &&& final(self).token_start() == start
                    &&& final(self).position() == end
                },
            },
            run_from(old(self).source(), old(self).position()) == match item {
                None => LexerRun { tokens: Seq::empty(), spans: Seq::empty(), error: None },
                Some(Err(error)) => LexerRun {
                    tokens: Seq::empty(),
                    spans: Seq::empty(),
                    error: Some(error),
                },
                Some(Ok(token)) => {
                    let rest = run_from(final(self).source(), final(self).position());
                    LexerRun {
                        tokens: seq![token@] + rest.tokens,
                        spans: seq![(final(self).token_start(), final(self).position())]
                            + rest.spans,
                        error: rest.error,
                    }
                },
            },
    {
        proof {
            use_type_invariant(&*self);
        }
        let source = self.source;
        let length = source.len();
        let mut start = self.position;
        proof {
            lemma_whitespace_end(source@, start as int);
        }
        while start < length && is_whitespace_byte(source[start])
            invariant
                start <= length == source@.len(),
                whitespace_end(source@, old(self).position()) == whitespace_end(
                    source@,
                    start as int,
                ),
            decreases length - start,
        {
            start += 1;
        }
        if start >= length {
            self.position = length;
            self.token_start = length;
            return None;
        }
        let byte = source[start];
        let next: Option<u8> = if start + 1 < length {
            Some(source[start + 1])
        } else {
            None
        };
        if is_ident_start_byte(byte) {
            let mut end = start + 1;
            proof {
                lemma_ident_end(source@, start + 1);
            }
            while end < length && is_ident_continue_byte(source[end])
                invariant
                    start < end <= length == source@.len(),
                    ident_end(source@, start + 1) == ident_end(source@, end as int),
                    forall|i: int| start <= i < end ==> is_ident_continue(source@[i]),
                decreases length - end,
            {
                end += 1;
            }
            self.position = end;
            self.token_start = start;
            let ghost word = source@.subrange(start as int, end as int);
            if end - start == 2 && byte == 102 && source[start + 1] == 110 {
                assert(word =~= keyword_fn());
                Some(Ok(Token::KwFn))
            } else if end - start == 6 && byte == 114 && source[start + 1] == 101 && source[start
                + 2] == 116 && source[start + 3] == 117 && source[start + 4] == 114 && source[start
                + 5] == 110 {
                assert(word =~= keyword_return());
                Some(Ok(Token::KwReturn))
            } else {
                assert(word != keyword_fn()) by {
                    if word == keyword_fn() {
                        assert(word.len() == 2 && word[0] == 102 && word[1] == 110);
                    }
                }
                assert(word != keyword_return()) by {
                    if word == keyword_return() {
                        assert(word.len() == 6 && word[0] == 114 && word[1] == 101 && word[2] == 116
                            && word[3] == 117 && word[4] == 114 && word[5] == 110);
                    }
                }
                Some(Ok(Token::Ident(text_of(source, start, end))))
            }
        } else if is_digit_byte(byte) {
            let hex = byte == 48 && next == Some(120u8) && start + 2 < length && is_digit_byte(
                source[start + 2],
            );
            let first = if hex { start + 2 } else { start };
            let mut end = first;
            let mut value: u64 = 0;
            let mut overflow = false;
            let ghost radix: nat = if hex { 16 } else { 10 };
            proof {
                lemma_digits_end(source@, first as int);
                assert(source@.subrange(first as int, end as int) =~= Seq::<u8>::empty());
            }
            while end < length && is_digit_byte(source[end])
                invariant
                    first <= end <= length == source@.len(),
                    radix == (if hex { 16nat } else { 10nat }),
                    digits_end(source@, first as int) == digits_end(source@, end as int),
                    !overflow ==> value == digits_value(
                        source@.subrange(first as int, end as int),
                        radix,
                    ),
                    overflow ==> digits_value(source@.subrange(first as int, end as int), radix)
                        > u64::MAX,
                decreases length - end,
            {
                let digit = source[end] - 48;
                proof {
                    let longer = source@.subrange(first as int, end + 1);
                    assert(longer.drop_last() =~= source@.subrange(first as int, end as int));
                    assert(longer.last() == source@[end as int]);
                    let before = digits_value(source@.subrange(first as int, end as int), radix);
                    assert(digits_value(longer, radix) == before * radix + digit);
                    assert(before * radix + digit >= before) by (nonlinear_arith)
                        requires
                            radix >= 1,
                    ;
                }
                if !overflow {
                    match append_digit(value, digit, hex) {
                        Some(appended) => {
                            value = appended;
                        },
                        None => {
                            overflow = true;
                        },
                    }
                }
                end += 1;
            }
            self.position = end;
            self.token_start = start;
            assert(has_hex_prefix(source@, start as int) == hex);
            if overflow {
                Some(Err(LexerError::ParseIntError(IntErrorKind::PosOverflow)))
            } else {
                Some(Ok(Token::NumberLit(NumberLiteral::int32(value))))
            }
        } else if byte == 45 && next == Some(62u8) {
            self.position = start + 2;
            self.token_start = start;
            Some(Ok(Token::Arrow))
        } else if byte == 47 && next == Some(42u8) {
            self.position = start + 2;
            self.token_start = start;
            Some(Ok(Token::OpenComment))
        } else if byte == 42 && next == Some(47u8) {
            self.position = start + 2;
            self.token_start = start;
            Some(Ok(Token::CloseComment))
        } else {
            self.position = start + 1;
            self.token_start = start;
            if byte == 59 {
                Some(Ok(Token::Semicolon))
            } else if byte == 58 {
                Some(Ok(Token::Colon))
            } else if byte == 44 {
                Some(Ok(Token::Comma))
            } else if byte == 40 {
                Some(Ok(Token::LeftParen))
            } else if byte == 41 {
                Some(Ok(Token::RightParen))
            } else if byte == 123 {
                Some(Ok(Token::LeftBrace))
            } else if byte == 125 {
                Some(Ok(Token::RightBrace))
            } else {
                Some(Err(LexerError::NonAsciiCharacter))
            }
        }
    }
}

/// Whether the byte is whitespace.
fn is_whitespace_byte(byte: u8) -> (yes: bool)
    ensures
        yes == is_whitespace(byte),
{
    byte == 32 || (9 <= byte && byte <= 13)
}

/// Whether the byte is a decimal digit.
fn is_digit_byte(byte: u8) -> (yes: bool)
    ensures
        yes == is_digit(byte),
{
    48 <= byte && byte <= 57
}

/// Whether the byte can start an identifier.
fn is_ident_start_byte(byte: u8) -> (yes: bool)
    ensures
        yes == is_ident_start(byte),
{
    (65 <= byte && byte <= 90) || (97 <= byte && byte <= 122) || byte == 95
}

/// Whether the byte can go on an identifier.
fn is_ident_continue_byte(byte: u8) -> (yes: bool)
    ensures
        yes == is_ident_continue(byte),
{
    is_ident_start_byte(byte) || is_digit_byte(byte)
}

} // verus!
