//! The parser's cursor over the lexer: one token of lookahead, comments skipped.

use std::ops::Range;
use vstd::prelude::*;

use crate::lexer::{
    in_span, is_whitespace, lemma_lexer_run, lemma_lexer_total, lex_at, run_from, Lexeme, Lexer,
    LexerError, Token, TokenView,
};

verus! {

/// An error found while parsing.
#[derive(Debug, PartialEq)]
pub enum ParseError {
    /// The lexer failed.
    LexerError(LexerError),
    /// The source ended where a token was needed.
    UnexpectedEOF,
    /// A token stood where the grammar allows another.
    UnexpectedToken(Token),
    /// A `/*` has no `*/` behind it.
    UnclosedComment,
}

/// The mathematical value of a [`ParseError`].
pub enum ParseErrorView {
    LexerError(LexerError),
    UnexpectedEOF,
    UnexpectedToken(TokenView),
    UnclosedComment,
}

impl View for ParseError {
    type V = ParseErrorView;

    open spec fn view(&self) -> ParseErrorView {
        match self {
            ParseError::LexerError(error) => ParseErrorView::LexerError(*error),
            ParseError::UnexpectedEOF => ParseErrorView::UnexpectedEOF,
            ParseError::UnexpectedToken(token) => ParseErrorView::UnexpectedToken(token@),
            ParseError::UnclosedComment => ParseErrorView::UnclosedComment,
        }
    }
}

impl Clone for ParseError {
    fn clone(&self) -> (copy: ParseError)
        ensures
            copy@ == self@,
    {
        match self {
            ParseError::LexerError(error) => ParseError::LexerError(*error),
            ParseError::UnexpectedEOF => ParseError::UnexpectedEOF,
            ParseError::UnexpectedToken(token) => ParseError::UnexpectedToken(token.clone()),
            ParseError::UnclosedComment => ParseError::UnclosedComment,
        }
    }
}

impl From<LexerError> for ParseError {
    fn from(error: LexerError) -> (wrapped: ParseError) {
        ParseError::LexerError(error)
    }
}

impl vstd::std_specs::convert::FromSpecImpl<LexerError> for ParseError {
    open spec fn obeys_from_spec() -> bool {
        true
    }

    open spec fn from_spec(error: LexerError) -> ParseError {
        ParseError::LexerError(error)
    }
}

impl ParseError {
    /// The parse error that a lexer error becomes.
    pub fn from_lexer(error: LexerError) -> (wrapped: ParseError)
        ensures
            wrapped == ParseError::LexerError(error),
    {
        ParseError::from(error)
    }
}

/// Where the comment that was opened before `pos` ends: behind the first `*/`
/// from `pos` on. Every token on the way must lex; comments do not nest.
pub open spec fn comment_end(source: Seq<u8>, pos: int) -> Result<int, ParseErrorView>
    decreases source.len() - pos,
    when 0 <= pos <= source.len()
{
    match lex_at(source, pos) {
        Lexeme::End => Err(ParseErrorView::UnclosedComment),
        Lexeme::Error { error, start, end } => Err(ParseErrorView::LexerError(error)),
        Lexeme::Token { token, start, end } => {
            if token == TokenView::CloseComment {
                Ok(end)
            } else {
                proof {
                    lemma_lexer_total(source, pos);
                }
                comment_end(source, end)
            }
        },
    }
}

/// What the cursor pulls from a position on.
pub enum Pulled {
    /// The source has ended.
    Eof,
    /// A token outside every comment, and the bytes from `start` up to `end` that it fills.
    Token { token: TokenView, start: int, end: int },
    /// A lexer error, or a comment that is never closed.
    Failed { error: ParseErrorView },
}

/// The next token from `pos` on, with every comment before it skipped.
pub open spec fn pull(source: Seq<u8>, pos: int) -> Pulled
    decreases source.len() - pos,
    when 0 <= pos <= source.len()
{
    match lex_at(source, pos) {
        Lexeme::End => Pulled::Eof,
        Lexeme::Error { error, start, end } => Pulled::Failed {
            error: ParseErrorView::LexerError(error),
        },
        Lexeme::Token { token, start, end } => {
            if token == TokenView::OpenComment {
                proof {
                    lemma_lexer_total(source, pos);
                    lemma_comment_end(source, end);
                }
                match comment_end(source, end) {
                    Ok(after) => pull(source, after),
                    Err(error) => Pulled::Failed { error },
                }
            } else {
                Pulled::Token { token, start, end }
            }
        },
    }
}

/// A comment ends behind where it was opened, inside the source.
pub proof fn lemma_comment_end(source: Seq<u8>, pos: int)
    requires
        0 <= pos <= source.len(),
    ensures
        comment_end(source, pos) matches Ok(after) ==> pos < after <= source.len(),
    decreases source.len() - pos,
{
    lemma_lexer_total(source, pos);
    match lex_at(source, pos) {
        Lexeme::Token { token, start, end } => {
            if token != TokenView::CloseComment {
                lemma_comment_end(source, end);
            }
        },
        _ => {},
    }
}

/// Whether every lexeme from `pos` on is a token other than `*/`.
pub open spec fn never_closed(source: Seq<u8>, pos: int) -> bool
    decreases source.len() - pos,
    when 0 <= pos <= source.len()
{
    match lex_at(source, pos) {
        Lexeme::End => true,
        Lexeme::Error { error, start, end } => false,
        Lexeme::Token { token, start, end } => {
            proof {
                lemma_lexer_total(source, pos);
            }
            token != TokenView::CloseComment && never_closed(source, end)
        },
    }
}

/// A comment behind which only tokens follow, none of them `*/`, is unclosed,
/// whatever the tokens are.
pub proof fn lemma_unclosed_comment(source: Seq<u8>, pos: int)
    requires
        0 <= pos <= source.len(),
        never_closed(source, pos),
    ensures
        comment_end(source, pos) == Err::<int, ParseErrorView>(ParseErrorView::UnclosedComment),
    decreases source.len() - pos,
{
    lemma_lexer_total(source, pos);
    match lex_at(source, pos) {
        Lexeme::Token { token, start, end } => {
            lemma_unclosed_comment(source, end);
        },
        _ => {},
    }
}

/// Pulling fails on a `/*` that is never closed: where the lexer finds `/*` at
/// `pos` and only tokens other than `*/` behind it, the cursor fails with
/// `UnclosedComment`.
pub proof fn lemma_pull_unclosed_comment(source: Seq<u8>, pos: int)
    requires
        0 <= pos <= source.len(),
        lex_at(source, pos) matches Lexeme::Token { token, start, end } && token
            == TokenView::OpenComment && never_closed(source, end),
    ensures
        pull(source, pos) == (Pulled::Failed { error: ParseErrorView::UnclosedComment }),
        stream_from(source, pos) == (TokenStream {
            tokens: Seq::empty(),
            spans: Seq::empty(),
            failure: Some(ParseErrorView::UnclosedComment),
        }),
{
    lemma_lexer_total(source, pos);
    let end = lex_at(source, pos)->Token_end;
    lemma_unclosed_comment(source, end);
}

/// A pulled token ends behind where pulling began, inside the source.
pub proof fn lemma_pull(source: Seq<u8>, pos: int)
    requires
        0 <= pos <= source.len(),
    ensures
        pull(source, pos) matches Pulled::Token { token, start, end } ==> pos <= start < end
            <= source.len(),
    decreases source.len() - pos,
{
    lemma_lexer_total(source, pos);
    match lex_at(source, pos) {
        Lexeme::Token { token, start, end } => {
            if token == TokenView::OpenComment {
                lemma_comment_end(source, end);
                match comment_end(source, end) {
                    Ok(after) => {
                        lemma_pull(source, after);
                    },
                    Err(_) => {},
                }
            }
        },
        _ => {},
    }
}

/// The tokens that a parser sees, and how they end.
pub struct TokenStream {
    /// The tokens in order, comments left out.
    pub tokens: Seq<TokenView>,
    /// For each token, the bytes of the source that it fills: from the first
    /// number up to the second.
    pub spans: Seq<(int, int)>,
    /// The error behind the last token, if the source does not simply end there.
    pub failure: Option<ParseErrorView>,
}

impl TokenStream {
    /// The token at the cursor, if the cursor is on one.
    pub open spec fn token_at(self, cursor: int) -> Option<TokenView> {
        if 0 <= cursor < self.tokens.len() {
            Some(self.tokens[cursor])
        } else {
            None
        }
    }

    /// The bytes that the token at the cursor fills, if the cursor is on a token.
    pub open spec fn span_at(self, cursor: int) -> Option<Range<usize>> {
        if 0 <= cursor < self.tokens.len() {
            Some(Range { start: self.spans[cursor].0 as usize, end: self.spans[cursor].1 as usize })
        } else {
            None
        }
    }

    /// Where the cursor stands after one step: on the next token, or behind the
    /// last one where the source ends; the stream's error where that comes next.
    pub open spec fn advance(self, cursor: int) -> Result<int, ParseErrorView> {
        if cursor + 1 < self.tokens.len() {
            Ok(cursor + 1)
        } else {
            match self.failure {
                Some(error) => Err(error),
                None => Ok(self.tokens.len() as int),
            }
        }
    }
}

/// The stream of tokens from `pos` on.
pub open spec fn stream_from(source: Seq<u8>, pos: int) -> TokenStream
    decreases source.len() - pos,
    when 0 <= pos <= source.len()
{
    match pull(source, pos) {
        Pulled::Eof => TokenStream { tokens: Seq::empty(), spans: Seq::empty(), failure: None },
        Pulled::Failed { error } => TokenStream {
            tokens: Seq::empty(),
            spans: Seq::empty(),
            failure: Some(error),
        },
        Pulled::Token { token, start, end } => {
            proof {
                lemma_pull(source, pos);
            }
            let rest = stream_from(source, end);
            TokenStream {
                tokens: seq![token] + rest.tokens,
                spans: seq![(start, end)] + rest.spans,
                failure: rest.failure,
            }
        },
    }
}

/// Every token of a stream has a span: it lies behind where the stream
/// starts and inside the source, it is not empty, and the spans follow each
/// other in the order of the tokens. So a stream holds at most as many tokens
/// as the source has bytes behind `pos`.
pub proof fn lemma_stream_spans(source: Seq<u8>, pos: int)
    requires
        0 <= pos <= source.len(),
    ensures
        stream_from(source, pos).spans.len() == stream_from(source, pos).tokens.len(),
        stream_from(source, pos).tokens.len() <= source.len() - pos,
        forall|i: int|
            0 <= i < stream_from(source, pos).spans.len() ==> {
                let span = #[trigger] stream_from(source, pos).spans[i];
                pos <= span.0 < span.1 <= source.len()
            },
        forall|i: int, j: int|
            0 <= i < j < stream_from(source, pos).spans.len() ==> (#[trigger] stream_from(
                source,
                pos,
            ).spans[i]).1 <= (#[trigger] stream_from(source, pos).spans[j]).0,
    decreases source.len() - pos,
{
    lemma_pull(source, pos);
    match pull(source, pos) {
        Pulled::Token { token, start, end } => {
            lemma_stream_spans(source, end);
            let rest = stream_from(source, end);
            let spans = stream_from(source, pos).spans;
            assert forall|i: int| 0 <= i < spans.len() implies {
                let span = #[trigger] spans[i];
                pos <= span.0 < span.1 <= source.len()
            } by {
                if i > 0 {
                    assert(spans[i] == rest.spans[i - 1]);
                }
            }
            assert forall|i: int, j: int| 0 <= i < j < spans.len() implies (#[trigger] spans[i]).1
                <= (#[trigger] spans[j]).0 by {
                assert(spans[j] == rest.spans[j - 1]);
                if i > 0 {
                    assert(spans[i] == rest.spans[i - 1]);
                }
            }
        },
        _ => {},
    }
}

/// A comment that ends was lexed token by token: where the lexer runs without
/// an error from behind the comment, it does so from inside it.
proof fn lemma_comment_is_lexed(source: Seq<u8>, pos: int)
    requires
        0 <= pos <= source.len(),
    ensures
        comment_end(source, pos) matches Ok(after) ==> (run_from(source, after).error is None
            ==> run_from(source, pos).error is None),
    decreases source.len() - pos,
{
    lemma_lexer_total(source, pos);
    match lex_at(source, pos) {
        Lexeme::Token { token, start, end } => {
            if token != TokenView::CloseComment {
                lemma_comment_is_lexed(source, end);
            }
        },
        _ => {},
    }
}

/// What is pulled was lexed: at the end of the source the lexer has run
/// without an error, and so it has up to a pulled token where it does so
/// behind the token.
proof fn lemma_pull_is_lexed(source: Seq<u8>, pos: int)
    requires
        0 <= pos <= source.len(),
    ensures
        match pull(source, pos) {
            Pulled::Eof => run_from(source, pos).error is None,
            Pulled::Token { token, start, end } => run_from(source, end).error is None
                ==> run_from(source, pos).error is None,
            Pulled::Failed { error } => true,
        },
    decreases source.len() - pos,
{
    lemma_lexer_total(source, pos);
    match lex_at(source, pos) {
        Lexeme::Token { token, start, end } => {
            if token == TokenView::OpenComment {
                lemma_comment_end(source, end);
                lemma_comment_is_lexed(source, end);
                match comment_end(source, end) {
                    Ok(after) => {
                        lemma_pull_is_lexed(source, after);
                        lemma_pull(source, after);
                    },
                    Err(_) => {},
                }
            }
        },
        _ => {},
    }
}

/// A stream that ends without a failure covers the source: the lexer has
/// run from `pos` to the end without an error, so that every byte behind `pos`
/// that is no whitespace lies in the span of exactly one token that was lexed,
/// be it a token of the stream or one inside a comment.
pub proof fn lemma_stream_covers(source: Seq<u8>, pos: int)
    requires
        0 <= pos <= source.len(),
        stream_from(source, pos).failure is None,
    ensures
        run_from(source, pos).error is None,
        forall|i: int|
            pos <= i < source.len() && !is_whitespace(#[trigger] source[i]) ==> exists|k: int|
                0 <= k < run_from(source, pos).spans.len() && #[trigger] in_span(
                    run_from(source, pos).spans[k],
                    i,
                ),
        forall|i: int, j: int, k: int|
            0 <= j < run_from(source, pos).spans.len() && 0 <= k < run_from(source, pos).spans.len()
                && #[trigger] in_span(run_from(source, pos).spans[j], i) && #[trigger] in_span(
                run_from(source, pos).spans[k],
                i,
            ) ==> j == k,
    decreases source.len() - pos,
{
    lemma_pull(source, pos);
    lemma_pull_is_lexed(source, pos);
    match pull(source, pos) {
        Pulled::Token { token, start, end } => {
            lemma_stream_covers(source, end);
        },
        _ => {},
    }
    lemma_lexer_run(source, pos);
}

/// The stream of tokens of a whole source.
pub open spec fn token_stream(source: Seq<u8>) -> TokenStream {
    stream_from(source, 0)
}

/// The value of an optional token.
pub open spec fn option_token_view(token: Option<Token>) -> Option<TokenView> {
    match token {
        Some(token) => Some(token@),
        None => None,
    }
}

/// A cursor over the tokens of a lexer. It keeps the token pulled last, skips
/// comments, and once pulling has failed it fails in the same way again.
pub struct ParserHelper<'ctx> {
    lexer: Lexer<'ctx>,
    current_tok: Option<(Token, Range<usize>)>,
    failure: Option<ParseError>,
    origin: Ghost<int>,
    cursor: Ghost<int>,
}

impl<'ctx> ParserHelper<'ctx> {
    /// The bytes of the source that the lexer of this cursor runs over.
    pub closed spec fn source(&self) -> Seq<u8> {
        self.lexer.source()
    }

    /// The tokens this cursor runs over: those of its lexer, from where the lexer
    /// stood when the cursor was made.
    pub closed spec fn stream(&self) -> TokenStream {
        stream_from(self.lexer.source(), self.origin@)
    }

    /// The index of the current token in the stream: `-1` before the first step,
    /// and the number of tokens once the source has ended.
    pub closed spec fn cursor(&self) -> int {
        self.cursor@
    }

    /// The index of the first token that has not been pulled.
    spec fn pending(&self) -> int {
        if self.cursor@ + 1 < self.stream().tokens.len() {
            self.cursor@ + 1
        } else {
            self.stream().tokens.len() as int
        }
    }

    /// The cursor agrees with its lexer.
    pub closed spec fn wf(&self) -> bool {
        let stream = self.stream();
        let source = self.lexer.source();
        &&& 0 <= self.origin@ <= source.len()
        &&& 0 <= self.lexer.position() <= source.len()
        &&& -1 <= self.cursor@ <= stream.tokens.len()
        &&& match self.current_tok {
            Some((token, span)) => {
                &&& 0 <= self.cursor@ < stream.tokens.len()
                &&& token@ == stream.tokens[self.cursor@]
                &&& stream.span_at(self.cursor@) == Some(span)
            },
            None => self.cursor@ == -1 || self.cursor@ == stream.tokens.len(),
        }
        &&& match self.failure {
            Some(error) => self.pending() == stream.tokens.len() && stream.failure == Some(error@),
            None => stream_from(source, self.lexer.position()) == (TokenStream {
                tokens: stream.tokens.skip(self.pending()),
                spans: stream.spans.skip(self.pending()),
                failure: stream.failure,
            }),
        }
    }

    /// The cursor of a cursor that agrees with its lexer stands before the
    /// first token, on a token, or behind the last one.
    pub proof fn lemma_cursor_in_stream(&self)
        requires
            self.wf(),
        ensures
            -1 <= self.cursor() <= self.stream().tokens.len(),
    {
    }

    /// Stepping ends: the stream holds at most as many tokens as the source
    /// has bytes. Each step that gives a token moves the cursor by one, so from
    /// before the first token the end of the source or an error comes after at
    /// most one step more than the source has bytes.
    pub proof fn lemma_steps_end(&self)
        requires
            self.wf(),
        ensures
            self.stream().tokens.len() <= self.source().len(),
    {
        lemma_stream_spans(self.lexer.source(), self.origin@);
    }

    /// The bytes of the source that the current token fills, if there is a
    /// current token.
    pub fn span(&self) -> (span: Option<Range<usize>>)
        requires
            self.wf(),
        ensures
            span == self.stream().span_at(self.cursor()),
    {
        match &self.current_tok {
            Some(current) => Some(Range { start: current.1.start, end: current.1.end }),
            None => None,
        }
    }

    /// A cursor before the first token that `lexer` has left.
    pub fn new(lexer: Lexer<'ctx>) -> (helper: ParserHelper<'ctx>)
        ensures
            helper.wf(),
            helper.source() == lexer.source(),
            helper.stream() == stream_from(lexer.source(), lexer.position()),
            helper.cursor() == -1,
    {
        let _ = lexer.span();
        let ghost origin = lexer.position();
        let helper = ParserHelper {
            lexer,
            current_tok: None,
            failure: None,
            origin: Ghost(origin),
            cursor: Ghost(-1),
        };
        assert(helper.stream().tokens.skip(0) =~= helper.stream().tokens);
        assert(helper.stream().spans.skip(0) =~= helper.stream().spans);
        helper
    }

    /// Records a failure and hands it out.
    fn fail(&mut self, error: ParseError) -> (failed: Result<Option<Token>, ParseError>)
        requires
            old(self).failure is None,
        ensures
            *final(self) == (ParserHelper { failure: final(self).failure, ..*old(self) }),
            final(self).failure matches Some(kept) && kept@ == error@,
            failed matches Err(given) && given@ == error@,
    {
        self.failure = Some(error.clone());
        Err(error)
    }

    /// Steps to the next token and returns it; `None` where the source has ended.
    /// A comment on the way is skipped, whatever tokens it holds. A lexer error
    /// on the way, also inside a comment, fails the step, and so does a comment
    /// that is never closed; the current token then stays.
    pub fn advance(&mut self) -> (pulled: Result<Option<Token>, ParseError>)
        requires
            old(self).wf(),
        ensures
            final(self).wf(),
            final(self).source() == old(self).source(),
            final(self).stream() == old(self).stream(),
            match old(self).stream().advance(old(self).cursor()) {
                Ok(cursor) => {
                    &&& pulled matches Ok(token)
                    &&& option_token_view(token) == old(self).stream().token_at(cursor)
                    &&& final(self).cursor() == cursor
                },
                Err(error) => {
                    &&& pulled matches Err(given)
                    &&& given@ == error
                    &&& final(self).cursor() == old(self).cursor()
                },
            },
    {
        if let Some(error) = &self.failure {
            return Err(error.clone());
        }
        let ghost source = self.lexer.source();
        let ghost from = self.lexer.position();
        let ghost stream = self.stream();
        loop
            invariant
                self.lexer.source() == source,
                0 <= self.lexer.position() <= source.len(),
                0 <= from <= source.len(),
                pull(source, self.lexer.position()) == pull(source, from),
                self.failure is None,
                self.current_tok == old(self).current_tok,
                self.origin == old(self).origin,
                self.cursor == old(self).cursor,
                old(self).wf(),
                old(self).failure is None,
                from == old(self).lexer.position(),
                source == old(self).lexer.source(),
                stream == old(self).stream(),
            decreases source.len() - self.lexer.position(),
        {
            let ghost here = self.lexer.position();
            proof {
                lemma_lexer_total(source, here);
                lemma_pull(source, from);
            }
            match self.lexer.next() {
                None => {
                    self.current_tok = None;
                    self.cursor = Ghost(stream.tokens.len() as int);
                    proof {
                        lemma_lexer_total(source, source.len() as int);
                        assert(stream.tokens.skip(old(self).pending()).len() == 0);
                        assert(stream.tokens.skip(stream.tokens.len() as int) =~= Seq::empty());
                        assert(pull(source, source.len() as int) == Pulled::Eof);
                    }
                    return Ok(None);
                },
                Some(Err(error)) => {
                    proof {
                        assert(stream.tokens.skip(old(self).pending()).len() == 0);
                    }
                    return self.fail(ParseError::LexerError(error));
                },
                Some(Ok(token)) => {
                    if let Token::OpenComment = token {
                        let ghost opened = self.lexer.position();
                        loop
                            invariant_except_break
                                self.lexer.source() == source,
                                opened <= self.lexer.position() <= source.len(),
                                comment_end(source, self.lexer.position()) == comment_end(
                                    source,
                                    opened,
                                ),
                            invariant
                                0 <= here < opened <= source.len(),
                                lex_at(source, here) matches Lexeme::Token { token, start, end }
                                    && token == TokenView::OpenComment && end == opened,
                                pull(source, here) == pull(source, from),
                                self.failure is None,
                                self.current_tok == old(self).current_tok,
                                self.origin == old(self).origin,
                                self.cursor == old(self).cursor,
                                old(self).wf(),
                                old(self).failure is None,
                                from == old(self).lexer.position(),
                                source == old(self).lexer.source(),
                                stream == old(self).stream(),
                            ensures
                                self.lexer.source() == source,
                                opened < self.lexer.position() <= source.len(),
                                comment_end(source, opened) == Ok::<int, ParseErrorView>(
                                    self.lexer.position(),
                                ),
                            decreases source.len() - self.lexer.position(),
                        {
                            proof {
                                lemma_lexer_total(source, self.lexer.position());
                                lemma_comment_end(source, opened);
                            }
                            match self.lexer.next() {
                                None => {
                                    proof {
                                        assert(stream.tokens.skip(old(self).pending()).len() == 0);
                                    }
                                    return self.fail(ParseError::UnclosedComment);
                                },
                                Some(Err(error)) => {
                                    proof {
                                        assert(stream.tokens.skip(old(self).pending()).len() == 0);
                                    }
                                    return self.fail(ParseError::LexerError(error));
                                },
                                Some(Ok(inner)) => {
                                    if let Token::CloseComment = inner {
                                        break ;
                                    }
                                },
                            }
                        }
                    } else {
                        let span = self.lexer.span();
                        proof {
                            let rest = stream_from(source, self.lexer.position());
                            let pending = old(self).pending();
                            let filled = (span.start as int, span.end as int);
                            lemma_stream_spans(source, old(self).origin@);
                            lemma_stream_spans(source, from);
                            assert(stream_from(source, from).tokens == seq![token@] + rest.tokens);
                            assert(stream_from(source, from).spans == seq![filled] + rest.spans);
                            assert(stream.tokens.skip(pending)[0] == token@);
                            assert(stream.spans.skip(pending)[0] == filled);
                            assert(rest.tokens =~= stream.tokens.skip(pending + 1)) by {
                                assert(rest.tokens =~= (seq![token@] + rest.tokens).skip(1));
                            }
                            assert(rest.spans =~= stream.spans.skip(pending + 1)) by {
                                assert(rest.spans =~= (seq![filled] + rest.spans).skip(1));
                            }
                        }
                        self.current_tok = Some((token.clone(), span));
                        self.cursor = Ghost(self.cursor@ + 1);
                        return Ok(Some(token));
                    }
                },
            }
        }
    }

    /// Steps to the next token, which must be there.
    pub fn advance_no_eof(&mut self) -> (pulled: Result<Token, ParseError>)
        requires
            old(self).wf(),
        ensures
            final(self).wf(),
            final(self).source() == old(self).source(),
            final(self).stream() == old(self).stream(),
            match old(self).stream().advance(old(self).cursor()) {
                Ok(cursor) => {
                    &&& final(self).cursor() == cursor
                    &&& match old(self).stream().token_at(cursor) {
                        Some(token) => pulled matches Ok(found) && found@ == token,
                        None => pulled matches Err(given) && given@
                            == ParseErrorView::UnexpectedEOF,
                    }
                },
                Err(error) => {
                    &&& pulled matches Err(given)
                    &&& given@ == error
                    &&& final(self).cursor() == old(self).cursor()
                },
            },
    {
        match self.advance() {
            Ok(Some(token)) => Ok(token),
            Ok(None) => Err(ParseError::UnexpectedEOF),
            Err(error) => Err(error),
        }
    }

    /// The current token; `UnexpectedEOF` where there is none.
    pub fn current(&self) -> (token: Result<Token, ParseError>)
        requires
            self.wf(),
        ensures
            match self.stream().token_at(self.cursor()) {
                Some(current) => token matches Ok(found) && found@ == current,
                None => token matches Err(given) && given@ == ParseErrorView::UnexpectedEOF,
            },
    {
        match &self.current_tok {
            Some(current) => Ok(current.0.clone()),
            None => Err(ParseError::UnexpectedEOF),
        }
    }

    /// Checks that the current token is `expected`, without consuming it.
    pub fn expect(&self, expected: Token) -> (checked: Result<(), ParseError>)
        requires
            self.wf(),
        ensures
            match self.stream().token_at(self.cursor()) {
                Some(current) => if current == expected@ {
                    checked is Ok
                } else {
                    checked matches Err(given) && given@ == ParseErrorView::UnexpectedToken(
                        current,
                    )
                },
                None => checked matches Err(given) && given@ == ParseErrorView::UnexpectedEOF,
            },
    {
        let token = self.current()?;
        if !token.same(&expected) {
            return Err(ParseError::UnexpectedToken(token));
        }
        Ok(())
    }
}

} // verus!
