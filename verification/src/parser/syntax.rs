//! The grammar, as functions from a token stream and a cursor to what is
//! parsed there and where the cursor then stands.
//!
//! ```text
//! program    := top_level*
//! top_level  := fn_def
//! fn_def     := 'fn' IDENT '(' typed_args ')' ('->' type)? block
//! typed_args := (IDENT ':' type (',' IDENT ':' type)*)?
//! block      := '{' statement* '}'
//! statement  := expr ';'
//! expr       := NUMBER | IDENT | 'return' expr
//! type       := IDENT | '(' ')'
//! ```
//!
//! A construct is parsed with the cursor on its first token, and the cursor is
//! left on the first token behind it. A mismatch is the error
//! `UnexpectedToken` with the token found, and the end of the source where a
//! token is needed is `UnexpectedEOF`.

use std::ops::Range;
use vstd::prelude::*;

use crate::ast::{
    expr_spans_within, is_function, is_plain_expr, is_program, named_type, spans_within,
    top_level_spans_within, unit_type, BlockView, ExprKindView, ExprView, FunctionDefView,
    Literal, TopLevelKindView, TopLevelView, TypeView, WrappedView,
};
use crate::helper::{pull, token_stream, ParseErrorView, Pulled, TokenStream};
use crate::lexer::{lex_at, whitespace_end, Lexeme, TokenView};

verus! {
/// The span that the parser gives every node: the empty one at the start of the source.
pub open spec fn no_span() -> Range<usize> {
    Range { start: 0, end: 0 }
}

/// A node as the parser makes it: without a type.
pub open spec fn untyped<K>(kind: K) -> WrappedView<K> {
    WrappedView { kind, span: no_span(), ty: None }
}

/// What parsing a construct gives: its value and where the cursor then stands.
pub type Parsed<T> = Result<(T, int), ParseErrorView>;

/// Checks that the token at the cursor is `expected`.
pub open spec fn expect_at(stream: TokenStream, cursor: int, expected: TokenView) -> Result<
    (),
    ParseErrorView,
> {
    match stream.token_at(cursor) {
        Some(token) => if token == expected {
            Ok(())
        } else {
            Err(ParseErrorView::UnexpectedToken(token))
        },
        None => Err(ParseErrorView::UnexpectedEOF),
    }
}

/// Checks that the token at the cursor is `expected` and steps over it.
pub open spec fn skip_token(stream: TokenStream, cursor: int, expected: TokenView) -> Result<
    int,
    ParseErrorView,
> {
    match expect_at(stream, cursor, expected) {
        Ok(()) => stream.advance(cursor),
        Err(error) => Err(error),
    }
}

/// `type := IDENT | '(' ')'`
pub open spec fn parse_type_at(stream: TokenStream, cursor: int) -> Parsed<TypeView> {
    match stream.token_at(cursor) {
        None => Err(ParseErrorView::UnexpectedEOF),
        Some(TokenView::Ident(name)) => match stream.advance(cursor) {
            Ok(next) => match named_type(name) {
                Some(ty) => Ok((ty, next)),
                None => Err(ParseErrorView::UnexpectedToken(TokenView::Ident(name))),
            },
            Err(error) => Err(error),
        },
        Some(TokenView::LeftParen) => match stream.advance(cursor) {
            Ok(next) => match skip_token(stream, next, TokenView::RightParen) {
                Ok(after) => Ok((unit_type(), after)),
                Err(error) => Err(error),
            },
            Err(error) => Err(error),
        },
        Some(token) => Err(ParseErrorView::UnexpectedToken(token)),
    }
}

/// `expr := NUMBER | IDENT | 'return' expr`
pub open spec fn parse_expr_at(stream: TokenStream, cursor: int) -> Parsed<ExprView>
    decreases stream.tokens.len() - cursor,
{
    match stream.token_at(cursor) {
        None => Err(ParseErrorView::UnexpectedEOF),
        Some(TokenView::NumberLit(number)) => match stream.advance(cursor) {
            Ok(next) => Ok((untyped(ExprKindView::Literal(Literal::Number(number))), next)),
            Err(error) => Err(error),
        },
        Some(TokenView::Ident(name)) => match stream.advance(cursor) {
            Ok(next) => Ok((untyped(ExprKindView::Variable(name)), next)),
            Err(error) => Err(error),
        },
        Some(TokenView::KwReturn) => match stream.advance(cursor) {
            Ok(next) => match parse_expr_at(stream, next) {
                Ok((inner, after)) => Ok(
                    (untyped(ExprKindView::Return(Some(Box::new(inner)))), after),
                ),
                Err(error) => Err(error),
            },
            Err(error) => Err(error),
        },
        Some(token) => Err(ParseErrorView::UnexpectedToken(token)),
    }
}

/// `statement := expr ';'`
pub open spec fn parse_statement_at(stream: TokenStream, cursor: int) -> Parsed<ExprView> {
    match parse_expr_at(stream, cursor) {
        Ok((expr, next)) => match skip_token(stream, next, TokenView::Semicolon) {
            Ok(after) => Ok((expr, after)),
            Err(error) => Err(error),
        },
        Err(error) => Err(error),
    }
}

/// An expression ends behind where it starts.
pub proof fn lemma_expr_advances(stream: TokenStream, cursor: int)
    ensures
        parse_expr_at(stream, cursor) matches Ok((expr, after)) ==> cursor < after
            <= stream.tokens.len(),
    decreases stream.tokens.len() - cursor,
{
    if stream.token_at(cursor) == Some(TokenView::KwReturn) {
        if let Ok(next) = stream.advance(cursor) {
            lemma_expr_advances(stream, next);
        }
    }
}

/// `statement*`, up to a `}` that is left for the caller.
pub open spec fn parse_statements_at(stream: TokenStream, cursor: int) -> Parsed<Seq<ExprView>>
    decreases stream.tokens.len() - cursor,
{
    match stream.token_at(cursor) {
        None => Err(ParseErrorView::UnexpectedEOF),
        Some(TokenView::RightBrace) => Ok((Seq::empty(), cursor)),
        Some(_) => match parse_statement_at(stream, cursor) {
            Ok((statement, next)) => {
                proof {
                    lemma_expr_advances(stream, cursor);
                }
                match parse_statements_at(stream, next) {
                    Ok((rest, after)) => Ok((seq![statement] + rest, after)),
                    Err(error) => Err(error),
                }
            },
            Err(error) => Err(error),
        },
    }
}

/// `block := '{' statement* '}'`
pub open spec fn parse_block_at(stream: TokenStream, cursor: int) -> Parsed<BlockView> {
    match skip_token(stream, cursor, TokenView::LeftBrace) {
        Ok(next) => match parse_statements_at(stream, next) {
            Ok((statements, closing)) => match stream.advance(closing) {
                Ok(after) => Ok((BlockView { statements, attributes: Seq::empty() }, after)),
                Err(error) => Err(error),
            },
            Err(error) => Err(error),
        },
        Err(error) => Err(error),
    }
}

/// `IDENT ':' type (',' IDENT ':' type)*`
pub open spec fn parse_argument_list_at(stream: TokenStream, cursor: int) -> Parsed<
    Seq<(Seq<char>, TypeView)>,
>
    decreases stream.tokens.len() - cursor,
{
    match stream.token_at(cursor) {
        None => Err(ParseErrorView::UnexpectedEOF),
        Some(TokenView::Ident(name)) => match stream.advance(cursor) {
            Ok(colon) => match skip_token(stream, colon, TokenView::Colon) {
                Ok(start) => match parse_type_at(stream, start) {
                    Ok((ty, next)) => {
                        if stream.token_at(next) == Some(TokenView::Comma) {
                            match stream.advance(next) {
                                Ok(more) => match parse_argument_list_at(stream, more) {
                                    Ok((rest, after)) => Ok((seq![(name, ty)] + rest, after)),
                                    Err(error) => Err(error),
                                },
                                Err(error) => Err(error),
                            }
                        } else {
                            Ok((seq![(name, ty)], next))
                        }
                    },
                    Err(error) => Err(error),
                },
                Err(error) => Err(error),
            },
            Err(error) => Err(error),
        },
        Some(token) => Err(ParseErrorView::UnexpectedToken(token)),
    }
}

/// `typed_args := (IDENT ':' type (',' IDENT ':' type)*)?`
pub open spec fn parse_typed_arguments_at(stream: TokenStream, cursor: int) -> Parsed<
    Seq<(Seq<char>, TypeView)>,
> {
    match stream.token_at(cursor) {
        Some(TokenView::Ident(_)) => parse_argument_list_at(stream, cursor),
        _ => Ok((Seq::empty(), cursor)),
    }
}

/// `('->' type)?`
pub open spec fn parse_return_type_at(stream: TokenStream, cursor: int) -> Parsed<
    Option<TypeView>,
> {
    match stream.token_at(cursor) {
        Some(TokenView::Arrow) => match stream.advance(cursor) {
            Ok(start) => match parse_type_at(stream, start) {
                Ok((ty, after)) => Ok((Some(ty), after)),
                Err(error) => Err(error),
            },
            Err(error) => Err(error),
        },
        _ => Ok((None, cursor)),
    }
}

/// The name of a function: the identifier at the cursor.
pub open spec fn parse_name_at(stream: TokenStream, cursor: int) -> Parsed<Seq<char>> {
    match stream.token_at(cursor) {
        None => Err(ParseErrorView::UnexpectedEOF),
        Some(TokenView::Ident(name)) => match stream.advance(cursor) {
            Ok(next) => Ok((name, next)),
            Err(error) => Err(error),
        },
        Some(token) => Err(ParseErrorView::UnexpectedToken(token)),
    }
}

/// `fn_def := 'fn' IDENT '(' typed_args ')' ('->' type)? block`
pub open spec fn parse_function_def_at(stream: TokenStream, cursor: int) -> Parsed<ExprView> {
    match skip_token(stream, cursor, TokenView::KwFn) {
        Ok(at_name) => match parse_name_at(stream, at_name) {
            Ok((name, at_paren)) => match skip_token(stream, at_paren, TokenView::LeftParen) {
                Ok(at_arguments) => match parse_typed_arguments_at(stream, at_arguments) {
                    Ok((arguments, at_close)) => match skip_token(
                        stream,
                        at_close,
                        TokenView::RightParen,
                    ) {
                        Ok(at_return) => match parse_return_type_at(stream, at_return) {
                            Ok((return_ty, at_body)) => match parse_block_at(stream, at_body) {
                                Ok((body, after)) => Ok(
                                    (
                                        untyped(
                                            ExprKindView::FunctionDef(
                                                FunctionDefView {
                                                    name,
                                                    arguments,
                                                    return_ty,
                                                    attributes: Seq::empty(),
                                                    body,
                                                },
                                            ),
                                        ),
                                        after,
                                    ),
                                ),
                                Err(error) => Err(error),
                            },
                            Err(error) => Err(error),
                        },
                        Err(error) => Err(error),
                    },
                    Err(error) => Err(error),
                },
                Err(error) => Err(error),
            },
            Err(error) => Err(error),
        },
        Err(error) => Err(error),
    }
}

/// A list of statements ends behind where it starts, or there, on a token.
pub proof fn lemma_statements_advance(stream: TokenStream, cursor: int)
    ensures
        parse_statements_at(stream, cursor) matches Ok((statements, after)) ==> cursor <= after
            < stream.tokens.len(),
    decreases stream.tokens.len() - cursor,
{
    lemma_expr_advances(stream, cursor);
    if let Ok((statement, next)) = parse_statement_at(stream, cursor) {
        if stream.token_at(cursor) is Some && stream.token_at(cursor) != Some(
            TokenView::RightBrace,
        ) {
            lemma_statements_advance(stream, next);
        }
    }
}

/// A list of arguments ends behind where it starts.
pub proof fn lemma_argument_list_advances(stream: TokenStream, cursor: int)
    ensures
        parse_argument_list_at(stream, cursor) matches Ok((arguments, after)) ==> cursor < after,
    decreases stream.tokens.len() - cursor,
{
    if let Some(TokenView::Ident(name)) = stream.token_at(cursor) {
        if let Ok(colon) = stream.advance(cursor) {
            if let Ok(start) = skip_token(stream, colon, TokenView::Colon) {
                if let Ok((ty, next)) = parse_type_at(stream, start) {
                    if stream.token_at(next) == Some(TokenView::Comma) {
                        if let Ok(more) = stream.advance(next) {
                            lemma_argument_list_advances(stream, more);
                        }
                    }
                }
            }
        }
    }
}

/// A function definition ends behind where it starts.
pub proof fn lemma_function_def_advances(stream: TokenStream, cursor: int)
    ensures
        parse_function_def_at(stream, cursor) matches Ok((def, after)) ==> cursor < after,
{
    if let Ok(at_name) = skip_token(stream, cursor, TokenView::KwFn) {
        if let Ok((name, at_paren)) = parse_name_at(stream, at_name) {
            if let Ok(at_arguments) = skip_token(stream, at_paren, TokenView::LeftParen) {
                lemma_argument_list_advances(stream, at_arguments);
                if let Ok((arguments, at_close)) = parse_typed_arguments_at(stream, at_arguments) {
                    if let Ok(at_return) = skip_token(stream, at_close, TokenView::RightParen) {
                        if let Ok((return_ty, at_body)) = parse_return_type_at(stream, at_return) {
                            if let Ok(next) = skip_token(stream, at_body, TokenView::LeftBrace) {
                                lemma_statements_advance(stream, next);
                            }
                        }
                    }
                }
            }
        }
    }
}

/// `top_level*`, up to the end of the source.
pub open spec fn parse_top_levels_at(stream: TokenStream, cursor: int) -> Result<
    Seq<TopLevelView>,
    ParseErrorView,
>
    decreases stream.tokens.len() - cursor,
{
    match stream.token_at(cursor) {
        None => Ok(Seq::empty()),
        Some(TokenView::KwFn) => match parse_function_def_at(stream, cursor) {
            Ok((def, next)) => {
                proof {
                    lemma_function_def_advances(stream, cursor);
                }
                match parse_top_levels_at(stream, next) {
                    Ok(rest) => Ok(seq![untyped(TopLevelKindView::Expr(def))] + rest),
                    Err(error) => Err(error),
                }
            },
            Err(error) => Err(error),
        },
        Some(token) => Err(ParseErrorView::UnexpectedToken(token)),
    }
}

/// `program := top_level*`: what a parser makes of its stream when its cursor
/// stands before the first token to read.
pub open spec fn parse_program(stream: TokenStream, cursor: int) -> Result<
    Seq<TopLevelView>,
    ParseErrorView,
> {
    match stream.advance(cursor) {
        Ok(first) => parse_top_levels_at(stream, first),
        Err(error) => Err(error),
    }
}

/// What an expression of the grammar is like: it holds no function
/// definition, and its spans lie within every source.
pub proof fn lemma_parsed_expr(stream: TokenStream, cursor: int, length: nat)
    ensures
        parse_expr_at(stream, cursor) matches Ok((expr, after)) ==> is_plain_expr(expr)
            && expr_spans_within(expr, length),
    decreases stream.tokens.len() - cursor,
{
    if stream.token_at(cursor) == Some(TokenView::KwReturn) {
        if let Ok(next) = stream.advance(cursor) {
            lemma_parsed_expr(stream, next, length);
        }
    }
}

/// What the statements of a block of the grammar are like.
pub proof fn lemma_parsed_statements(stream: TokenStream, cursor: int, length: nat)
    ensures
        parse_statements_at(stream, cursor) matches Ok((statements, after)) ==> forall|i: int|
            0 <= i < statements.len() ==> is_plain_expr(#[trigger] statements[i])
                && expr_spans_within(statements[i], length),
    decreases stream.tokens.len() - cursor,
{
    lemma_expr_advances(stream, cursor);
    lemma_parsed_expr(stream, cursor, length);
    if stream.token_at(cursor) is Some && stream.token_at(cursor) != Some(TokenView::RightBrace) {
        if let Ok((statement, next)) = parse_statement_at(stream, cursor) {
            lemma_parsed_statements(stream, next, length);
            if let Ok((rest, after)) = parse_statements_at(stream, next) {
                let statements = seq![statement] + rest;
                assert forall|i: int| 0 <= i < statements.len() implies is_plain_expr(
                    #[trigger] statements[i],
                ) && expr_spans_within(statements[i], length) by {
                    if i > 0 {
                        assert(statements[i] == rest[i - 1]);
                    }
                }
            }
        }
    }
}

/// What a function definition of the grammar is like.
pub proof fn lemma_parsed_function_def(stream: TokenStream, cursor: int, length: nat)
    ensures
        parse_function_def_at(stream, cursor) matches Ok((def, after)) ==> {
            &&& is_function(untyped(TopLevelKindView::Expr(def)))
            &&& top_level_spans_within(untyped(TopLevelKindView::Expr(def)), length)
        },
{
    if let Ok(at_name) = skip_token(stream, cursor, TokenView::KwFn) {
        if let Ok((name, at_paren)) = parse_name_at(stream, at_name) {
            if let Ok(at_arguments) = skip_token(stream, at_paren, TokenView::LeftParen) {
                if let Ok((arguments, at_close)) = parse_typed_arguments_at(stream, at_arguments) {
                    if let Ok(at_return) = skip_token(stream, at_close, TokenView::RightParen) {
                        if let Ok((return_ty, at_body)) = parse_return_type_at(stream, at_return) {
                            if let Ok(next) = skip_token(stream, at_body, TokenView::LeftBrace) {
                                lemma_parsed_statements(stream, next, length);
                            }
                        }
                    }
                }
            }
        }
    }
}

/// What the top levels of the grammar are like.
pub proof fn lemma_parsed_top_levels(stream: TokenStream, cursor: int, length: nat)
    ensures
        parse_top_levels_at(stream, cursor) matches Ok(program) ==> is_program(program)
            && spans_within(program, length),
    decreases stream.tokens.len() - cursor,
{
    if stream.token_at(cursor) == Some(TokenView::KwFn) {
        lemma_function_def_advances(stream, cursor);
        lemma_parsed_function_def(stream, cursor, length);
        if let Ok((def, next)) = parse_function_def_at(stream, cursor) {
            lemma_parsed_top_levels(stream, next, length);
            if let Ok(rest) = parse_top_levels_at(stream, next) {
                let program = seq![untyped(TopLevelKindView::Expr(def))] + rest;
                assert forall|i: int| 0 <= i < program.len() implies is_function(
                    #[trigger] program[i],
                ) && top_level_spans_within(program[i], length) by {
                    if i > 0 {
                        assert(program[i] == rest[i - 1]);
                    }
                }
            }
        }
    }
}

/// Every program that the parser makes is well formed: each top level is a
/// function definition whose statements define no functions, and every span
/// lies within the source, whatever its length.
pub proof fn lemma_parsed_program(stream: TokenStream, cursor: int, length: nat)
    ensures
        parse_program(stream, cursor) matches Ok(program) ==> is_program(program) && spans_within(
            program,
            length,
        ),
{
    if let Ok(first) = stream.advance(cursor) {
        lemma_parsed_top_levels(stream, first, length);
    }
}

/// The items parsed so far, put before what parsing the rest gives.
pub open spec fn prepend<T>(prefix: Seq<T>, rest: Parsed<Seq<T>>) -> Parsed<Seq<T>> {
    match rest {
        Ok((items, after)) => Ok((prefix + items, after)),
        Err(error) => Err(error),
    }
}

/// The top levels parsed so far, put before what parsing the rest gives.
pub open spec fn prepend_top_levels(
    prefix: Seq<TopLevelView>,
    rest: Result<Seq<TopLevelView>, ParseErrorView>,
) -> Result<Seq<TopLevelView>, ParseErrorView> {
    match rest {
        Ok(items) => Ok(prefix + items),
        Err(error) => Err(error),
    }
}

/// The program of the empty source is the empty program.
pub proof fn lemma_empty_source()
    ensures
        parse_program(token_stream(Seq::empty()), -1) == Ok::<
            Seq<TopLevelView>,
            ParseErrorView,
        >(Seq::empty()),
{
    let source = Seq::<u8>::empty();
    assert(whitespace_end(source, 0) == 0);
    assert(lex_at(source, 0) == Lexeme::End);
    assert(pull(source, 0) == Pulled::Eof);
    assert(token_stream(source).tokens.len() == 0);
}

} // verus!
