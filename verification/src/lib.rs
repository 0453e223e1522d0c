//! A small ahead-of-time compiler front end: source text is lexed, parsed into
//! a span-wrapped syntax tree, type checked, and lowered to RXIR, a
//! three-address intermediate representation with a stable textual form.
//!
//! The phases, in the order in which a source passes through them:
//!
//! - [`lexer`]: source bytes to tokens with byte spans.
//! - [`helper`]: a cursor over the lexer with one token of lookahead, which
//!   skips comments.
//! - [`grammar`]: rules made of alternatives, the pattern that selects each
//!   alternative, the steps of its body, and the notation for rules.
//! - [`parser`]: the grammar of the language and the parser for it.
//! - [`ast`]: the syntax tree.
//! - [`type_checker`]: the typing rules.
//! - [`ir_generator`]: from the typed tree to an RXIR module.
//! - [`rxir`]: modules, functions, blocks and instructions, the builder that
//!   makes them, their textual form, and passes over them.
//! - [`pipeline`]: all of it, from source text to module.
//!
//! Every executable function states what it returns over the mathematical
//! value of its arguments: each type has a view, and each phase a function
//! that says what the phase makes of a value.

pub mod ast;
pub mod codegen;
pub mod grammar;
pub mod helper;
pub mod ir_generator;
pub mod lexer;
pub mod parser;
pub mod pipeline;
pub mod rxir;
pub mod table;
pub mod text;
pub mod type_checker;
