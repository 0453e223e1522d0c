//! The pipeline from source text to an RXIR module: parse, type check, lower.

use vstd::prelude::*;
use vstd::string::{StringExecFns, StringSliceAdditionalSpecFns};

use crate::helper::{token_stream, ParseError, ParseErrorView};
use crate::ir_generator::{generated, lemma_generated_module, IrGenerator, ModuleOps};
use crate::parser::parse;
use crate::parser::syntax::parse_program;
use crate::rxir::{is_closed_module, module_has_text, module_text, Module, ModuleView};
use crate::type_checker::{check_program, TypeCheckError, TypeCheckErrorView, TypeChecker};

verus! {

/// Why a source does not compile.
#[derive(Debug, PartialEq)]
pub enum CompileError {
    /// The source does not parse.
    Parse(ParseError),
    /// The program does not type check.
    TypeCheck(TypeCheckError),
    /// The program uses what cannot be lowered: another statement than a
    /// `return` of a literal or an argument, another type than `i32` and the
    /// unit type, or a name that is not ASCII.
    Unsupported,
}

/// The mathematical value of a [`CompileError`].
pub enum CompileErrorView {
    Parse(ParseErrorView),
    TypeCheck(TypeCheckErrorView),
    Unsupported,
}

impl View for CompileError {
    type V = CompileErrorView;

    open spec fn view(&self) -> CompileErrorView {
        match self {
            CompileError::Parse(error) => CompileErrorView::Parse(error@),
            CompileError::TypeCheck(error) => CompileErrorView::TypeCheck(error@),
            CompileError::Unsupported => CompileErrorView::Unsupported,
        }
    }
}

/// The module that a source compiles to under a name, or the error of the
/// first phase that fails.
pub open spec fn compiled(source: Seq<u8>, name: Seq<char>) -> Result<
    ModuleView,
    CompileErrorView,
> {
    match parse_program(token_stream(source), -1) {
        Err(error) => Err(CompileErrorView::Parse(error)),
        Ok(program) => match check_program(program) {
            Err(error) => Err(CompileErrorView::TypeCheck(error)),
            Ok(checked) => match generated(name, checked) {
                Some(module) => Ok(module),
                None => Err(CompileErrorView::Unsupported),
            },
        },
    }
}

/// Compiles a source to the module of the name. The module has a textual
/// form, and each function of it has its entry block and uses only
/// temporaries that are defined where it uses them.
pub fn compile(source: &str, name: &str) -> (outcome: Result<Module, CompileError>)
    ensures
        match compiled(source.spec_bytes(), name@) {
            Ok(module) => outcome matches Ok(found) && found@ == module,
            Err(error) => outcome matches Err(given) && given@ == error,
        },
        outcome matches Ok(module) ==> module_has_text(module@) && is_closed_module(module@),
{
    let mut ast = match parse(source) {
        Ok(ast) => ast,
        Err(error) => {
            return Err(CompileError::Parse(error));
        },
    };
    match TypeChecker::new().type_check(&mut ast) {
        Ok(()) => {},
        Err(error) => {
            return Err(CompileError::TypeCheck(error));
        },
    }
    let ops = ModuleOps { name: String::from_str(name) };
    if !IrGenerator::can_generate(&ops, &ast) {
        return Err(CompileError::Unsupported);
    }
    Ok(IrGenerator::new().generate_module(ops, ast))
}

/// Compiles a source and prints the module of the name in its textual form.
pub fn compile_to_text(source: &str, name: &str) -> (outcome: Result<String, CompileError>)
    ensures
        match compiled(source.spec_bytes(), name@) {
            Ok(module) => outcome matches Ok(text) && text@ == module_text(module),
            Err(error) => outcome matches Err(given) && given@ == error,
        },
{
    match compile(source, name) {
        Ok(module) => Ok(module.to_string()),
        Err(error) => Err(error),
    }
}

/// Every module that a source compiles to has a textual form, and every
/// function of it has its entry block in the module and uses only temporaries
/// that are defined where it uses them.
pub proof fn lemma_compiled_module(source: Seq<u8>, name: Seq<char>)
    ensures
        compiled(source, name) matches Ok(module) ==> module_has_text(module) && is_closed_module(
            module,
        ),
{
    match parse_program(token_stream(source), -1) {
        Ok(program) => match check_program(program) {
            Ok(checked) => {
                lemma_generated_module(name, checked);
            },
            Err(_) => {},
        },
        Err(_) => {},
    }
}

/// Compiling is deterministic: sources of the same bytes compile, under one
/// name, to modules that are printed alike, or fail alike.
pub proof fn lemma_compiling_is_deterministic(
    first: Seq<u8>,
    second: Seq<u8>,
    name: Seq<char>,
)
    requires
        first == second,
    ensures
        compiled(first, name) == compiled(second, name),
        compiled(first, name) matches Ok(module) ==> module_text(module) == module_text(
            compiled(second, name)->Ok_0,
        ),
{
}

} // verus!
