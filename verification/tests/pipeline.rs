use redox::helper::ParseError;
use redox::lexer::{IntErrorKind, LexerError, Token};
use redox::ast::{NumberType, Type};
use redox::pipeline::{compile, compile_to_text, CompileError};
use redox::type_checker::TypeCheckError;

#[test]
fn a_function_without_return_type_parses_and_fails_the_type_check() {
    assert_eq!(
        compile_to_text("fn foo() {}", "main"),
        Err(CompileError::TypeCheck(TypeCheckError::UnableToInferType))
    );
    assert_eq!(
        compile_to_text("fn main() {}", "main"),
        Err(CompileError::TypeCheck(TypeCheckError::UnableToInferType))
    );
}

#[test]
fn a_function_that_returns_zero_compiles() {
    assert_eq!(
        compile_to_text("fn main() -> i32 { return 0; }", "main"),
        Ok("module main\nfn i32 main () {\n@0:\n    return i32 0i32\n}\n".to_string())
    );
}

#[test]
fn a_function_that_returns_its_argument_compiles() {
    assert_eq!(
        compile_to_text("fn add(x: i32) -> i32 { return x; }", "main"),
        Ok("module main\nfn i32 add (%1: i32) {\n@0:\n    return i32 %1\n}\n".to_string())
    );
}

#[test]
fn a_function_that_does_not_return_fails_the_type_check() {
    assert_eq!(
        compile_to_text("fn ret() -> i32 { }", "main"),
        Err(CompileError::TypeCheck(TypeCheckError::IncompatibleTypes {
            expected: Type::Number(NumberType::int32()),
            found: Type::empty(),
        }))
    );
}

#[test]
fn an_unknown_variable_fails_the_type_check() {
    assert_eq!(
        compile_to_text("fn bad() -> i32 { return y; }", "main"),
        Err(CompileError::TypeCheck(TypeCheckError::UnknownVariable("y".to_string())))
    );
}

#[test]
fn a_missing_colon_fails_the_parse() {
    assert_eq!(
        compile_to_text("fn foo(x i32) {}", "main"),
        Err(CompileError::Parse(ParseError::UnexpectedToken(Token::Ident("i32".to_string()))))
    );
}

#[test]
fn the_empty_source_compiles_to_the_empty_module() {
    assert_eq!(compile_to_text("", "empty"), Ok("module empty\n".to_string()));
}

#[test]
fn errors_of_each_phase_come_out() {
    assert_eq!(compile_to_text("/*", "m"), Err(CompileError::Parse(ParseError::UnclosedComment)));
    assert_eq!(compile_to_text("fn", "m"), Err(CompileError::Parse(ParseError::UnexpectedEOF)));
    assert_eq!(
        compile_to_text("fn f() -> i32 { return 18446744073709551616; }", "m"),
        Err(CompileError::Parse(ParseError::LexerError(LexerError::ParseIntError(
            IntErrorKind::PosOverflow
        ))))
    );
    assert_eq!(
        compile_to_text("fn f() -> i32 { return 1; }", "caf\u{e9}"),
        Err(CompileError::Unsupported)
    );
    assert_eq!(compile_to_text("fn f(x: i32) -> i32 { x; return x; }", "m"), Err(CompileError::Unsupported));
    assert_eq!(compile_to_text("fn f() -> u64 { return 1; }", "m"), Err(CompileError::Unsupported));
}

#[test]
fn compiling_twice_prints_the_same() {
    let source = "fn a(x: i32, y: i32) -> i32 { return y; } fn b() -> () { return 2; }";
    assert_eq!(compile_to_text(source, "m"), compile_to_text(source, "m"));
    let module = compile(source, "m").unwrap();
    assert!(module.has_text());
    assert_eq!(Ok(module.to_string()), compile_to_text(source, "m"));
}
