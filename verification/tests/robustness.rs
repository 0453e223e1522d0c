use redox::ast::is_valid_program;
use redox::helper::{ParseError, ParserHelper};
use redox::ir_generator::{IrGenerator, ModuleOps};
use redox::lexer::{Lexer, Token};
use redox::parser::parse;
use redox::pipeline::{compile_to_text, CompileError};
use redox::type_checker::TypeChecker;

struct Random(u64);

impl Random {
    fn next(&mut self) -> u64 {
        self.0 = self.0.wrapping_mul(6364136223846793005).wrapping_add(1442695040888963407);
        self.0 >> 33
    }

    fn below(&mut self, bound: usize) -> usize {
        (self.next() % bound as u64) as usize
    }
}

const PIECES: [&str; 28] = [
    "fn", "return", ";", ":", ",", "(", ")", "{", "}", "->", "/*", "*/", " ", "\n", "\t", "x", "main",
    "i32", "()", "0", "42", "0x1f", "18446744073709551616", "@", "-", "é", "_a1", "u64",
];

fn source(random: &mut Random) -> String {
    let mut text = String::new();
    for _ in 0..random.below(24) {
        text.push_str(PIECES[random.below(PIECES.len())]);
        if random.below(2) == 0 {
            text.push(' ');
        }
    }
    text
}

fn program(random: &mut Random) -> String {
    let types = ["i32", "()", "i64", "u32"];
    let names = ["a", "b", "c", "main"];
    let mut text = String::new();
    for _ in 0..random.below(4) {
        text.push_str("fn ");
        text.push_str(names[random.below(names.len())]);
        text.push('(');
        let arguments = random.below(3);
        for i in 0..arguments {
            if i > 0 {
                text.push_str(", ");
            }
            text.push_str(names[random.below(3)]);
            text.push_str(": ");
            text.push_str(types[random.below(types.len())]);
        }
        text.push(')');
        if random.below(4) > 0 {
            text.push_str(" -> ");
            text.push_str(types[random.below(types.len())]);
        }
        text.push_str(" {");
        for _ in 0..random.below(4) {
            match random.below(5) {
                0 => text.push_str(" return 7;"),
                1 => text.push_str(" return a;"),
                2 => text.push_str(" b;"),
                3 => text.push_str(" /* note */ return return c;"),
                _ => text.push_str(" 12;"),
            }
        }
        text.push_str(" }\n");
    }
    text
}

#[test]
fn the_lexer_covers_every_source() {
    let mut random = Random(1);
    for _ in 0..3000 {
        let text = source(&mut random);
        let mut lexer = Lexer::new(&text);
        let mut covered = 0;
        while let Some(_) = lexer.next() {
            let span = lexer.span();
            assert!(covered <= span.start && span.start < span.end && span.end <= text.len());
            assert!(text.as_bytes()[covered..span.start]
                .iter()
                .all(|byte| matches!(byte, b' ' | b'\t'..=b'\r')));
            covered = span.end;
        }
        assert!(text.as_bytes()[covered..].iter().all(|byte| matches!(byte, b' ' | b'\t'..=b'\r')));
        assert_eq!(lexer.span(), text.len()..text.len());
    }
}

#[test]
fn the_cursor_hands_out_no_opened_comment() {
    let mut random = Random(2);
    for _ in 0..3000 {
        let text = source(&mut random);
        let mut cursor = ParserHelper::new(Lexer::new(&text));
        let mut last = 0;
        loop {
            match cursor.advance() {
                Ok(Some(token)) => {
                    assert_ne!(token, Token::OpenComment);
                    assert_eq!(cursor.current(), Ok(token));
                    let span = cursor.span().unwrap();
                    assert!(last <= span.start && span.start < span.end && span.end <= text.len());
                    last = span.end;
                }
                Ok(None) => {
                    assert_eq!(cursor.current(), Err(ParseError::UnexpectedEOF));
                    assert_eq!(cursor.advance(), Ok(None));
                    break;
                }
                Err(error) => {
                    assert_eq!(cursor.advance(), Err(error));
                    break;
                }
            }
        }
    }
}

#[test]
fn every_source_parses_or_fails() {
    let mut random = Random(3);
    for _ in 0..3000 {
        let text = source(&mut random);
        if let Ok(ast) = parse(&text) {
            assert!(is_valid_program(&ast));
        }
        let _ = compile_to_text(&text, "main");
    }
}

#[test]
fn every_program_goes_through_the_phases() {
    let mut random = Random(4);
    let mut compiled = 0;
    for _ in 0..3000 {
        let text = program(&mut random);
        let mut ast = parse(&text).unwrap();
        assert!(is_valid_program(&ast));
        let untyped = ast.clone();
        let expected = match TypeChecker::new().type_check(&mut ast) {
            Err(error) => {
                assert_eq!(ast, untyped);
                Err(CompileError::TypeCheck(error))
            }
            Ok(()) => {
                let once = ast.clone();
                assert_eq!(TypeChecker::new().type_check(&mut ast), Ok(()));
                assert_eq!(ast, once);
                let ops = ModuleOps { name: "main".to_string() };
                if IrGenerator::can_generate(&ops, &ast) {
                    let module = IrGenerator::new().generate_module(ops, ast);
                    assert!(module.has_text());
                    compiled += 1;
                    Ok(module.to_string())
                } else {
                    Err(CompileError::Unsupported)
                }
            }
        };
        assert_eq!(compile_to_text(&text, "main"), expected);
    }
    assert!(compiled > 100);
}
