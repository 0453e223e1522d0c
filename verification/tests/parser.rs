use redox::ast::{
    is_valid_program, Block, Expr, ExprKind, FunctionDef, Literal, NumberLiteral, NumberType,
    TopLevel, TopLevelKind, Type,
};
use redox::helper::ParseError;
use redox::lexer::{IntErrorKind, Lexer, LexerError, Token};
use redox::parser::{parse, Parser};

fn node(kind: ExprKind) -> Expr {
    Expr::new(kind, 0..0)
}

fn number(value: u64) -> Expr {
    node(ExprKind::Literal(Literal::Number(NumberLiteral::int32(value))))
}

fn variable(name: &str) -> Expr {
    node(ExprKind::Variable(name.to_string()))
}

fn returning(inner: Expr) -> Expr {
    node(ExprKind::Return(Some(Box::new(inner))))
}

fn function(
    name: &str,
    arguments: Vec<(&str, Type)>,
    return_ty: Option<Type>,
    statements: Vec<Expr>,
) -> TopLevel {
    TopLevel::expr(node(ExprKind::FunctionDef(FunctionDef {
        name: name.to_string(),
        arguments: arguments.into_iter().map(|(name, ty)| (name.to_string(), ty)).collect(),
        return_ty,
        attributes: vec![],
        body: Block { statements, attributes: vec![] },
    })))
}

fn int32() -> Type {
    Type::Number(NumberType::int32())
}

fn definition(top: &TopLevel) -> &FunctionDef {
    match &top.kind {
        TopLevelKind::Expr(expr) => match &expr.kind {
            ExprKind::FunctionDef(def) => def,
            _ => panic!("Expected FunctionDef"),
        },
    }
}

#[test]
fn test_function_def() {
    let cases: Vec<(&str, &str, Vec<(String, Type)>, Option<Type>, Block)> = vec![
        ("fn foo() {}", "foo", vec![], None, Block::empty()),
        ("fn add(x: i32) {}", "add", vec![("x".to_string(), int32())], None, Block::empty()),
        ("fn ret() -> i32 {}", "ret", vec![], Some(int32()), Block::empty()),
    ];
    for (input, name, arguments, return_ty, body) in cases {
        let top_levels = Parser::with_source(input).parse().unwrap();
        assert_eq!(top_levels.len(), 1);
        let def = definition(&top_levels[0]);
        assert_eq!(def.name, name);
        assert_eq!(def.arguments, arguments);
        assert_eq!(def.return_ty, return_ty);
        assert_eq!(def.body, body);
    }
}

#[test]
fn test_function_def_errors() {
    assert_eq!(
        Parser::with_source("fn 42() {}").parse(),
        Err(ParseError::UnexpectedToken(Token::NumberLit(NumberLiteral::int32(42))))
    );
    assert_eq!(
        Parser::with_source("fn foo(x i32) {}").parse(),
        Err(ParseError::UnexpectedToken(Token::Ident("i32".to_string())))
    );
}

fn setup_parser(input: &str) -> Parser<'_> {
    let mut parser = Parser::with_source(input);
    parser.advance().unwrap(); // Consume first token
    parser
}

#[test]
fn test_statement() {
    let cases = vec![
        ("return 42;", returning(number(42)).kind),
        ("42;", number(42).kind),
        ("x;", variable("x").kind),
    ];
    for (input, expected_kind) in cases {
        let result = setup_parser(input).parse_statement().unwrap();
        assert_eq!(result.kind, expected_kind);
    }
}

#[test]
fn test_expression() {
    let cases = vec![
        ("42", number(42).kind),
        ("x", variable("x").kind),
        ("return 42", returning(number(42)).kind),
    ];
    for (input, expected_kind) in cases {
        let result = setup_parser(input).parse_expr().unwrap();
        assert_eq!(result.kind, expected_kind);
    }
}

#[test]
fn test_type() {
    assert_eq!(setup_parser("i32").parse_type().unwrap(), int32());
    assert_eq!(setup_parser("()").parse_type().unwrap(), Type::empty());
}

#[test]
fn test_typed_argument_list() {
    let cases = vec![
        ("", vec![]),
        ("x: i32", vec![("x".to_string(), int32())]),
        ("x: i32, y: i32", vec![("x".to_string(), int32()), ("y".to_string(), int32())]),
    ];
    for (input, expected) in cases {
        let result = setup_parser(input).parse_typed_argument_list().unwrap();
        assert_eq!(result, expected);
    }
}

#[test]
fn test_block() {
    assert_eq!(setup_parser("{}").parse_block().unwrap(), Block::empty());
    assert_eq!(
        setup_parser("{ return 42; }").parse_block().unwrap(),
        Block { statements: vec![returning(number(42))], attributes: vec![] }
    );
}

#[test]
fn statements_follow_each_other() {
    let parsed = parse("fn f() { return 42; 42; x; return return x; }").unwrap();
    assert_eq!(
        definition(&parsed[0]).body.statements,
        vec![returning(number(42)), number(42), variable("x"), returning(returning(variable("x")))]
    );
}

#[test]
fn parts_leave_the_cursor_behind_them() {
    let mut parser = setup_parser("return x; y ( ) , fn f() {} }");
    assert_eq!(parser.parse_statement(), Ok(returning(variable("x"))));
    assert_eq!(parser.parse_expr(), Ok(variable("y")));
    assert_eq!(parser.parse_type(), Ok(Type::empty()));
    assert_eq!(parser.parse_typed_argument_list(), Ok(vec![]));
    assert_eq!(parser.advance(), Ok(Some(Token::KwFn)));
    assert_eq!(
        parser.parse_function_def(),
        Ok(node(ExprKind::FunctionDef(FunctionDef {
            name: "f".to_string(),
            arguments: vec![],
            return_ty: None,
            attributes: vec![],
            body: Block::empty(),
        })))
    );
    assert_eq!(parser.parse_expr(), Err(ParseError::UnexpectedToken(Token::RightBrace)));
}

#[test]
fn parts_fail_at_the_end_of_the_source() {
    assert_eq!(setup_parser("").parse_expr(), Err(ParseError::UnexpectedEOF));
    assert_eq!(setup_parser("").parse_type(), Err(ParseError::UnexpectedEOF));
    assert_eq!(setup_parser("").parse_statement(), Err(ParseError::UnexpectedEOF));
    assert_eq!(setup_parser("").parse_block(), Err(ParseError::UnexpectedEOF));
    assert_eq!(setup_parser("").parse_function_def(), Err(ParseError::UnexpectedEOF));
    assert_eq!(setup_parser("x").parse_statement(), Err(ParseError::UnexpectedEOF));
    assert_eq!(setup_parser("(").parse_type(), Err(ParseError::UnexpectedEOF));
}

#[test]
fn empty_source_is_an_empty_program() {
    assert_eq!(parse(""), Ok(vec![]));
    assert_eq!(parse("  \n\t "), Ok(vec![]));
    assert_eq!(parse("/* nothing here */"), Ok(vec![]));
}

#[test]
fn unclosed_comment_fails_whatever_follows() {
    assert_eq!(parse("/*"), Err(ParseError::UnclosedComment));
    assert_eq!(parse("/* fn main() {}"), Err(ParseError::UnclosedComment));
    assert_eq!(parse("fn main() {} /* open"), Err(ParseError::UnclosedComment));
    assert_eq!(parse("fn main() { /* open }"), Err(ParseError::UnclosedComment));
    assert_eq!(parse("fn main( /* ) {}"), Err(ParseError::UnclosedComment));
}

#[test]
fn parses_a_function_without_return_type() {
    assert_eq!(parse("fn foo() {}"), Ok(vec![function("foo", vec![], None, vec![])]));
}

#[test]
fn parses_a_function_that_returns_a_literal() {
    assert_eq!(
        parse("fn main() -> i32 { return 0; }"),
        Ok(vec![function("main", vec![], Some(int32()), vec![returning(number(0))])])
    );
}

#[test]
fn parses_a_function_that_returns_its_argument() {
    assert_eq!(
        parse("fn add(x: i32) -> i32 { return x; }"),
        Ok(vec![function("add", vec![("x", int32())], Some(int32()), vec![returning(variable("x"))])])
    );
}

#[test]
fn parses_several_functions() {
    assert_eq!(
        parse("fn a() {} /* between */ fn b() -> () { return 1; return 2; }"),
        Ok(vec![
            function("a", vec![], None, vec![]),
            function("b", vec![], Some(Type::empty()), vec![returning(number(1)), returning(number(2))]),
        ])
    );
}

#[test]
fn every_named_type_is_known() {
    let parsed = parse("fn f(a: i32, b: i64, c: u32, d: u64, e: f32, g: f64) {}").unwrap();
    assert_eq!(
        definition(&parsed[0]).arguments,
        vec![
            ("a".to_string(), Type::Number(NumberType::int32())),
            ("b".to_string(), Type::Number(NumberType::int64())),
            ("c".to_string(), Type::Number(NumberType::uint32())),
            ("d".to_string(), Type::Number(NumberType::uint64())),
            ("e".to_string(), Type::Number(NumberType::float32())),
            ("g".to_string(), Type::Number(NumberType::float64())),
        ]
    );
}

#[test]
fn unknown_type_name_is_unexpected() {
    assert_eq!(
        parse("fn f(a: string) {}"),
        Err(ParseError::UnexpectedToken(Token::Ident("string".to_string())))
    );
    assert_eq!(
        parse("fn f() -> bool {}"),
        Err(ParseError::UnexpectedToken(Token::Ident("bool".to_string())))
    );
}

#[test]
fn mismatches_carry_the_offending_token() {
    assert_eq!(parse("return"), Err(ParseError::UnexpectedToken(Token::KwReturn)));
    assert_eq!(parse("fn f() {} }"), Err(ParseError::UnexpectedToken(Token::RightBrace)));
    assert_eq!(parse("fn f {}"), Err(ParseError::UnexpectedToken(Token::LeftBrace)));
    assert_eq!(parse("fn f(,) {}"), Err(ParseError::UnexpectedToken(Token::Comma)));
    assert_eq!(parse("fn f(x: i32,) {}"), Err(ParseError::UnexpectedToken(Token::RightParen)));
    assert_eq!(parse("fn f(x: i32 y: i32) {}"), Err(ParseError::UnexpectedToken(Token::Ident("y".to_string()))));
    assert_eq!(parse("fn f() -> {}"), Err(ParseError::UnexpectedToken(Token::LeftBrace)));
    assert_eq!(parse("fn f() -> ( {}"), Err(ParseError::UnexpectedToken(Token::LeftBrace)));
    assert_eq!(parse("fn f() i32 {}"), Err(ParseError::UnexpectedToken(Token::Ident("i32".to_string()))));
    assert_eq!(parse("fn f() { return; }"), Err(ParseError::UnexpectedToken(Token::Semicolon)));
    assert_eq!(parse("fn f() { return 1 }"), Err(ParseError::UnexpectedToken(Token::RightBrace)));
    assert_eq!(parse("fn f() { { } }"), Err(ParseError::UnexpectedToken(Token::LeftBrace)));
    assert_eq!(parse("fn f() { fn g() {} }"), Err(ParseError::UnexpectedToken(Token::KwFn)));
    assert_eq!(parse("fn f() { */ }"), Err(ParseError::UnexpectedToken(Token::CloseComment)));
}

#[test]
fn a_source_that_ends_early_is_unexpected_eof() {
    assert_eq!(parse("fn"), Err(ParseError::UnexpectedEOF));
    assert_eq!(parse("fn f"), Err(ParseError::UnexpectedEOF));
    assert_eq!(parse("fn f("), Err(ParseError::UnexpectedEOF));
    assert_eq!(parse("fn f(x"), Err(ParseError::UnexpectedEOF));
    assert_eq!(parse("fn f(x:"), Err(ParseError::UnexpectedEOF));
    assert_eq!(parse("fn f(x: i32"), Err(ParseError::UnexpectedEOF));
    assert_eq!(parse("fn f(x: i32,"), Err(ParseError::UnexpectedEOF));
    assert_eq!(parse("fn f()"), Err(ParseError::UnexpectedEOF));
    assert_eq!(parse("fn f() ->"), Err(ParseError::UnexpectedEOF));
    assert_eq!(parse("fn f() -> ("), Err(ParseError::UnexpectedEOF));
    assert_eq!(parse("fn f() {"), Err(ParseError::UnexpectedEOF));
    assert_eq!(parse("fn f() { return"), Err(ParseError::UnexpectedEOF));
    assert_eq!(parse("fn f() { return 1"), Err(ParseError::UnexpectedEOF));
    assert_eq!(parse("fn f() { return 1;"), Err(ParseError::UnexpectedEOF));
}

#[test]
fn lexer_errors_are_wrapped_by_the_parser() {
    assert_eq!(parse("fn f() { return 1; } @"), Err(ParseError::LexerError(LexerError::NonAsciiCharacter)));
    assert_eq!(parse("fn f\u{e9}() {}"), Err(ParseError::LexerError(LexerError::NonAsciiCharacter)));
    assert_eq!(
        parse("fn f() { return 99999999999999999999; }"),
        Err(ParseError::LexerError(LexerError::ParseIntError(IntErrorKind::PosOverflow)))
    );
}

#[test]
fn an_error_behind_a_token_comes_before_what_the_token_means() {
    assert_eq!(parse("fn f(a: string @"), Err(ParseError::LexerError(LexerError::NonAsciiCharacter)));
}

#[test]
fn nodes_have_no_type_and_spans_within_the_source() {
    let source = "fn add(x: i32) -> i32 { return x; }";
    let parsed = parse(source).unwrap();
    for top in &parsed {
        assert!(top.ty.is_none());
        assert!(top.span.start <= top.span.end && top.span.end <= source.len());
        let TopLevelKind::Expr(expr) = &top.kind;
        assert!(expr.ty.is_none());
        assert!(expr.span.start <= expr.span.end && expr.span.end <= source.len());
        for statement in &definition(top).body.statements {
            assert!(statement.ty.is_none());
            assert!(statement.span.start <= statement.span.end && statement.span.end <= source.len());
        }
    }
}

#[test]
fn parsed_programs_are_valid() {
    assert!(is_valid_program(&parse("fn a() {} fn b(x: i32) -> i32 { return x; 1; }").unwrap()));
    assert!(is_valid_program(&vec![]));
    assert!(!is_valid_program(&vec![TopLevel::expr(number(1))]));
    let nested = function("f", vec![], None, vec![returning(node(ExprKind::FunctionDef(FunctionDef {
        name: "g".to_string(),
        arguments: vec![],
        return_ty: None,
        attributes: vec![],
        body: Block::empty(),
    })))]);
    assert!(!is_valid_program(&vec![nested]));
}

#[test]
fn a_parser_goes_on_where_its_lexer_stands() {
    let mut lexer = Lexer::new("} fn f() {}");
    lexer.next();
    assert_eq!(Parser::new(lexer).parse(), Ok(vec![function("f", vec![], None, vec![])]));
}

#[test]
fn type_names_parse_from_text() {
    assert_eq!("i32".parse::<Type>(), Ok(int32()));
    assert_eq!(Type::from_name("u64"), Some(Type::Number(NumberType::uint64())));
    assert_eq!(Type::from_name("()"), None);
    assert_eq!("string".parse::<Type>(), Err("Struct types are not yet supported".to_string()));
    assert!(Type::empty().is_empty());
    assert!(!int32().is_empty());
    assert!(!Type::Tuple(vec![int32()]).is_empty());
    assert_eq!(Type::Tuple(vec![int32(), Type::empty()]).clone(), Type::Tuple(vec![int32(), Type::empty()]));
}

#[test]
fn expressions_hand_out_their_children() {
    assert_eq!(number(1).kind.get_children(), vec![]);
    assert_eq!(variable("x").kind.get_children(), vec![]);
    assert_eq!(node(ExprKind::Return(None)).kind.get_children(), vec![]);
    assert_eq!(returning(number(1)).kind.get_children(), vec![Box::new(number(1))]);
    let parsed = parse("fn f() { 1; return x; }").unwrap();
    let TopLevelKind::Expr(expr) = &parsed[0].kind;
    assert_eq!(
        expr.kind.get_children(),
        vec![Box::new(number(1)), Box::new(returning(variable("x")))]
    );
    assert!(expr.kind.is_top_level());
    assert!(!number(1).kind.is_top_level());
    assert_eq!((**expr).clone(), **expr);
    assert_eq!(parsed[0].clone(), parsed[0]);
    assert_eq!(definition(&parsed[0]).clone(), *definition(&parsed[0]));
    assert_eq!(definition(&parsed[0]).body.clone(), definition(&parsed[0]).body);
    assert_eq!(expr.kind.clone(), expr.kind);
    assert_eq!(parsed[0].kind.clone(), parsed[0].kind);
}
