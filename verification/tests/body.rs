use redox::ast::{Expr, ExprKind, Literal, NumberLiteral, NumberType, Type};
use redox::grammar::body::Step;
use redox::grammar::{Pattern, RuleItem};
use redox::helper::ParseError;
use redox::lexer::Token;
use redox::parser::body::Capture;
use redox::parser::{can_run_body, Grammar, Parser};

fn setup_parser(input: &str) -> Parser<'_> {
    let mut parser = Parser::with_source(input);
    parser.advance().unwrap();
    parser
}

fn call(rule: &str, capture_as: Option<&str>) -> Step {
    Step::Call { rule: rule.to_string(), capture_as: capture_as.map(str::to_string) }
}

fn number(value: u64) -> Expr {
    Expr::new(ExprKind::Literal(Literal::Number(NumberLiteral::int32(value))), 0..0)
}

#[test]
fn steps_are_taken_in_order() {
    let steps = vec![
        Step::Expect(Token::LeftParen),
        Step::TakeIdent { capture_as: Some("name".to_string()) },
        Step::Expect(Token::Colon),
        call("type", Some("ty")),
        Step::TakeNumber { capture_as: Some("count".to_string()) },
        Step::TakeNumber { capture_as: None },
        call("expr", None),
        call("statement", Some("last")),
        Step::Expect(Token::RightParen),
    ];
    assert!(can_run_body(&steps));
    let mut parser = setup_parser("( x : i64 7 8 y return 9 ; ) z");
    assert_eq!(
        parser.run_body(&steps),
        Ok(vec![
            ("name".to_string(), Capture::Ident("x".to_string())),
            ("ty".to_string(), Capture::Type(Type::Number(NumberType::int64()))),
            ("count".to_string(), Capture::Number(NumberLiteral::int32(7))),
            (
                "last".to_string(),
                Capture::Expr(Expr::new(ExprKind::Return(Some(Box::new(number(9)))), 0..0))
            ),
        ])
    );
    assert_eq!(parser.parse_expr().map(|expr| expr.kind), Ok(ExprKind::Variable("z".to_string())));
}

#[test]
fn a_step_fails_on_another_token() {
    assert_eq!(
        setup_parser("x").run_body(&vec![Step::Expect(Token::Comma)]),
        Err(ParseError::UnexpectedToken(Token::Ident("x".to_string())))
    );
    assert_eq!(
        setup_parser("7").run_body(&vec![Step::TakeIdent { capture_as: None }]),
        Err(ParseError::UnexpectedToken(Token::NumberLit(NumberLiteral::int32(7))))
    );
    assert_eq!(
        setup_parser("x").run_body(&vec![Step::TakeNumber { capture_as: None }]),
        Err(ParseError::UnexpectedToken(Token::Ident("x".to_string())))
    );
    assert_eq!(
        setup_parser(";").run_body(&vec![call("expr", None)]),
        Err(ParseError::UnexpectedToken(Token::Semicolon))
    );
    assert_eq!(
        setup_parser(", ;").run_body(&vec![Step::Expect(Token::Comma), Step::Expect(Token::Comma)]),
        Err(ParseError::UnexpectedToken(Token::Semicolon))
    );
}

#[test]
fn a_step_fails_at_the_end_of_the_source() {
    assert_eq!(setup_parser("").run_body(&vec![Step::Expect(Token::Comma)]), Err(ParseError::UnexpectedEOF));
    assert_eq!(
        setup_parser("").run_body(&vec![Step::TakeIdent { capture_as: None }]),
        Err(ParseError::UnexpectedEOF)
    );
    assert_eq!(setup_parser(",").run_body(&vec![Step::Expect(Token::Comma), call("type", None)]), Err(ParseError::UnexpectedEOF));
    assert_eq!(setup_parser("").run_body(&vec![]), Ok(vec![]));
}

#[test]
fn an_optional_item_is_taken_on_its_pattern() {
    let item = RuleItem::Sequence(vec![
        RuleItem::Optional(Box::new(RuleItem::NamedRule {
            name: "ident".to_string(),
            capture_as: Some("name".to_string()),
        })),
        RuleItem::Token(Token::Semicolon),
    ]);
    let steps = item.to_output();
    assert!(can_run_body(&steps));
    assert_eq!(
        setup_parser("x ;").run_body(&steps),
        Ok(vec![("name".to_string(), Capture::Ident("x".to_string()))])
    );
    assert_eq!(
        setup_parser(";").run_body(&steps),
        Ok(vec![("name".to_string(), Capture::Missing)])
    );
    assert_eq!(setup_parser("").run_body(&steps), Err(ParseError::UnexpectedEOF));
    assert_eq!(
        setup_parser("7").run_body(&steps),
        Err(ParseError::UnexpectedToken(Token::NumberLit(NumberLiteral::int32(7))))
    );
}

#[test]
fn an_optional_sequence_binds_what_it_captures() {
    let steps = vec![Step::Optional {
        pattern: Pattern::Exact(Token::Arrow),
        steps: vec![Step::Expect(Token::Arrow), call("type", Some("ty"))],
        captures: vec![],
    }];
    assert_eq!(
        setup_parser("-> ()").run_body(&steps),
        Ok(vec![("ty".to_string(), Capture::Type(Type::empty()))])
    );
    assert_eq!(setup_parser("{").run_body(&steps), Ok(vec![]));
    assert_eq!(setup_parser("->").run_body(&steps), Err(ParseError::UnexpectedEOF));
}

#[test]
fn only_known_rules_can_be_called() {
    assert!(can_run_body(&vec![]));
    assert!(can_run_body(&vec![call("expr", None), call("type", None), call("statement", None)]));
    assert!(!can_run_body(&vec![call("block", None)]));
    assert!(!can_run_body(&vec![Step::Expect(Token::Comma), call("", None)]));
    assert!(!can_run_body(&vec![Step::Optional {
        pattern: Pattern::Wildcard,
        steps: vec![call("expr", None), call("exprs", None)],
        captures: vec![],
    }]));
    assert!(can_run_body(&vec![Step::Optional {
        pattern: Pattern::Wildcard,
        steps: vec![call("expr", None)],
        captures: vec!["a".to_string()],
    }]));
}

#[test]
fn a_grammar_is_made() {
    let _ = Grammar::new();
}
