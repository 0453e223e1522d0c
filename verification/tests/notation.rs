use redox::grammar::body::Step;
use redox::grammar::notation::RuleToken;
use redox::grammar::{GrammarError, Pattern, Rule, RuleItem, RuleMatcher};
use redox::lexer::Token;

fn ident(name: &str) -> RuleToken {
    RuleToken::Ident(name.to_string())
}

fn literal(text: &str) -> RuleToken {
    RuleToken::Literal(text.to_string())
}

fn named(name: &str, capture_as: Option<&str>) -> RuleItem {
    RuleItem::NamedRule { name: name.to_string(), capture_as: capture_as.map(str::to_string) }
}

#[test]
fn test_rule_item_parsing() {
    assert_eq!(RuleItem::parse(&vec![literal("return")]), Ok(RuleItem::Token(Token::KwReturn)));
    assert_eq!(RuleItem::parse(&vec![ident("expr")]), Ok(named("expr", None)));
    assert_eq!(
        RuleItem::parse(&vec![ident("expr"), RuleToken::Colon, ident("captured")]),
        Ok(named("expr", Some("captured")))
    );
    assert_eq!(
        RuleItem::parse(&vec![
            RuleToken::Group(vec![literal(","), ident("expr")]),
            RuleToken::Star
        ]),
        Ok(RuleItem::ZeroOrMore(Box::new(RuleItem::Sequence(vec![
            RuleItem::Token(Token::Comma),
            named("expr", None),
        ]))))
    );
}

#[test]
fn test_repetition_parsing() {
    assert_eq!(
        RuleItem::parse(&vec![ident("expr"), RuleToken::Plus]),
        Ok(RuleItem::OneOrMore(Box::new(named("expr", None))))
    );
    assert_eq!(
        RuleItem::parse(&vec![ident("expr"), RuleToken::Question]),
        Ok(RuleItem::Optional(Box::new(named("expr", None))))
    );
    assert_eq!(
        RuleItem::parse(&vec![ident("a"), RuleToken::Colon, ident("b"), RuleToken::Star, literal(";")]),
        Ok(RuleItem::Sequence(vec![
            RuleItem::ZeroOrMore(Box::new(named("a", Some("b")))),
            RuleItem::Token(Token::Semicolon),
        ]))
    );
}

#[test]
fn test_parsing_errors() {
    assert_eq!(RuleItem::parse(&vec![literal("invalid_token")]), Err(GrammarError::InvalidToken));
    assert_eq!(
        RuleItem::parse(&vec![ident("expr"), RuleToken::Colon, literal("123")]),
        Err(GrammarError::MissingCapture)
    );
}

#[test]
fn test_rule_matcher_parsing() {
    assert_eq!(
        RuleMatcher::parse(&vec![literal("return"), ident("expr"), RuleToken::Arrow, ident("ret")]),
        Ok(RuleMatcher {
            item: RuleItem::Sequence(vec![RuleItem::Token(Token::KwReturn), named("expr", None)]),
            output: "ret".to_string(),
        })
    );
}

#[test]
fn test_complete_rule() {
    let rule = Rule::parse(&vec![
        literal("return"),
        ident("expr"),
        RuleToken::Colon,
        ident("expr"),
        literal(";"),
        RuleToken::Arrow,
        ident("ret"),
    ])
    .unwrap();
    assert_eq!(rule.len(), 1);
    assert_eq!(
        rule.alternative(0).item,
        RuleItem::Sequence(vec![
            RuleItem::Token(Token::KwReturn),
            named("expr", Some("expr")),
            RuleItem::Token(Token::Semicolon),
        ])
    );
}

#[test]
fn ambiguous_rules_are_rejected_when_written_down() {
    let tokens = vec![
        ident("expr"),
        RuleToken::Arrow,
        ident("a"),
        RuleToken::Comma,
        ident("expr"),
        RuleToken::Arrow,
        ident("b"),
    ];
    assert!(matches!(Rule::parse(&tokens), Err(GrammarError::Ambiguous)));
}

#[test]
fn literals_are_keywords_and_punctuation() {
    for (text, token) in [
        ("fn", Token::KwFn),
        ("return", Token::KwReturn),
        (";", Token::Semicolon),
        (":", Token::Colon),
        (",", Token::Comma),
        ("(", Token::LeftParen),
        (")", Token::RightParen),
        ("{", Token::LeftBrace),
        ("}", Token::RightBrace),
        ("->", Token::Arrow),
    ] {
        assert_eq!(Token::from_text(text), Some(token.clone()));
        assert_eq!(RuleItem::parse(&vec![literal(text)]), Ok(RuleItem::Token(token)));
    }
    for text in ["", "x", "42", "/*", "*/", "fn fn", " fn", "fn ", "@", "returns", "- >"] {
        assert_eq!(Token::from_text(text), None);
        assert_eq!(RuleItem::parse(&vec![literal(text)]), Err(GrammarError::InvalidToken));
    }
}

#[test]
fn no_items_are_the_empty_sequence() {
    assert_eq!(RuleItem::parse(&vec![]), Ok(RuleItem::Sequence(vec![])));
    assert_eq!(
        RuleItem::parse(&vec![RuleToken::Group(vec![])]),
        Ok(RuleItem::Sequence(vec![]))
    );
    assert_eq!(
        RuleItem::parse(&vec![RuleToken::Group(vec![RuleToken::Group(vec![ident("a")])])]),
        Ok(named("a", None))
    );
}

#[test]
fn an_item_takes_one_modifier() {
    assert_eq!(
        RuleItem::parse(&vec![ident("a"), RuleToken::Star, RuleToken::Question]),
        Err(GrammarError::UnexpectedToken)
    );
    assert_eq!(RuleItem::parse(&vec![RuleToken::Star]), Err(GrammarError::UnexpectedToken));
    assert_eq!(RuleItem::parse(&vec![ident("a"), RuleToken::Comma]), Err(GrammarError::UnexpectedToken));
    assert_eq!(RuleItem::parse(&vec![ident("a"), RuleToken::Colon]), Err(GrammarError::MissingCapture));
    assert_eq!(
        RuleItem::parse(&vec![RuleToken::Group(vec![ident("a"), RuleToken::Arrow])]),
        Err(GrammarError::UnexpectedToken)
    );
}

#[test]
fn alternatives_need_an_arrow_and_an_output() {
    assert_eq!(RuleMatcher::parse(&vec![ident("a")]), Err(GrammarError::MissingArrow));
    assert_eq!(RuleMatcher::parse(&vec![ident("a"), RuleToken::Arrow]), Err(GrammarError::MissingOutput));
    assert_eq!(
        RuleMatcher::parse(&vec![ident("a"), RuleToken::Arrow, literal("x")]),
        Err(GrammarError::MissingOutput)
    );
    assert_eq!(
        RuleMatcher::parse(&vec![ident("a"), RuleToken::Arrow, ident("x"), ident("y")]),
        Err(GrammarError::UnexpectedToken)
    );
    assert_eq!(
        RuleMatcher::parse(&vec![RuleToken::Arrow, ident("x")]),
        Ok(RuleMatcher { item: RuleItem::Sequence(vec![]), output: "x".to_string() })
    );
}

#[test]
fn rules_are_lists_of_alternatives() {
    let expr = vec![
        ident("number"),
        RuleToken::Colon,
        ident("number"),
        RuleToken::Arrow,
        ident("literal"),
        RuleToken::Comma,
        ident("other"),
        RuleToken::Arrow,
        ident("fallback"),
        RuleToken::Comma,
        literal("return"),
        ident("expr"),
        RuleToken::Colon,
        ident("expr"),
        RuleToken::Arrow,
        ident("ret"),
        RuleToken::Comma,
    ];
    let rule = Rule::parse(&expr).unwrap();
    assert_eq!(rule.len(), 3);
    assert_eq!(rule.alternative(0).output, "literal");
    assert_eq!(rule.alternative(1).output, "ret");
    assert_eq!(rule.alternative(2).output, "fallback");
    assert_eq!(Rule::parse(&vec![]).unwrap().len(), 0);
    assert!(matches!(
        Rule::parse(&vec![ident("a"), RuleToken::Arrow, ident("x"), ident("b")]),
        Err(GrammarError::UnexpectedToken)
    ));
    assert!(matches!(Rule::parse(&vec![RuleToken::Comma]), Err(GrammarError::MissingArrow)));
}

#[test]
fn test_code_generation() {
    assert_eq!(
        RuleItem::Token(Token::KwReturn).to_output(),
        vec![Step::Expect(Token::KwReturn)]
    );
    assert_eq!(
        named("ident", Some("var")).to_output(),
        vec![Step::TakeIdent { capture_as: Some("var".to_string()) }]
    );
}

#[test]
fn bodies_of_items() {
    assert_eq!(named("number", None).to_output(), vec![Step::TakeNumber { capture_as: None }]);
    assert_eq!(
        named("expr", Some("e")).to_output(),
        vec![Step::Call { rule: "expr".to_string(), capture_as: Some("e".to_string()) }]
    );
    assert_eq!(RuleItem::Sequence(vec![]).to_output(), vec![]);
    assert_eq!(
        RuleItem::Sequence(vec![
            RuleItem::Token(Token::KwReturn),
            RuleItem::Sequence(vec![named("expr", Some("e")), named("ident", None)]),
            RuleItem::Token(Token::Semicolon),
        ])
        .to_output(),
        vec![
            Step::Expect(Token::KwReturn),
            Step::Call { rule: "expr".to_string(), capture_as: Some("e".to_string()) },
            Step::TakeIdent { capture_as: None },
            Step::Expect(Token::Semicolon),
        ]
    );
    assert_eq!(
        RuleItem::Optional(Box::new(RuleItem::Sequence(vec![
            RuleItem::Token(Token::Arrow),
            named("type", Some("ty")),
        ])))
        .to_output(),
        vec![Step::Optional {
            pattern: Pattern::Exact(Token::Arrow),
            steps: vec![
                Step::Expect(Token::Arrow),
                Step::Call { rule: "type".to_string(), capture_as: Some("ty".to_string()) },
            ],
            captures: vec![],
        }]
    );
    assert_eq!(
        RuleItem::Optional(Box::new(named("ident", Some("name")))).to_output(),
        vec![Step::Optional {
            pattern: Pattern::AnyIdent,
            steps: vec![Step::TakeIdent { capture_as: Some("name".to_string()) }],
            captures: vec!["name".to_string()],
        }]
    );
}

#[test]
fn repetition_has_no_body() {
    assert!(RuleItem::Token(Token::Comma).has_body());
    assert!(named("expr", None).has_body());
    assert!(RuleItem::Optional(Box::new(named("expr", None))).has_body());
    assert!(RuleItem::Sequence(vec![named("a", None), RuleItem::Token(Token::Comma)]).has_body());
    assert!(!RuleItem::ZeroOrMore(Box::new(named("expr", None))).has_body());
    assert!(!RuleItem::OneOrMore(Box::new(named("expr", None))).has_body());
    assert!(!RuleItem::Sequence(vec![
        named("a", None),
        RuleItem::Optional(Box::new(RuleItem::OneOrMore(Box::new(named("b", None))))),
    ])
    .has_body());
}

#[test]
fn captures_down_to_a_depth() {
    let item = RuleItem::Sequence(vec![
        named("a", Some("x")),
        RuleItem::Token(Token::Comma),
        named("b", None),
        RuleItem::Optional(Box::new(named("c", Some("y")))),
        RuleItem::Sequence(vec![named("d", Some("z")), RuleItem::ZeroOrMore(Box::new(named("e", Some("w"))))]),
    ]);
    assert_eq!(item.get_captures(0), Vec::<String>::new());
    assert_eq!(item.get_captures(1), Vec::<String>::new());
    assert_eq!(item.get_captures(2), vec!["x".to_string()]);
    assert_eq!(item.get_captures(3), vec!["x".to_string(), "y".to_string(), "z".to_string()]);
    assert_eq!(
        item.get_captures(4),
        vec!["x".to_string(), "y".to_string(), "z".to_string(), "w".to_string()]
    );
    assert_eq!(named("a", Some("x")).get_captures(1), vec!["x".to_string()]);
    assert_eq!(named("a", None).get_captures(5), Vec::<String>::new());
    assert_eq!(RuleItem::Token(Token::Comma).get_captures(5), Vec::<String>::new());
}
