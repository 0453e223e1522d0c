use redox::grammar::{GrammarError, Pattern, Rule, RuleItem, RuleMatcher};
use redox::lexer::Token;
use redox::ast::NumberLiteral;

fn named(name: &str) -> RuleItem {
    RuleItem::NamedRule { name: name.to_string(), capture_as: None }
}

fn matcher(item: RuleItem, output: &str) -> RuleMatcher {
    RuleMatcher { item, output: output.to_string() }
}

#[test]
fn test_pattern_generation() {
    assert_eq!(
        RuleItem::Token(Token::KwReturn).to_pattern(),
        (Pattern::Exact(Token::KwReturn), true)
    );
    assert_eq!(named("ident").to_pattern(), (Pattern::AnyIdent, true));
}

#[test]
fn pattern_of_each_item() {
    assert_eq!(named("number").to_pattern(), (Pattern::AnyNumber, true));
    assert_eq!(named("expr").to_pattern(), (Pattern::Wildcard, false));
    assert_eq!(
        RuleItem::NamedRule { name: "ident".to_string(), capture_as: Some("x".to_string()) }
            .to_pattern(),
        (Pattern::AnyIdent, true)
    );
    assert_eq!(RuleItem::Sequence(vec![]).to_pattern(), (Pattern::Wildcard, false));
    assert_eq!(
        RuleItem::Sequence(vec![RuleItem::Token(Token::Comma), named("expr")]).to_pattern(),
        (Pattern::Exact(Token::Comma), true)
    );
    assert_eq!(
        RuleItem::Sequence(vec![named("expr"), RuleItem::Token(Token::Comma)]).to_pattern(),
        (Pattern::Wildcard, false)
    );
    assert_eq!(
        RuleItem::Optional(Box::new(RuleItem::Token(Token::Comma))).to_pattern(),
        (Pattern::Wildcard, false)
    );
    assert_eq!(
        RuleItem::ZeroOrMore(Box::new(RuleItem::Token(Token::Comma))).to_pattern(),
        (Pattern::Wildcard, false)
    );
    assert_eq!(
        RuleItem::OneOrMore(Box::new(RuleItem::Token(Token::Comma))).to_pattern(),
        (Pattern::Wildcard, false)
    );
}

#[test]
fn patterns_accept_tokens() {
    let number = Token::NumberLit(NumberLiteral::int32(1));
    let ident = Token::Ident("a".to_string());
    assert!(Pattern::Exact(Token::KwFn).accepts(&Token::KwFn));
    assert!(!Pattern::Exact(Token::KwFn).accepts(&ident));
    assert!(Pattern::AnyIdent.accepts(&ident));
    assert!(!Pattern::AnyIdent.accepts(&number));
    assert!(Pattern::AnyNumber.accepts(&number));
    assert!(!Pattern::AnyNumber.accepts(&ident));
    assert!(Pattern::Wildcard.accepts(&number));
    assert!(Pattern::Wildcard.accepts(&Token::KwFn));
}

#[test]
fn test_ambiguous_grammar() {
    let made = Rule::new(vec![matcher(named("expr"), "first"), matcher(named("expr"), "second")]);
    assert!(matches!(made, Err(GrammarError::Ambiguous)));
}

#[test]
fn more_than_one_wildcard_is_ambiguous() {
    let made = Rule::new(vec![
        matcher(RuleItem::Token(Token::KwFn), "a"),
        matcher(named("expr"), "b"),
        matcher(named("ident"), "c"),
        matcher(RuleItem::Sequence(vec![]), "d"),
    ]);
    assert!(matches!(made, Err(GrammarError::Ambiguous)));
}

#[test]
fn one_wildcard_is_tried_last() {
    let rule = Rule::new(vec![
        matcher(named("expr"), "fallback"),
        matcher(RuleItem::Token(Token::KwFn), "function"),
        matcher(named("ident"), "name"),
    ])
    .unwrap();
    assert_eq!(rule.len(), 3);
    assert_eq!(rule.alternative(0).output, "function");
    assert_eq!(rule.alternative(1).output, "name");
    assert_eq!(rule.alternative(2).output, "fallback");
    assert_eq!(rule.select(&Token::KwFn), Some(0));
    assert_eq!(rule.select(&Token::Ident("a".to_string())), Some(1));
    assert_eq!(rule.select(&Token::Comma), Some(2));
}

#[test]
fn no_alternative_takes_the_token() {
    let rule = Rule::new(vec![
        matcher(RuleItem::Token(Token::KwFn), "function"),
        matcher(named("number"), "number"),
    ])
    .unwrap();
    assert_eq!(rule.select(&Token::Comma), None);
    assert_eq!(rule.select(&Token::NumberLit(NumberLiteral::int32(3))), Some(1));
}

#[test]
fn first_of_two_alternatives_with_one_token_wins() {
    let rule = Rule::new(vec![
        matcher(RuleItem::Sequence(vec![RuleItem::Token(Token::KwFn), named("a")]), "first"),
        matcher(RuleItem::Sequence(vec![RuleItem::Token(Token::KwFn), named("b")]), "second"),
    ])
    .unwrap();
    assert_eq!(rule.select(&Token::KwFn), Some(0));
}

#[test]
fn a_single_alternative_is_taken_on_every_token() {
    let rule = Rule::new(vec![matcher(RuleItem::Token(Token::KwFn), "only")]).unwrap();
    assert_eq!(rule.select(&Token::KwFn), Some(0));
    assert_eq!(rule.select(&Token::Comma), Some(0));
}

#[test]
fn a_rule_without_alternatives_takes_nothing() {
    let rule = Rule::new(vec![]).unwrap();
    assert_eq!(rule.len(), 0);
    assert_eq!(rule.select(&Token::KwFn), None);
}
