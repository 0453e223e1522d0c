//! The rules of the grammar that are written down as rules of the grammar
//! matcher: `expr`, `type` and `statement`, with the alternative that each
//! token selects and the body of each alternative.

use vstd::prelude::*;
use vstd::string::StringExecFns;

use super::body::{
    can_run, can_run_step, consumed_before, consumes, expr_rule_name, run_body, run_step,
    run_steps, statement_rule_name, type_rule_name, Bindings, CaptureView,
};
use super::syntax::{
    parse_expr_at, parse_statement_at, parse_type_at, skip_token, untyped,
};
use crate::ast::{unit_type, ExprKindView, ExprView, Literal, TypeView};
use crate::grammar::body::{bodies_of, have_bodies, steps_view, Step, StepView};
use crate::grammar::{
    first_accepting, ident_class, lemma_all_specific, lemma_single_alternative, matchers_view,
    number_class, selected, Rule, RuleItem, RuleItemView, RuleMatcher, RuleMatcherView,
};
use crate::helper::{ParseErrorView, TokenStream};
use crate::lexer::{Token, TokenView};

verus! {

/// The alternatives of `expr`: `number:number`, `ident:ident` and `"return" expr:expr`.
pub open spec fn expr_alternatives() -> Seq<RuleMatcherView> {
    seq![
        RuleMatcherView {
            item: RuleItemView::NamedRule {
                name: number_class(),
                capture_as: Some(number_class()),
            },
            output: "literal"@,
        },
        RuleMatcherView {
            item: RuleItemView::NamedRule { name: ident_class(), capture_as: Some(ident_class()) },
            output: "variable"@,
        },
        RuleMatcherView {
            item: RuleItemView::Sequence(
                seq![
                    RuleItemView::Token(TokenView::KwReturn),
                    RuleItemView::NamedRule {
                        name: expr_rule_name(),
                        capture_as: Some(expr_rule_name()),
                    },
                ],
            ),
            output: "return"@,
        },
    ]
}

/// The alternatives of `type`: `ident:ident` and `"(" ")"`.
pub open spec fn type_alternatives() -> Seq<RuleMatcherView> {
    seq![
        RuleMatcherView {
            item: RuleItemView::NamedRule { name: ident_class(), capture_as: Some(ident_class()) },
            output: "named"@,
        },
        RuleMatcherView {
            item: RuleItemView::Sequence(
                seq![
                    RuleItemView::Token(TokenView::LeftParen),
                    RuleItemView::Token(TokenView::RightParen),
                ],
            ),
            output: "unit"@,
        },
    ]
}

/// The one alternative of `statement`: `expr:expr ";"`.
pub open spec fn statement_alternatives() -> Seq<RuleMatcherView> {
    seq![
        RuleMatcherView {
            item: RuleItemView::Sequence(
                seq![
                    RuleItemView::NamedRule {
                        name: expr_rule_name(),
                        capture_as: Some(expr_rule_name()),
                    },
                    RuleItemView::Token(TokenView::Semicolon),
                ],
            ),
            output: "statement"@,
        },
    ]
}

/// Which alternative of `expr` each token selects.
pub proof fn lemma_expr_selection(token: TokenView)
    ensures
        selected(expr_alternatives(), token) == match token {
            TokenView::NumberLit(_) => Some(0int),
            TokenView::Ident(_) => Some(1int),
            TokenView::KwReturn => Some(2int),
            _ => None,
        },
{
    reveal_with_fuel(first_accepting, 4);
    reveal_with_fuel(RuleItemView::pattern, 3);
    assert(ident_class() != number_class()) by {
        assert(ident_class().len() != number_class().len());
    }
}

/// Which alternative of `type` each token selects.
pub proof fn lemma_type_selection(token: TokenView)
    ensures
        selected(type_alternatives(), token) == match token {
            TokenView::Ident(_) => Some(0int),
            TokenView::LeftParen => Some(1int),
            _ => None,
        },
{
    reveal_with_fuel(first_accepting, 3);
    reveal_with_fuel(RuleItemView::pattern, 3);
    assert(ident_class() != number_class()) by {
        assert(ident_class().len() != number_class().len());
    }
}

/// A named rule that is captured under its own name.
fn captured(name: &str) -> (item: RuleItem)
    ensures
        item@ == (RuleItemView::NamedRule { name: name@, capture_as: Some(name@) }),
{
    RuleItem::NamedRule { name: String::from_str(name), capture_as: Some(String::from_str(name)) }
}

/// The two items one after the other.
fn pair(first: RuleItem, second: RuleItem) -> (item: RuleItem)
    ensures
        item@ == RuleItemView::Sequence(seq![first@, second@]),
{
    let mut items: Vec<RuleItem> = Vec::new();
    items.push(first);
    items.push(second);
    let item = RuleItem::Sequence(items);
    assert(item@->Sequence_0 =~= seq![first@, second@]);
    item
}

/// An alternative and the name of what it yields.
fn alternative(item: RuleItem, output: &str) -> (matcher: RuleMatcher)
    ensures
        matcher@ == (RuleMatcherView { item: item@, output: output@ }),
{
    RuleMatcher { item, output: String::from_str(output) }
}

/// The rule of `expr`.
pub(super) fn expr_rule() -> (rule: Rule)
    ensures
        rule@ == expr_alternatives(),
{
    proof {
        reveal_strlit("ident");
        reveal_strlit("number");
        reveal_strlit("expr");
        assert("expr"@ =~= expr_rule_name());
    }
    let mut alternatives: Vec<RuleMatcher> = Vec::new();
    alternatives.push(alternative(captured("number"), "literal"));
    alternatives.push(alternative(captured("ident"), "variable"));
    alternatives.push(
        alternative(pair(RuleItem::Token(Token::KwReturn), captured("expr")), "return"),
    );
    proof {
        assert("ident"@ =~= ident_class());
        assert("number"@ =~= number_class());
        assert(matchers_view(alternatives@) =~= expr_alternatives());
        reveal_with_fuel(RuleItemView::pattern, 3);
        assert(ident_class() != number_class()) by {
            assert(ident_class().len() != number_class().len());
        }
        lemma_all_specific(expr_alternatives());
    }
    match Rule::new(alternatives) {
        Ok(rule) => rule,
        Err(_) => vstd::pervasive::unreached(),
    }
}

/// The rule of `type`.
pub(super) fn type_rule() -> (rule: Rule)
    ensures
        rule@ == type_alternatives(),
{
    proof {
        reveal_strlit("ident");
    }
    let mut alternatives: Vec<RuleMatcher> = Vec::new();
    alternatives.push(alternative(captured("ident"), "named"));
    alternatives.push(
        alternative(
            pair(RuleItem::Token(Token::LeftParen), RuleItem::Token(Token::RightParen)),
            "unit",
        ),
    );
    proof {
        assert("ident"@ =~= ident_class());
        assert(matchers_view(alternatives@) =~= type_alternatives());
        reveal_with_fuel(RuleItemView::pattern, 3);
        lemma_all_specific(type_alternatives());
    }
    match Rule::new(alternatives) {
        Ok(rule) => rule,
        Err(_) => vstd::pervasive::unreached(),
    }
}

/// The rule of `statement`.
pub(super) fn statement_rule() -> (rule: Rule)
    ensures
        rule@ == statement_alternatives(),
{
    let mut alternatives: Vec<RuleMatcher> = Vec::new();
    alternatives.push(
        alternative(pair(captured("expr"), RuleItem::Token(Token::Semicolon)), "statement"),
    );
    proof {
        reveal_strlit("expr");
        assert("expr"@ =~= expr_rule_name());
        assert(matchers_view(alternatives@) =~= statement_alternatives());
        lemma_single_alternative(statement_alternatives());
    }
    match Rule::new(alternatives) {
        Ok(rule) => rule,
        Err(_) => vstd::pervasive::unreached(),
    }
}

/// The body of each alternative of `expr`.
pub open spec fn expr_bodies() -> Seq<Seq<StepView>> {
    seq![
        seq![StepView::TakeNumber { capture_as: Some(number_class()) }],
        seq![StepView::TakeIdent { capture_as: Some(ident_class()) }],
        seq![
            StepView::Expect(TokenView::KwReturn),
            StepView::Call { rule: expr_rule_name(), capture_as: Some(expr_rule_name()) },
        ],
    ]
}

/// The body of each alternative of `type`.
pub open spec fn type_bodies() -> Seq<Seq<StepView>> {
    seq![
        seq![StepView::TakeIdent { capture_as: Some(ident_class()) }],
        seq![StepView::Expect(TokenView::LeftParen), StepView::Expect(TokenView::RightParen)],
    ]
}

/// The body of the alternative of `statement`.
pub open spec fn statement_bodies() -> Seq<Seq<StepView>> {
    seq![
        seq![
            StepView::Call { rule: expr_rule_name(), capture_as: Some(expr_rule_name()) },
            StepView::Expect(TokenView::Semicolon),
        ],
    ]
}

/// The names of the rules and of the token classes differ from each other.
pub proof fn lemma_rule_names()
    ensures
        expr_rule_name() != ident_class(),
        expr_rule_name() != number_class(),
        expr_rule_name() != type_rule_name(),
        expr_rule_name() != statement_rule_name(),
        type_rule_name() != statement_rule_name(),
        ident_class() != number_class(),
{
    assert(expr_rule_name().len() == 4);
    assert(ident_class().len() == 5);
    assert(number_class().len() == 6);
    assert(statement_rule_name().len() == 9);
    assert(expr_rule_name()[0] == 'e');
    assert(type_rule_name()[0] == 't');
    assert(type_rule_name().len() == 4);
}

/// The alternatives of the rules of the grammar have bodies, and these are
/// their bodies.
pub proof fn lemma_rule_bodies()
    ensures
        forall|i: int|
            0 <= i < 3 ==> (#[trigger] expr_alternatives()[i]).item.has_body()
                && expr_alternatives()[i].item.body() == expr_bodies()[i],
        forall|i: int|
            0 <= i < 2 ==> (#[trigger] type_alternatives()[i]).item.has_body()
                && type_alternatives()[i].item.body() == type_bodies()[i],
        statement_alternatives()[0].item.has_body(),
        statement_alternatives()[0].item.body() == statement_bodies()[0],
{
    lemma_rule_names();
    reveal_with_fuel(have_bodies, 3);
    reveal_with_fuel(bodies_of, 3);
    reveal_with_fuel(RuleItemView::has_body, 2);
    reveal_with_fuel(RuleItemView::body, 2);
    assert(expr_alternatives()[0].item.body() =~= expr_bodies()[0]);
    assert(expr_alternatives()[1].item.body() =~= expr_bodies()[1]);
    lemma_pair_body(expr_alternatives()[2].item->Sequence_0);
    assert(expr_alternatives()[2].item.body() =~= expr_bodies()[2]);
    assert(type_alternatives()[0].item.body() =~= type_bodies()[0]);
    lemma_pair_body(type_alternatives()[1].item->Sequence_0);
    assert(type_alternatives()[1].item.body() =~= type_bodies()[1]);
    lemma_pair_body(statement_alternatives()[0].item->Sequence_0);
    assert(statement_alternatives()[0].item.body() =~= statement_bodies()[0]);
}

/// The body of two items is the body of the first and then the body of the second.
pub proof fn lemma_pair_body(items: Seq<RuleItemView>)
    requires
        items.len() == 2,
    ensures
        bodies_of(items, 2) == items[0].body() + items[1].body(),
        have_bodies(items, 2) == (items[0].has_body() && items[1].has_body()),
{
    reveal_with_fuel(have_bodies, 3);
    reveal_with_fuel(bodies_of, 3);
    assert(bodies_of(items, 0) =~= Seq::empty());
    assert(bodies_of(items, 1) =~= items[0].body());
    assert(bodies_of(items, 2) =~= items[0].body() + items[1].body());
}

/// The expression that the captures of an alternative of `expr` make.
pub open spec fn expr_of(capture: CaptureView) -> ExprView {
    untyped(
        match capture {
            CaptureView::Number(number) => ExprKindView::Literal(Literal::Number(number)),
            CaptureView::Ident(name) => ExprKindView::Variable(name),
            CaptureView::Expr(inner) => ExprKindView::Return(Some(Box::new(inner))),
            _ => ExprKindView::Return(None),
        },
    )
}

/// Running one step is running a body of that step.
pub proof fn lemma_run_one(stream: TokenStream, cursor: int, steps: Seq<StepView>)
    requires
        steps.len() == 1,
    ensures
        run_body(stream, cursor, steps) == match run_step(stream, cursor, steps[0]) {
            Ok((bound, after)) => Ok((Seq::<(Seq<char>, CaptureView)>::empty() + bound, after)),
            Err(error) => Err(error),
        },
{
    reveal_with_fuel(run_steps, 3);
}

/// Running two steps is running the first and then the second.
pub proof fn lemma_run_two(stream: TokenStream, cursor: int, steps: Seq<StepView>)
    requires
        steps.len() == 2,
    ensures
        run_body(stream, cursor, steps) == match run_step(stream, cursor, steps[0]) {
            Ok((bound, middle)) => match run_step(stream, middle, steps[1]) {
                Ok((more, after)) => Ok(
                    (Seq::<(Seq<char>, CaptureView)>::empty() + bound + more, after),
                ),
                Err(error) => Err(error),
            },
            Err(error) => Err(error),
        },
{
    reveal_with_fuel(run_steps, 3);
}

/// The body of the alternative of `expr` that the current token selects
/// parses an expression: it binds one capture, of which the expression is made.
pub proof fn lemma_expr_body(stream: TokenStream, cursor: int, index: int)
    requires
        stream.token_at(cursor) matches Some(token) && selected(expr_alternatives(), token)
            == Some(index),
    ensures
        0 <= index < 3,
        match parse_expr_at(stream, cursor) {
            Ok((expr, after)) => {
                &&& run_body(stream, cursor, expr_bodies()[index]) matches Ok((bound, end))
                &&& end == after
                &&& bound.len() == 1
                &&& expr == expr_of(bound[0].1)
                &&& !(bound[0].1 is Type) && !(bound[0].1 is Missing)
            },
            Err(error) => run_body(stream, cursor, expr_bodies()[index]) == Err::<
                (Bindings, int),
                ParseErrorView,
            >(error),
        },
{
    let token = stream.token_at(cursor)->0;
    lemma_expr_selection(token);
    lemma_rule_names();
    if index == 2 {
        lemma_run_two(stream, cursor, expr_bodies()[2]);
        if let Ok(next) = stream.advance(cursor) {
            if let Ok((inner, after)) = parse_expr_at(stream, next) {
                let bound = run_body(stream, cursor, expr_bodies()[2])->Ok_0.0;
                assert(bound =~= seq![(expr_rule_name(), CaptureView::Expr(inner))]);
            }
        }
    } else {
        lemma_run_one(stream, cursor, expr_bodies()[index]);
        if let Ok(next) = stream.advance(cursor) {
            let bound = run_body(stream, cursor, expr_bodies()[index])->Ok_0.0;
            assert(bound.len() == 1);
        }
    }
}

/// The body of the alternative of `type` that the current token selects
/// parses a type: it binds the name of a named type, and nothing for the unit type.
pub proof fn lemma_type_body(stream: TokenStream, cursor: int, index: int)
    requires
        stream.token_at(cursor) matches Some(token) && selected(type_alternatives(), token)
            == Some(index),
    ensures
        0 <= index < 2,
        index == 0 ==> match run_body(stream, cursor, type_bodies()[0]) {
            Ok((bound, end)) => {
                &&& bound.len() == 1
                &&& bound[0].1 matches CaptureView::Ident(name)
                &&& stream.token_at(cursor) == Some(TokenView::Ident(name))
                &&& stream.advance(cursor) == Ok::<int, ParseErrorView>(end)
            },
            Err(error) => parse_type_at(stream, cursor) == Err::<(TypeView, int), ParseErrorView>(
                error,
            ),
        },
        index == 1 ==> match parse_type_at(stream, cursor) {
            Ok((ty, after)) => {
                &&& run_body(stream, cursor, type_bodies()[1]) matches Ok((bound, end))
                &&& end == after
                &&& ty == unit_type()
            },
            Err(error) => run_body(stream, cursor, type_bodies()[1]) == Err::<
                (Bindings, int),
                ParseErrorView,
            >(error),
        },
{
    let token = stream.token_at(cursor)->0;
    lemma_type_selection(token);
    if index == 0 {
        lemma_run_one(stream, cursor, type_bodies()[0]);
        if let Ok(next) = stream.advance(cursor) {
            let bound = run_body(stream, cursor, type_bodies()[0])->Ok_0.0;
            assert(bound.len() == 1);
        }
    } else {
        lemma_run_two(stream, cursor, type_bodies()[1]);
    }
}

/// The body of `statement` parses a statement: it binds the expression.
pub proof fn lemma_statement_body(stream: TokenStream, cursor: int)
    ensures
        match parse_statement_at(stream, cursor) {
            Ok((statement, after)) => {
                &&& run_body(stream, cursor, statement_bodies()[0]) matches Ok((bound, end))
                &&& end == after
                &&& bound.len() == 1
                &&& bound[0].1 == CaptureView::Expr(statement)
            },
            Err(error) => run_body(stream, cursor, statement_bodies()[0]) == Err::<
                (Bindings, int),
                ParseErrorView,
            >(error),
        },
{
    lemma_rule_names();
    lemma_run_two(stream, cursor, statement_bodies()[0]);
    if let Ok((expr, next)) = parse_expr_at(stream, cursor) {
        if let Ok(after) = skip_token(stream, next, TokenView::Semicolon) {
            let bound = run_body(stream, cursor, statement_bodies()[0])->Ok_0.0;
            assert(bound =~= seq![(expr_rule_name(), CaptureView::Expr(expr))]);
        }
    }
}

/// The bodies of the rules of the grammar can be run: `type` calls no rule,
/// `expr` calls itself behind `return`, and `statement` calls `expr`.
pub proof fn lemma_bodies_can_run()
    ensures
        forall|i: int|
            0 <= i < 3 ==> can_run(
                #[trigger] expr_bodies()[i],
                expr_bodies()[i].len(),
                3,
                false,
            ),
        forall|i: int|
            0 <= i < 2 ==> can_run(
                #[trigger] type_bodies()[i],
                type_bodies()[i].len(),
                1,
                false,
            ),
        can_run(statement_bodies()[0], 2, 5, false),
{
    lemma_rule_names();
    reveal_with_fuel(can_run, 3);
    reveal_with_fuel(can_run_step, 2);
    assert(consumes(expr_bodies()[2][0]));
    assert(consumed_before(expr_bodies()[2], 1));
}

/// Whether the bodies are those of the alternatives, one for one.
pub open spec fn holds_bodies(bodies: Seq<Vec<Step>>, alternatives: Seq<RuleMatcherView>) -> bool {
    &&& bodies.len() == alternatives.len()
    &&& forall|i: int|
        0 <= i < bodies.len() ==> steps_view((#[trigger] bodies[i])@) == alternatives[i].item.body()
}

/// The body of each alternative of the rule.
pub(super) fn bodies_of_rule(rule: &Rule) -> (bodies: Vec<Vec<Step>>)
    requires
        forall|i: int| 0 <= i < rule@.len() ==> (#[trigger] rule@[i]).item.has_body(),
    ensures
        holds_bodies(bodies@, rule@),
{
    let mut bodies: Vec<Vec<Step>> = Vec::new();
    let mut i: usize = 0;
    while i < rule.len()
        invariant
            i <= rule@.len(),
            bodies@.len() == i,
            forall|j: int| 0 <= j < rule@.len() ==> (#[trigger] rule@[j]).item.has_body(),
            forall|j: int|
                0 <= j < i ==> steps_view((#[trigger] bodies@[j])@) == rule@[j].item.body(),
        decreases rule@.len() - i,
    {
        assert(rule@[i as int].item.has_body());
        bodies.push(rule.alternative(i).item.to_output());
        i += 1;
    }
    bodies
}

} // verus!
