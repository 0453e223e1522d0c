//! The notation in which rules are written down:
//!
//! ```text
//! rule        := (alternative (',' alternative)* ','?)?
//! alternative := items '=>' IDENT
//! items       := (item ('*' | '+' | '?')?)*
//! item        := IDENT (':' IDENT)? | LITERAL | '(' items ')'
//! ```
//!
//! A literal is the text of a keyword or punctuation mark. One item stands for
//! itself, and any other number of items for their sequence.

use vstd::prelude::*;
use vstd::string::StringSliceAdditionalSpecFns;
use vstd::utf8::encode_utf8;

use super::{
    dispatch_order, matchers_view, wildcard_alternatives, GrammarError, Rule, RuleItem,
    RuleItemView, RuleMatcher, RuleMatcherView,
};
use crate::lexer::{fixed_token, Token};

verus! {

/// A token of the notation. What stands between parentheses is one token.
#[derive(Debug, PartialEq)]
pub enum RuleToken {
    Ident(String),
    Literal(String),
    Colon,
    Star,
    Plus,
    Question,
    Arrow,
    Comma,
    Group(Vec<RuleToken>),
}

/// The mathematical value of a [`RuleToken`].
pub enum RuleTokenView {
    Ident(Seq<char>),
    Literal(Seq<char>),
    Colon,
    Star,
    Plus,
    Question,
    Arrow,
    Comma,
    Group(Seq<RuleTokenView>),
}

/// The value of a token of the notation.
pub open spec fn rule_token_view(token: RuleToken) -> RuleTokenView
    decreases token,
{
    match token {
        RuleToken::Ident(name) => RuleTokenView::Ident(name@),
        RuleToken::Literal(text) => RuleTokenView::Literal(text@),
        RuleToken::Colon => RuleTokenView::Colon,
        RuleToken::Star => RuleTokenView::Star,
        RuleToken::Plus => RuleTokenView::Plus,
        RuleToken::Question => RuleTokenView::Question,
        RuleToken::Arrow => RuleTokenView::Arrow,
        RuleToken::Comma => RuleTokenView::Comma,
        RuleToken::Group(tokens) => RuleTokenView::Group(
            Seq::new(
                tokens@.len(),
                |i: int|
                    if 0 <= i < tokens@.len() {
                        rule_token_view(tokens@[i])
                    } else {
                        arbitrary()
                    },
            ),
        ),
    }
}

impl View for RuleToken {
    type V = RuleTokenView;

    open spec fn view(&self) -> RuleTokenView {
        rule_token_view(*self)
    }
}

/// The value of each token of a list, in order.
pub open spec fn rule_tokens_view(tokens: Seq<RuleToken>) -> Seq<RuleTokenView> {
    Seq::new(tokens.len(), |i: int| tokens[i]@)
}

/// What a list of items stands for: the item where there is one, else the sequence.
pub open spec fn fold_items(items: Seq<RuleItemView>) -> RuleItemView {
    if items.len() == 1 {
        items[0]
    } else {
        RuleItemView::Sequence(items)
    }
}

/// Whether an item starts with the token.
pub open spec fn starts_item(token: RuleTokenView) -> bool {
    token is Ident || token is Literal || token is Group
}

/// Whether the token at `pos` is a colon.
pub open spec fn colon_at(tokens: Seq<RuleTokenView>, pos: int) -> bool {
    0 <= pos < tokens.len() && tokens[pos] is Colon
}

/// Where the item that starts at `pos` ends, before a modifier: a name with a
/// capture takes three tokens, everything else one.
pub open spec fn item_end(tokens: Seq<RuleTokenView>, pos: int) -> int {
    if tokens[pos] is Ident && colon_at(tokens, pos + 1) {
        pos + 3
    } else {
        pos + 1
    }
}

/// The item with the modifier at `pos`, if one stands there, and where the next item starts.
pub open spec fn with_modifier(item: RuleItemView, tokens: Seq<RuleTokenView>, pos: int) -> (
    RuleItemView,
    int,
) {
    if 0 <= pos < tokens.len() && tokens[pos] is Star {
        (RuleItemView::ZeroOrMore(Box::new(item)), pos + 1)
    } else if 0 <= pos < tokens.len() && tokens[pos] is Plus {
        (RuleItemView::OneOrMore(Box::new(item)), pos + 1)
    } else if 0 <= pos < tokens.len() && tokens[pos] is Question {
        (RuleItemView::Optional(Box::new(item)), pos + 1)
    } else {
        (item, pos)
    }
}

/// The items from `pos` on, up to a token that starts no item, and where that token stands.
pub open spec fn parse_items(tokens: Seq<RuleTokenView>, pos: int) -> Result<
    (Seq<RuleItemView>, int),
    GrammarError,
>
    decreases tokens, tokens.len() - pos,
{
    if 0 <= pos < tokens.len() && starts_item(tokens[pos]) {
        let item = match tokens[pos] {
            RuleTokenView::Ident(name) => {
                if colon_at(tokens, pos + 1) {
                    if pos + 2 < tokens.len() && tokens[pos + 2] is Ident {
                        Ok(
                            RuleItemView::NamedRule {
                                name,
                                capture_as: Some(tokens[pos + 2]->Ident_0),
                            },
                        )
                    } else {
                        Err(GrammarError::MissingCapture)
                    }
                } else {
                    Ok(RuleItemView::NamedRule { name, capture_as: None })
                }
            },
            RuleTokenView::Literal(text) => match fixed_token(encode_utf8(text)) {
                Some(token) => Ok(RuleItemView::Token(token)),
                None => Err(GrammarError::InvalidToken),
            },
            RuleTokenView::Group(inner) => parse_group(inner),
            _ => Err(GrammarError::UnexpectedToken),
        };
        match item {
            Ok(item) => {
                let (item, next) = with_modifier(item, tokens, item_end(tokens, pos));
                match parse_items(tokens, next) {
                    Ok((rest, end)) => Ok((seq![item] + rest, end)),
                    Err(error) => Err(error),
                }
            },
            Err(error) => Err(error),
        }
    } else {
        Ok((Seq::empty(), pos))
    }
}

/// What the tokens stand for, all of them: an item, or the sequence of several.
pub open spec fn parse_group(tokens: Seq<RuleTokenView>) -> Result<RuleItemView, GrammarError>
    decreases tokens, tokens.len() + 1,
{
    match parse_items(tokens, 0) {
        Ok((items, end)) => if end >= tokens.len() {
            Ok(fold_items(items))
        } else {
            Err(GrammarError::UnexpectedToken)
        },
        Err(error) => Err(error),
    }
}

/// The alternative that starts at `pos`: items, `=>`, and the name of what it
/// yields; and where the token behind it stands.
pub open spec fn parse_alternative(tokens: Seq<RuleTokenView>, pos: int) -> Result<
    (RuleMatcherView, int),
    GrammarError,
> {
    match parse_items(tokens, pos) {
        Ok((items, arrow)) => {
            if 0 <= arrow < tokens.len() && tokens[arrow] is Arrow {
                if arrow + 1 < tokens.len() && tokens[arrow + 1] is Ident {
                    Ok(
                        (
                            RuleMatcherView {
                                item: fold_items(items),
                                output: tokens[arrow + 1]->Ident_0,
                            },
                            arrow + 2,
                        ),
                    )
                } else {
                    Err(GrammarError::MissingOutput)
                }
            } else {
                Err(GrammarError::MissingArrow)
            }
        },
        Err(error) => Err(error),
    }
}

/// Items end at or behind where they start, within the tokens.
pub proof fn lemma_items_end(tokens: Seq<RuleTokenView>, pos: int)
    requires
        0 <= pos <= tokens.len(),
    ensures
        parse_items(tokens, pos) matches Ok((items, end)) ==> pos <= end,
    decreases tokens.len() - pos,
{
    if pos < tokens.len() && starts_item(tokens[pos]) {
        if let Ok((items, end)) = parse_items(tokens, pos) {
            let item = match tokens[pos] {
                RuleTokenView::Ident(name) => RuleItemView::NamedRule {
                    name,
                    capture_as: if colon_at(tokens, pos + 1) {
                        Some(tokens[pos + 2]->Ident_0)
                    } else {
                        None
                    },
                },
                RuleTokenView::Literal(text) => RuleItemView::Token(
                    fixed_token(encode_utf8(text))->0,
                ),
                RuleTokenView::Group(inner) => parse_group(inner)->Ok_0,
                _ => arbitrary(),
            };
            let (_, next) = with_modifier(item, tokens, item_end(tokens, pos));
            if next <= tokens.len() {
                lemma_items_end(tokens, next);
            }
        }
    }
}

/// The alternatives from `pos` on, with a comma between two, and one at the end or none.
pub open spec fn parse_alternatives(tokens: Seq<RuleTokenView>, pos: int) -> Result<
    Seq<RuleMatcherView>,
    GrammarError,
>
    decreases tokens.len() - pos,
{
    if pos >= tokens.len() || pos < 0 {
        Ok(Seq::empty())
    } else {
        match parse_alternative(tokens, pos) {
            Ok((matcher, next)) => {
                proof {
                    lemma_items_end(tokens, pos);
                }
                if next >= tokens.len() {
                    Ok(seq![matcher])
                } else if tokens[next] is Comma {
                    match parse_alternatives(tokens, next + 1) {
                        Ok(rest) => Ok(seq![matcher] + rest),
                        Err(error) => Err(error),
                    }
                } else {
                    Err(GrammarError::UnexpectedToken)
                }
            },
            Err(error) => Err(error),
        }
    }
}

/// The rule that the tokens write down, unless its alternatives are ambiguous.
pub open spec fn parse_rule(tokens: Seq<RuleTokenView>) -> Result<
    Seq<RuleMatcherView>,
    GrammarError,
> {
    match parse_alternatives(tokens, 0) {
        Ok(matchers) => if wildcard_alternatives(matchers).len() > 1 {
            Err(GrammarError::Ambiguous)
        } else {
            Ok(dispatch_order(matchers))
        },
        Err(error) => Err(error),
    }
}

/// The value of each item of a list, in order.
pub open spec fn items_view(items: Seq<RuleItem>) -> Seq<RuleItemView> {
    Seq::new(items.len(), |i: int| items[i]@)
}

/// The items parsed so far, put before what parsing the rest gives.
pub open spec fn prepend_items(
    prefix: Seq<RuleItemView>,
    rest: Result<(Seq<RuleItemView>, int), GrammarError>,
) -> Result<(Seq<RuleItemView>, int), GrammarError> {
    match rest {
        Ok((items, end)) => Ok((prefix + items, end)),
        Err(error) => Err(error),
    }
}

/// The alternatives parsed so far, put before what parsing the rest gives.
pub open spec fn prepend_alternatives(
    prefix: Seq<RuleMatcherView>,
    rest: Result<Seq<RuleMatcherView>, GrammarError>,
) -> Result<Seq<RuleMatcherView>, GrammarError> {
    match rest {
        Ok(matchers) => Ok(prefix + matchers),
        Err(error) => Err(error),
    }
}

/// What a list of items stands for: the item where there is one, else the sequence.
fn fold(items: Vec<RuleItem>) -> (item: RuleItem)
    ensures
        item@ == fold_items(items_view(items@)),
{
    let mut items = items;
    if items.len() == 1 {
        let ghost before = items@;
        match items.pop() {
            Some(item) => {
                assert(item@ == items_view(before)[0]);
                item
            },
            None => RuleItem::Sequence(items),
        }
    } else {
        let ghost views = items_view(items@);
        let item = RuleItem::Sequence(items);
        assert(item@->Sequence_0 =~= views);
        item
    }
}

/// The items from `pos` on, up to a token that starts no item, and where that token stands.
fn parse_items_from(tokens: &Vec<RuleToken>, pos: usize) -> (parsed: Result<
    (Vec<RuleItem>, usize),
    GrammarError,
>)
    requires
        pos <= tokens@.len(),
    ensures
        match parse_items(rule_tokens_view(tokens@), pos as int) {
            Ok((items, end)) => {
                &&& parsed matches Ok(found)
                &&& items_view(found.0@) == items
                &&& found.1 == end
                &&& pos <= end <= tokens@.len()
            },
            Err(error) => parsed == Err::<(Vec<RuleItem>, usize), GrammarError>(error),
        },
    decreases tokens, 0nat,
{
    let ghost all = rule_tokens_view(tokens@);
    let mut items: Vec<RuleItem> = Vec::new();
    let mut i: usize = pos;
    assert(items_view(items@) =~= Seq::empty());
    assert(parse_items(all, pos as int) matches Ok((rest, end)) ==> Seq::<RuleItemView>::empty()
        + rest =~= rest);
    loop
        invariant_except_break
            parse_items(all, pos as int) == prepend_items(
                items_view(items@),
                parse_items(all, i as int),
            ),
        invariant
            pos <= i <= tokens@.len(),
            all == rule_tokens_view(tokens@),
        ensures
            parse_items(all, pos as int) == Ok::<(Seq<RuleItemView>, int), GrammarError>(
                (items_view(items@), i as int),
            ),
        decreases tokens@.len() - i,
    {
        let ghost before = items_view(items@);
        if i >= tokens.len() {
            assert(before + Seq::<RuleItemView>::empty() =~= before);
            break ;
        }
        assert(all[i as int] == tokens@[i as int]@);
        let mut next: usize = i + 1;
        let item = match &tokens[i] {
            RuleToken::Ident(name) => {
                let captured = if i + 1 < tokens.len() {
                    assert(all[i + 1] == tokens@[i + 1]@);
                    match &tokens[i + 1] {
                        RuleToken::Colon => true,
                        _ => false,
                    }
                } else {
                    false
                };
                assert(captured == colon_at(all, i + 1));
                if captured {
                    if i + 2 < tokens.len() {
                        assert(all[i + 2] == tokens@[i + 2]@);
                        match &tokens[i + 2] {
                            RuleToken::Ident(capture) => {
                                next = i + 3;
                                RuleItem::NamedRule {
                                    name: name.clone(),
                                    capture_as: Some(capture.clone()),
                                }
                            },
                            _ => {
                                return Err(GrammarError::MissingCapture);
                            },
                        }
                    } else {
                        return Err(GrammarError::MissingCapture);
                    }
                } else {
                    RuleItem::NamedRule { name: name.clone(), capture_as: None }
                }
            },
            RuleToken::Literal(text) => match Token::from_text(text.as_str()) {
                Some(token) => RuleItem::Token(token),
                None => {
                    return Err(GrammarError::InvalidToken);
                },
            },
            RuleToken::Group(inner) => {
                proof {
                    assert(decreases_to!(tokens => tokens[i as int]));
                    assert(all[i as int]->Group_0 =~= rule_tokens_view(inner@));
                }
                match RuleItem::parse(inner) {
                    Ok(item) => item,
                    Err(error) => {
                        return Err(error);
                    },
                }
            },
            _ => {
                assert(!starts_item(all[i as int]));
                assert(before + Seq::<RuleItemView>::empty() =~= before);
                break ;
            },
        };
        assert(next == item_end(all, i as int));
        let ghost plain = item@;
        let item = if next < tokens.len() {
            assert(all[next as int] == tokens@[next as int]@);
            match &tokens[next] {
                RuleToken::Star => {
                    next = next + 1;
                    RuleItem::ZeroOrMore(Box::new(item))
                },
                RuleToken::Plus => {
                    next = next + 1;
                    RuleItem::OneOrMore(Box::new(item))
                },
                RuleToken::Question => {
                    next = next + 1;
                    RuleItem::Optional(Box::new(item))
                },
                _ => item,
            }
        } else {
            item
        };
        assert((item@, next as int) == with_modifier(plain, all, item_end(all, i as int)));
        let ghost added = item@;
        items.push(item);
        proof {
            assert(items_view(items@) =~= before.push(added));
            if let Ok((rest, end)) = parse_items(all, next as int) {
                assert(before + (seq![added] + rest) =~= before.push(added) + rest);
            }
        }
        i = next;
    }
    Ok((items, i))
}

impl RuleItem {
    /// What the tokens stand for, all of them: an item, or the sequence of several.
    pub fn parse(tokens: &Vec<RuleToken>) -> (parsed: Result<RuleItem, GrammarError>)
        ensures
            match parse_group(rule_tokens_view(tokens@)) {
                Ok(item) => parsed matches Ok(found) && found@ == item,
                Err(error) => parsed == Err::<RuleItem, GrammarError>(error),
            },
        decreases tokens, 1nat,
    {
        match parse_items_from(tokens, 0) {
            Ok((items, end)) => {
                if end >= tokens.len() {
                    Ok(fold(items))
                } else {
                    Err(GrammarError::UnexpectedToken)
                }
            },
            Err(error) => Err(error),
        }
    }
}

impl RuleMatcher {
    /// The alternative that starts at `pos`, and where the token behind it stands.
    fn parse_from(tokens: &Vec<RuleToken>, pos: usize) -> (parsed: Result<
        (RuleMatcher, usize),
        GrammarError,
    >)
        requires
            pos <= tokens@.len(),
        ensures
            match parse_alternative(rule_tokens_view(tokens@), pos as int) {
                Ok((matcher, end)) => {
                    &&& parsed matches Ok(found)
                    &&& found.0@ == matcher
                    &&& found.1 == end
                    &&& pos < end <= tokens@.len()
                },
                Err(error) => parsed == Err::<(RuleMatcher, usize), GrammarError>(error),
            },
    {
        let ghost all = rule_tokens_view(tokens@);
        let (items, arrow) = match parse_items_from(tokens, pos) {
            Ok(found) => found,
            Err(error) => {
                return Err(error);
            },
        };
        if arrow >= tokens.len() {
            return Err(GrammarError::MissingArrow);
        }
        assert(all[arrow as int] == tokens@[arrow as int]@);
        match &tokens[arrow] {
            RuleToken::Arrow => {},
            _ => {
                return Err(GrammarError::MissingArrow);
            },
        }
        if arrow + 1 >= tokens.len() {
            return Err(GrammarError::MissingOutput);
        }
        assert(all[arrow + 1] == tokens@[arrow + 1]@);
        match &tokens[arrow + 1] {
            RuleToken::Ident(output) => Ok(
                (RuleMatcher { item: fold(items), output: output.clone() }, arrow + 2),
            ),
            _ => Err(GrammarError::MissingOutput),
        }
    }

    /// The alternative that the tokens write down, all of them.
    pub fn parse(tokens: &Vec<RuleToken>) -> (parsed: Result<RuleMatcher, GrammarError>)
        ensures
            match parse_alternative(rule_tokens_view(tokens@), 0) {
                Ok((matcher, end)) => if end == tokens@.len() {
                    parsed matches Ok(found) && found@ == matcher
                } else {
                    parsed == Err::<RuleMatcher, GrammarError>(GrammarError::UnexpectedToken)
                },
                Err(error) => parsed == Err::<RuleMatcher, GrammarError>(error),
            },
    {
        match RuleMatcher::parse_from(tokens, 0) {
            Ok((matcher, end)) => {
                if end == tokens.len() {
                    Ok(matcher)
                } else {
                    Err(GrammarError::UnexpectedToken)
                }
            },
            Err(error) => Err(error),
        }
    }
}

impl Rule {
    /// The rule that the tokens write down: its alternatives in dispatch
    /// order, unless more than one of them starts with a wildcard.
    pub fn parse(tokens: &Vec<RuleToken>) -> (parsed: Result<Rule, GrammarError>)
        ensures
            match parse_rule(rule_tokens_view(tokens@)) {
                Ok(rule) => parsed matches Ok(found) && found@ == rule,
                Err(error) => parsed matches Err(given) && given == error,
            },
    {
        let ghost all = rule_tokens_view(tokens@);
        let mut matchers: Vec<RuleMatcher> = Vec::new();
        let mut i: usize = 0;
        assert(matchers_view(matchers@) =~= Seq::empty());
        assert(parse_alternatives(all, 0) matches Ok(rest) ==> Seq::<RuleMatcherView>::empty()
            + rest =~= rest);
        while i < tokens.len()
            invariant
                i <= tokens@.len(),
                all == rule_tokens_view(tokens@),
                parse_alternatives(all, 0) == prepend_alternatives(
                    matchers_view(matchers@),
                    parse_alternatives(all, i as int),
                ),
            decreases tokens@.len() - i,
        {
            let ghost before = matchers_view(matchers@);
            let (matcher, next) = match RuleMatcher::parse_from(tokens, i) {
                Ok(found) => found,
                Err(error) => {
                    return Err(error);
                },
            };
            let ghost added = matcher@;
            matchers.push(matcher);
            assert(matchers_view(matchers@) =~= before.push(added));
            if next < tokens.len() {
                assert(all[next as int] == tokens@[next as int]@);
                match &tokens[next] {
                    RuleToken::Comma => {
                        i = next + 1;
                        proof {
                            if let Ok(rest) = parse_alternatives(all, i as int) {
                                assert(before + (seq![added] + rest) =~= before.push(added) + rest);
                            }
                        }
                    },
                    _ => {
                        return Err(GrammarError::UnexpectedToken);
                    },
                }
            } else {
                i = next;
                proof {
                    assert(before + seq![added] =~= before.push(added));
                    assert(before.push(added) + Seq::<RuleMatcherView>::empty() =~= before.push(
                        added,
                    ));
                }
            }
        }
        assert(matchers_view(matchers@) + Seq::<RuleMatcherView>::empty() =~= matchers_view(
            matchers@,
        ));
        Rule::new(matchers)
    }
}

} // verus!
