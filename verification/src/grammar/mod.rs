//! The grammar matcher: rules made of alternatives, the token pattern that
//! selects each alternative, and the check that a rule is not ambiguous.

use vstd::prelude::*;
use vstd::string::StringExecFns;

use crate::lexer::{Token, TokenView};

pub mod body;
pub mod notation;

verus! {

/// One item of an alternative.
#[derive(Debug, PartialEq)]
pub enum RuleItem {
    /// A literal token.
    Token(Token),
    /// Another rule, or one of the token classes `ident` and `number`; what it
    /// yields may be captured under a name.
    NamedRule { name: String, capture_as: Option<String> },
    /// The item, or nothing.
    Optional(Box<RuleItem>),
    /// The item any number of times.
    ZeroOrMore(Box<RuleItem>),
    /// The item at least once.
    OneOrMore(Box<RuleItem>),
    /// The items one after the other.
    Sequence(Vec<RuleItem>),
}

/// The mathematical value of a [`RuleItem`].
pub enum RuleItemView {
    Token(TokenView),
    NamedRule { name: Seq<char>, capture_as: Option<Seq<char>> },
    Optional(Box<RuleItemView>),
    ZeroOrMore(Box<RuleItemView>),
    OneOrMore(Box<RuleItemView>),
    Sequence(Seq<RuleItemView>),
}

/// The value of an optional text.
pub open spec fn option_text_view(text: Option<String>) -> Option<Seq<char>> {
    match text {
        Some(text) => Some(text@),
        None => None,
    }
}

/// The value of a rule item.
pub open spec fn rule_item_view(item: RuleItem) -> RuleItemView
    decreases item,
{
    match item {
        RuleItem::Token(token) => RuleItemView::Token(token@),
        RuleItem::NamedRule { name, capture_as } => RuleItemView::NamedRule {
            name: name@,
            capture_as: option_text_view(capture_as),
        },
        RuleItem::Optional(inner) => RuleItemView::Optional(Box::new(rule_item_view(*inner))),
        RuleItem::ZeroOrMore(inner) => RuleItemView::ZeroOrMore(Box::new(rule_item_view(*inner))),
        RuleItem::OneOrMore(inner) => RuleItemView::OneOrMore(Box::new(rule_item_view(*inner))),
        RuleItem::Sequence(items) => RuleItemView::Sequence(
            Seq::new(
                items@.len(),
                |i: int|
                    if 0 <= i < items@.len() {
                        rule_item_view(items@[i])
                    } else {
                        arbitrary()
                    },
            ),
        ),
    }
}

impl View for RuleItem {
    type V = RuleItemView;

    open spec fn view(&self) -> RuleItemView {
        rule_item_view(*self)
    }
}

/// What an alternative asks of the current token before it is tried.
#[derive(Debug, PartialEq)]
pub enum Pattern {
    /// This very token.
    Exact(Token),
    /// Any identifier.
    AnyIdent,
    /// Any number literal.
    AnyNumber,
    /// Any token at all.
    Wildcard,
}

/// The mathematical value of a [`Pattern`].
pub enum PatternView {
    Exact(TokenView),
    AnyIdent,
    AnyNumber,
    Wildcard,
}

impl View for Pattern {
    type V = PatternView;

    open spec fn view(&self) -> PatternView {
        match self {
            Pattern::Exact(token) => PatternView::Exact(token@),
            Pattern::AnyIdent => PatternView::AnyIdent,
            Pattern::AnyNumber => PatternView::AnyNumber,
            Pattern::Wildcard => PatternView::Wildcard,
        }
    }
}

impl PatternView {
    /// Whether the pattern lets the token through.
    pub open spec fn accepts(self, token: TokenView) -> bool {
        match self {
            PatternView::Exact(expected) => token == expected,
            PatternView::AnyIdent => token is Ident,
            PatternView::AnyNumber => token is NumberLit,
            PatternView::Wildcard => true,
        }
    }

    /// Whether the pattern tells tokens apart.
    pub open spec fn is_specific(self) -> bool {
        !(self is Wildcard)
    }
}

impl Pattern {
    /// Whether the pattern lets the token through.
    pub fn accepts(&self, token: &Token) -> (accepted: bool)
        ensures
            accepted == self@.accepts(token@),
    {
        match self {
            Pattern::Exact(expected) => token.same(expected),
            Pattern::AnyIdent => match token {
                Token::Ident(_) => true,
                _ => false,
            },
            Pattern::AnyNumber => match token {
                Token::NumberLit(_) => true,
                _ => false,
            },
            Pattern::Wildcard => true,
        }
    }
}

/// The name of the token class of identifiers.
pub open spec fn ident_class() -> Seq<char> {
    seq!['i', 'd', 'e', 'n', 't']
}

/// The name of the token class of number literals.
pub open spec fn number_class() -> Seq<char> {
    seq!['n', 'u', 'm', 'b', 'e', 'r']
}

impl RuleItemView {
    /// The pattern that selects an alternative starting with this item: that of
    /// a literal token or a token class, that of the first item of a sequence,
    /// and the wildcard for everything else.
    pub open spec fn pattern(self) -> PatternView
        decreases self,
    {
        match self {
            RuleItemView::Token(token) => PatternView::Exact(token),
            RuleItemView::NamedRule { name, capture_as } => {
                if name == ident_class() {
                    PatternView::AnyIdent
                } else if name == number_class() {
                    PatternView::AnyNumber
                } else {
                    PatternView::Wildcard
                }
            },
            RuleItemView::Sequence(items) => {
                if items.len() == 0 {
                    PatternView::Wildcard
                } else {
                    items[0].pattern()
                }
            },
            _ => PatternView::Wildcard,
        }
    }
}

impl RuleItem {
    /// The pattern that selects an alternative starting with this item, and
    /// whether it is specific, that is, no wildcard.
    pub fn to_pattern(&self) -> (pattern: (Pattern, bool))
        ensures
            pattern.0@ == self@.pattern(),
            pattern.1 == self@.pattern().is_specific(),
        decreases self,
    {
        match self {
            RuleItem::Token(token) => (Pattern::Exact(token.clone()), true),
            RuleItem::NamedRule { name, capture_as } => {
                proof {
                    reveal_strlit("ident");
                    reveal_strlit("number");
                }
                let ident = String::from_str("ident");
                let number = String::from_str("number");
                assert(ident@ =~= ident_class());
                assert(number@ =~= number_class());
                if *name == ident {
                    (Pattern::AnyIdent, true)
                } else if *name == number {
                    (Pattern::AnyNumber, true)
                } else {
                    (Pattern::Wildcard, false)
                }
            },
            RuleItem::Sequence(items) => {
                if items.len() == 0 {
                    (Pattern::Wildcard, false)
                } else {
                    items[0].to_pattern()
                }
            },
            _ => (Pattern::Wildcard, false),
        }
    }
}

/// Why a rule cannot be used.
#[derive(Debug, Clone, Copy, PartialEq, Eq)]
pub enum GrammarError {
    /// More than one alternative of the rule starts with a wildcard pattern.
    Ambiguous,
    /// A literal is not the text of a keyword or punctuation mark.
    InvalidToken,
    /// A colon is not followed by the name to capture under.
    MissingCapture,
    /// An alternative has no `=>`.
    MissingArrow,
    /// A `=>` is not followed by the name of what the alternative yields.
    MissingOutput,
    /// A token stands where none can.
    UnexpectedToken,
}

/// One alternative of a rule: what it is made of, and the name of what it yields.
#[derive(Debug, PartialEq)]
pub struct RuleMatcher {
    pub item: RuleItem,
    pub output: String,
}

/// The mathematical value of a [`RuleMatcher`].
pub struct RuleMatcherView {
    pub item: RuleItemView,
    pub output: Seq<char>,
}

impl View for RuleMatcher {
    type V = RuleMatcherView;

    open spec fn view(&self) -> RuleMatcherView {
        RuleMatcherView { item: self.item@, output: self.output@ }
    }
}

impl RuleMatcherView {
    /// Whether the alternative starts with a pattern that tells tokens apart.
    pub open spec fn is_specific(self) -> bool {
        self.item.pattern().is_specific()
    }
}

/// The value of each alternative of a list, in order.
pub open spec fn matchers_view(matchers: Seq<RuleMatcher>) -> Seq<RuleMatcherView> {
    Seq::new(matchers.len(), |i: int| matchers[i]@)
}

/// The alternatives that start with a specific pattern, in their order.
pub open spec fn specific_alternatives(matchers: Seq<RuleMatcherView>) -> Seq<RuleMatcherView> {
    matchers.filter(|matcher: RuleMatcherView| matcher.is_specific())
}

/// The alternatives that start with a wildcard, in their order.
pub open spec fn wildcard_alternatives(matchers: Seq<RuleMatcherView>) -> Seq<RuleMatcherView> {
    matchers.filter(|matcher: RuleMatcherView| !matcher.is_specific())
}

/// The order in which a rule tries its alternatives: the specific ones first,
/// as they were listed, the wildcard one last. A rule of one alternative keeps it as it is.
pub open spec fn dispatch_order(matchers: Seq<RuleMatcherView>) -> Seq<RuleMatcherView> {
    specific_alternatives(matchers) + wildcard_alternatives(matchers)
}

/// The first alternative from `from` on whose pattern lets the token through.
pub open spec fn first_accepting(
    alternatives: Seq<RuleMatcherView>,
    token: TokenView,
    from: int,
) -> Option<int>
    decreases alternatives.len() - from,
{
    if from < 0 || from >= alternatives.len() {
        None
    } else if alternatives[from].item.pattern().accepts(token) {
        Some(from)
    } else {
        first_accepting(alternatives, token, from + 1)
    }
}

/// The alternative that a rule takes on a token: the only one where there is
/// one, else the first in dispatch order whose pattern lets the token through.
pub open spec fn selected(alternatives: Seq<RuleMatcherView>, token: TokenView) -> Option<int> {
    if alternatives.len() == 1 {
        Some(0)
    } else {
        first_accepting(alternatives, token, 0)
    }
}

/// Alternatives that are all specific are tried in the order in which they are listed.
pub proof fn lemma_all_specific(matchers: Seq<RuleMatcherView>)
    requires
        forall|i: int| 0 <= i < matchers.len() ==> (#[trigger] matchers[i]).is_specific(),
    ensures
        specific_alternatives(matchers) == matchers,
        wildcard_alternatives(matchers).len() == 0,
        dispatch_order(matchers) == matchers,
    decreases matchers.len(),
{
    reveal(Seq::filter);
    if matchers.len() > 0 {
        lemma_all_specific(matchers.drop_last());
        assert(matchers.drop_last().push(matchers.last()) =~= matchers);
    }
    assert(specific_alternatives(matchers) =~= matchers);
    assert(wildcard_alternatives(matchers) =~= Seq::empty());
    assert(dispatch_order(matchers) =~= matchers);
}

/// A single alternative is a rule, whatever it starts with.
pub proof fn lemma_single_alternative(matchers: Seq<RuleMatcherView>)
    requires
        matchers.len() == 1,
    ensures
        wildcard_alternatives(matchers).len() <= 1,
        dispatch_order(matchers) == matchers,
{
    reveal(Seq::filter);
    assert(matchers.drop_last() =~= Seq::empty());
    assert(matchers.drop_last().filter(|matcher: RuleMatcherView| matcher.is_specific())
        =~= Seq::empty());
    assert(matchers.drop_last().filter(|matcher: RuleMatcherView| !matcher.is_specific())
        =~= Seq::empty());
    assert(dispatch_order(matchers) =~= matchers);
}

/// A rule: its alternatives in dispatch order, of which at most one starts with a wildcard.
pub struct Rule {
    matchers: Vec<RuleMatcher>,
}

impl View for Rule {
    type V = Seq<RuleMatcherView>;

    closed spec fn view(&self) -> Seq<RuleMatcherView> {
        matchers_view(self.matchers@)
    }
}

impl Rule {
    /// Makes a rule of the alternatives, or rejects them as ambiguous where more
    /// than one starts with a wildcard.
    pub fn new(matchers: Vec<RuleMatcher>) -> (made: Result<Rule, GrammarError>)
        ensures
            match made {
                Ok(rule) => {
                    &&& wildcard_alternatives(matchers_view(matchers@)).len() <= 1
                    &&& rule@ == dispatch_order(matchers_view(matchers@))
                },
                Err(error) => {
                    &&& error == GrammarError::Ambiguous
                    &&& wildcard_alternatives(matchers_view(matchers@)).len() > 1
                },
            },
    {
        let ghost all = matchers_view(matchers@);
        let ghost is_specific = |matcher: RuleMatcherView| matcher.is_specific();
        let ghost is_wildcard = |matcher: RuleMatcherView| !matcher.is_specific();
        let mut left = matchers;
        let mut specific: Vec<RuleMatcher> = Vec::new();
        let mut wildcard: Vec<RuleMatcher> = Vec::new();
        let ghost mut done: int = 0;
        proof {
            reveal(Seq::filter);
            assert(all.take(0) =~= Seq::empty());
            assert(all.skip(0) =~= all);
        }
        while left.len() > 0
            invariant
                0 <= done <= all.len(),
                matchers_view(left@) == all.skip(done),
                matchers_view(specific@) == all.take(done).filter(is_specific),
                matchers_view(wildcard@) == all.take(done).filter(is_wildcard),
                is_specific == |matcher: RuleMatcherView| matcher.is_specific(),
                is_wildcard == |matcher: RuleMatcherView| !matcher.is_specific(),
            decreases left.len(),
        {
            let ghost before = left@;
            let ghost specific_before = specific@;
            let ghost wildcard_before = wildcard@;
            let matcher = left.remove(0);
            let (_, this_is_specific) = matcher.item.to_pattern();
            proof {
                reveal(Seq::filter);
                assert(matchers_view(before).len() == all.skip(done).len());
                assert(done < all.len());
                assert(matcher@ == matchers_view(before)[0]);
                assert(matchers_view(before)[0] == all.skip(done)[0]);
                assert(matcher@ == all[done]);
                assert(all.take(done + 1).drop_last() =~= all.take(done));
                assert(all.take(done + 1).last() == all[done]);
                assert(matchers_view(left@) =~= all.skip(done + 1)) by {
                    assert forall|i: int| 0 <= i < left@.len() implies matchers_view(left@)[i]
                        == all.skip(done + 1)[i] by {
                        assert(left@[i] == before[i + 1]);
                        assert(matchers_view(before)[i + 1] == all.skip(done)[i + 1]);
                    }
                }
            }
            if this_is_specific {
                specific.push(matcher);
                assert(matchers_view(specific@) =~= matchers_view(specific_before).push(matcher@));
            } else {
                wildcard.push(matcher);
                assert(matchers_view(wildcard@) =~= matchers_view(wildcard_before).push(matcher@));
            }
            proof {
                done = done + 1;
            }
        }
        assert(all.take(done) =~= all);
        if wildcard.len() > 1 {
            return Err(GrammarError::Ambiguous);
        }
        let ghost specific_before = specific@;
        let ghost wildcard_before = wildcard@;
        specific.append(&mut wildcard);
        let rule = Rule { matchers: specific };
        assert(rule@ =~= dispatch_order(all)) by {
            assert(rule.matchers@ == specific_before + wildcard_before);
            assert(matchers_view(specific_before + wildcard_before) =~= matchers_view(
                specific_before,
            ) + matchers_view(wildcard_before));
        }
        Ok(rule)
    }

    /// How many alternatives the rule has.
    pub fn len(&self) -> (count: usize)
        ensures
            count == self@.len(),
    {
        self.matchers.len()
    }

    /// The alternative at `index` in dispatch order.
    pub fn alternative(&self, index: usize) -> (matcher: &RuleMatcher)
        requires
            index < self@.len(),
        ensures
            matcher@ == self@[index as int],
    {
        &self.matchers[index]
    }

    /// The alternative to take on the token, by its index in dispatch order;
    /// `None` where no alternative takes it.
    pub fn select(&self, token: &Token) -> (choice: Option<usize>)
        ensures
            match selected(self@, token@) {
                Some(index) => choice == Some(index as usize) && 0 <= index < self@.len(),
                None => choice is None,
            },
    {
        if self.matchers.len() == 1 {
            return Some(0);
        }
        let mut index: usize = 0;
        while index < self.matchers.len()
            invariant
                index <= self.matchers@.len(),
                first_accepting(self@, token@, 0) == first_accepting(self@, token@, index as int),
            decreases self.matchers@.len() - index,
        {
            let (pattern, _) = self.matchers[index].item.to_pattern();
            if pattern.accepts(token) {
                return Some(index);
            }
            index += 1;
        }
        None
    }
}

} // verus!
