//! The body of an alternative: the steps that parse what the alternative is
//! made of and bind what it captures.

use vstd::prelude::*;
use vstd::string::StringExecFns;

use super::{
    ident_class, number_class, option_text_view, Pattern, PatternView, RuleItem, RuleItemView,
};
use crate::lexer::{Token, TokenView};

verus! {

/// One step of a body.
#[derive(Debug, PartialEq)]
pub enum Step {
    /// The current token must be this one; the cursor steps over it.
    Expect(Token),
    /// The current token must be an identifier; it is captured, and the cursor steps over it.
    TakeIdent { capture_as: Option<String> },
    /// The current token must be a number; it is captured, and the cursor steps over it.
    TakeNumber { capture_as: Option<String> },
    /// The rule of the name is parsed, and what it yields is captured.
    Call { rule: String, capture_as: Option<String> },
    /// Where the current token meets the pattern, the steps are taken; where
    /// it does not, the captures stay empty.
    Optional { pattern: Pattern, steps: Vec<Step>, captures: Vec<String> },
}

/// The mathematical value of a [`Step`].
pub enum StepView {
    Expect(TokenView),
    TakeIdent { capture_as: Option<Seq<char>> },
    TakeNumber { capture_as: Option<Seq<char>> },
    Call { rule: Seq<char>, capture_as: Option<Seq<char>> },
    Optional { pattern: PatternView, steps: Seq<StepView>, captures: Seq<Seq<char>> },
}

/// The value of each text of a list, in order.
pub open spec fn texts_view(texts: Seq<String>) -> Seq<Seq<char>> {
    Seq::new(texts.len(), |i: int| texts[i]@)
}

/// The value of a step.
pub open spec fn step_view(step: Step) -> StepView
    decreases step,
{
    match step {
        Step::Expect(token) => StepView::Expect(token@),
        Step::TakeIdent { capture_as } => StepView::TakeIdent {
            capture_as: option_text_view(capture_as),
        },
        Step::TakeNumber { capture_as } => StepView::TakeNumber {
            capture_as: option_text_view(capture_as),
        },
        Step::Call { rule, capture_as } => StepView::Call {
            rule: rule@,
            capture_as: option_text_view(capture_as),
        },
        Step::Optional { pattern, steps, captures } => StepView::Optional {
            pattern: pattern@,
            steps: Seq::new(
                steps@.len(),
                |i: int|
                    if 0 <= i < steps@.len() {
                        step_view(steps@[i])
                    } else {
                        arbitrary()
                    },
            ),
            captures: texts_view(captures@),
        },
    }
}

impl View for Step {
    type V = StepView;

    open spec fn view(&self) -> StepView {
        step_view(*self)
    }
}

/// The value of each step of a list, in order.
pub open spec fn steps_view(steps: Seq<Step>) -> Seq<StepView> {
    Seq::new(steps.len(), |i: int| steps[i]@)
}

/// The names under which the first `count` of the items capture, down to the depth.
pub open spec fn captures_of(items: Seq<RuleItemView>, count: nat, depth: nat) -> Seq<Seq<char>>
    decreases items, count,
{
    if count == 0 || count > items.len() {
        Seq::empty()
    } else {
        captures_of(items, (count - 1) as nat, depth) + items[count - 1].captures(depth)
    }
}

/// The steps of the first `count` of the items, one after the other.
pub open spec fn bodies_of(items: Seq<RuleItemView>, count: nat) -> Seq<StepView>
    decreases items, count,
{
    if count == 0 || count > items.len() {
        Seq::empty()
    } else {
        bodies_of(items, (count - 1) as nat) + items[count - 1].body()
    }
}

/// Whether the first `count` of the items have a body.
pub open spec fn have_bodies(items: Seq<RuleItemView>, count: nat) -> bool
    decreases items, count,
{
    if count == 0 || count > items.len() {
        true
    } else {
        have_bodies(items, (count - 1) as nat) && items[count - 1].has_body()
    }
}

impl RuleItemView {
    /// The names under which the item captures, looking `depth` levels into
    /// it: the name of a captured rule, the names in the items of a sequence,
    /// and the names in what an optional or repeated item holds.
    pub open spec fn captures(self, depth: nat) -> Seq<Seq<char>>
        decreases self, 0nat,
    {
        if depth == 0 {
            Seq::empty()
        } else {
            match self {
                RuleItemView::Token(_) => Seq::empty(),
                RuleItemView::NamedRule { name, capture_as } => match capture_as {
                    Some(capture) => seq![capture],
                    None => Seq::empty(),
                },
                RuleItemView::Sequence(items) => captures_of(
                    items,
                    items.len(),
                    (depth - 1) as nat,
                ),
                RuleItemView::Optional(inner) => inner.captures((depth - 1) as nat),
                RuleItemView::ZeroOrMore(inner) => inner.captures((depth - 1) as nat),
                RuleItemView::OneOrMore(inner) => inner.captures((depth - 1) as nat),
            }
        }
    }

    /// Whether the item has a body: repetition has none yet.
    pub open spec fn has_body(self) -> bool
        decreases self, 0nat,
    {
        match self {
            RuleItemView::ZeroOrMore(_) => false,
            RuleItemView::OneOrMore(_) => false,
            RuleItemView::Optional(inner) => inner.has_body(),
            RuleItemView::Sequence(items) => have_bodies(items, items.len()),
            _ => true,
        }
    }

    /// The steps that parse the item: a literal token is expected, an
    /// identifier or a number is taken, another rule is called, the items of a
    /// sequence come one after the other, and an optional item is tried on
    /// the pattern it starts with.
    pub open spec fn body(self) -> Seq<StepView>
        decreases self, 0nat,
    {
        match self {
            RuleItemView::Token(token) => seq![StepView::Expect(token)],
            RuleItemView::NamedRule { name, capture_as } => {
                if name == ident_class() {
                    seq![StepView::TakeIdent { capture_as }]
                } else if name == number_class() {
                    seq![StepView::TakeNumber { capture_as }]
                } else {
                    seq![StepView::Call { rule: name, capture_as }]
                }
            },
            RuleItemView::Sequence(items) => bodies_of(items, items.len()),
            RuleItemView::Optional(inner) => seq![
                StepView::Optional {
                    pattern: inner.pattern(),
                    steps: inner.body(),
                    captures: inner.captures(1),
                },
            ],
            RuleItemView::ZeroOrMore(_) => Seq::empty(),
            RuleItemView::OneOrMore(_) => Seq::empty(),
        }
    }
}

/// A copy of the text, if there is one.
fn copy_option_text(text: &Option<String>) -> (copy: Option<String>)
    ensures
        option_text_view(copy) == option_text_view(*text),
{
    match text {
        Some(text) => Some(text.clone()),
        None => None,
    }
}

impl RuleItem {
    /// Whether the item has a body.
    pub fn has_body(&self) -> (runnable: bool)
        ensures
            runnable == self@.has_body(),
        decreases self,
    {
        match self {
            RuleItem::ZeroOrMore(_) => false,
            RuleItem::OneOrMore(_) => false,
            RuleItem::Optional(inner) => inner.has_body(),
            RuleItem::Sequence(items) => {
                let ghost views = self@->Sequence_0;
                let mut i: usize = 0;
                assert(decreases_to!(self => items));
                while i < items.len()
                    invariant
                        i <= items@.len(),
                        decreases_to!(self => items),
                        self@ == RuleItemView::Sequence(views),
                        views.len() == items@.len(),
                        forall|j: int| 0 <= j < views.len() ==> views[j] == items@[j]@,
                        have_bodies(views, i as nat),
                    decreases items@.len() - i,
                {
                    if !items[i].has_body() {
                        proof {
                            lemma_without_body(views, i as int, views.len());
                        }
                        return false;
                    }
                    i += 1;
                }
                true
            },
            _ => true,
        }
    }

    /// The names under which the item captures, looking `depth` levels into it.
    pub fn get_captures(&self, depth: usize) -> (captures: Vec<String>)
        ensures
            texts_view(captures@) == self@.captures(depth as nat),
        decreases self,
    {
        let mut captures: Vec<String> = Vec::new();
        assert(texts_view(captures@) =~= Seq::empty());
        if depth == 0 {
            return captures;
        }
        match self {
            RuleItem::Token(_) => {},
            RuleItem::NamedRule { name, capture_as } => match capture_as {
                Some(capture) => {
                    captures.push(capture.clone());
                    assert(texts_view(captures@) =~= seq![capture@]);
                },
                None => {},
            },
            RuleItem::Sequence(items) => {
                let ghost views = self@->Sequence_0;
                let mut i: usize = 0;
                assert(decreases_to!(self => items));
                while i < items.len()
                    invariant
                        i <= items@.len(),
                        depth > 0,
                        decreases_to!(self => items),
                        views.len() == items@.len(),
                        forall|j: int| 0 <= j < views.len() ==> views[j] == items@[j]@,
                        texts_view(captures@) == captures_of(views, i as nat, (depth - 1) as nat),
                    decreases items@.len() - i,
                {
                    let ghost before = texts_view(captures@);
                    let mut inner = items[i].get_captures(depth - 1);
                    let ghost added = texts_view(inner@);
                    captures.append(&mut inner);
                    assert(texts_view(captures@) =~= before + added);
                    i += 1;
                }
            },
            RuleItem::Optional(inner) => {
                return inner.get_captures(depth - 1);
            },
            RuleItem::ZeroOrMore(inner) => {
                return inner.get_captures(depth - 1);
            },
            RuleItem::OneOrMore(inner) => {
                return inner.get_captures(depth - 1);
            },
        }
        captures
    }

    /// The steps that parse the item.
    pub fn to_output(&self) -> (steps: Vec<Step>)
        requires
            self@.has_body(),
        ensures
            steps_view(steps@) == self@.body(),
        decreases self,
    {
        let mut steps: Vec<Step> = Vec::new();
        match self {
            RuleItem::Token(token) => {
                steps.push(Step::Expect(token.clone()));
                assert(steps_view(steps@) =~= self@.body());
            },
            RuleItem::NamedRule { name, capture_as } => {
                proof {
                    reveal_strlit("ident");
                    reveal_strlit("number");
                }
                let ident = String::from_str("ident");
                let number = String::from_str("number");
                assert(ident@ =~= ident_class());
                assert(number@ =~= number_class());
                let capture_as = copy_option_text(capture_as);
                if *name == ident {
                    steps.push(Step::TakeIdent { capture_as });
                } else if *name == number {
                    steps.push(Step::TakeNumber { capture_as });
                } else {
                    steps.push(Step::Call { rule: name.clone(), capture_as });
                }
                assert(steps_view(steps@) =~= self@.body());
            },
            RuleItem::Sequence(items) => {
                let ghost views = self@->Sequence_0;
                let mut i: usize = 0;
                assert(decreases_to!(self => items));
                assert(steps_view(steps@) =~= bodies_of(views, 0));
                while i < items.len()
                    invariant
                        i <= items@.len(),
                        decreases_to!(self => items),
                        views.len() == items@.len(),
                        forall|j: int| 0 <= j < views.len() ==> views[j] == items@[j]@,
                        have_bodies(views, views.len()),
                        steps_view(steps@) == bodies_of(views, i as nat),
                    decreases items@.len() - i,
                {
                    let ghost before = steps_view(steps@);
                    proof {
                        lemma_with_bodies(views, i as int, views.len());
                    }
                    let mut inner = items[i].to_output();
                    let ghost added = steps_view(inner@);
                    steps.append(&mut inner);
                    assert(steps_view(steps@) =~= before + added);
                    i += 1;
                }
            },
            RuleItem::Optional(inner) => {
                let (pattern, _) = inner.to_pattern();
                let body = inner.to_output();
                let captures = inner.get_captures(1);
                let ghost body_view = steps_view(body@);
                let step = Step::Optional { pattern, steps: body, captures };
                assert(step@->Optional_steps =~= body_view);
                steps.push(step);
                assert(steps_view(steps@) =~= self@.body());
            },
            RuleItem::ZeroOrMore(_) => {},
            RuleItem::OneOrMore(_) => {},
        }
        steps
    }
}

/// Where item `index` has no body, the items up to any count behind it have not all one.
pub proof fn lemma_without_body(items: Seq<RuleItemView>, index: int, count: nat)
    requires
        0 <= index < count <= items.len(),
        !items[index].has_body(),
    ensures
        !have_bodies(items, count),
    decreases count,
{
    if index < count - 1 {
        lemma_without_body(items, index, (count - 1) as nat);
    }
}

/// Where the items up to a count have all a body, each of them has one.
pub proof fn lemma_with_bodies(items: Seq<RuleItemView>, index: int, count: nat)
    requires
        0 <= index < count <= items.len(),
        have_bodies(items, count),
    ensures
        items[index].has_body(),
    decreases count,
{
    if index < count - 1 {
        lemma_with_bodies(items, index, (count - 1) as nat);
    }
}

} // verus!
