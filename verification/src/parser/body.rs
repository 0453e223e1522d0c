//! Running the body of an alternative: its steps are taken in order against
//! the token stream, and what they capture is bound to names.

use vstd::prelude::*;

use super::syntax::{
    lemma_expr_advances, parse_expr_at, parse_statement_at, parse_type_at, skip_token, Parsed,
};
use crate::ast::{Expr, ExprView, NumberLiteral, Type, TypeView};
use crate::grammar::body::StepView;
use crate::helper::{ParseErrorView, TokenStream};
use crate::lexer::TokenView;

verus! {

/// What an item of an alternative yields.
#[derive(Debug, PartialEq)]
pub enum Capture {
    /// The name of an identifier.
    Ident(String),
    /// A number literal.
    Number(NumberLiteral),
    /// What the rule of expressions or of statements yields.
    Expr(Expr),
    /// What the rule of types yields.
    Type(Type),
    /// What an optional item yields where it is left out.
    Missing,
}

/// The mathematical value of a [`Capture`].
pub enum CaptureView {
    Ident(Seq<char>),
    Number(NumberLiteral),
    Expr(ExprView),
    Type(TypeView),
    Missing,
}

impl View for Capture {
    type V = CaptureView;

    open spec fn view(&self) -> CaptureView {
        match self {
            Capture::Ident(name) => CaptureView::Ident(name@),
            Capture::Number(number) => CaptureView::Number(*number),
            Capture::Expr(expr) => CaptureView::Expr(expr@),
            Capture::Type(ty) => CaptureView::Type(ty@),
            Capture::Missing => CaptureView::Missing,
        }
    }
}

/// Captures by the names they are bound to, in the order in which they were made.
pub type Bindings = Seq<(Seq<char>, CaptureView)>;

/// The value of each binding of a list, in order.
pub open spec fn bindings_view(bindings: Seq<(String, Capture)>) -> Bindings {
    Seq::new(bindings.len(), |i: int| (bindings[i].0@, bindings[i].1@))
}

/// The binding of the capture, where it is bound to a name.
pub open spec fn bind(capture_as: Option<Seq<char>>, capture: CaptureView) -> Bindings {
    match capture_as {
        Some(name) => seq![(name, capture)],
        None => Seq::empty(),
    }
}

/// The names bound to nothing.
pub open spec fn bind_missing(names: Seq<Seq<char>>) -> Bindings {
    Seq::new(names.len(), |i: int| (names[i], CaptureView::Missing))
}

/// The name of the rule of expressions.
pub open spec fn expr_rule_name() -> Seq<char> {
    seq!['e', 'x', 'p', 'r']
}

/// The name of the rule of types.
pub open spec fn type_rule_name() -> Seq<char> {
    seq!['t', 'y', 'p', 'e']
}

/// The name of the rule of statements.
pub open spec fn statement_rule_name() -> Seq<char> {
    seq!['s', 't', 'a', 't', 'e', 'm', 'e', 'n', 't']
}

/// Whether a body can call the rule: the parser knows the rules of
/// expressions, types and statements.
pub open spec fn is_rule(name: Seq<char>) -> bool {
    name == expr_rule_name() || name == type_rule_name() || name == statement_rule_name()
}

/// What calling the rule of the name gives at the cursor.
pub open spec fn call_rule(stream: TokenStream, cursor: int, name: Seq<char>) -> Parsed<
    CaptureView,
> {
    if name == type_rule_name() {
        match parse_type_at(stream, cursor) {
            Ok((ty, after)) => Ok((CaptureView::Type(ty), after)),
            Err(error) => Err(error),
        }
    } else if name == statement_rule_name() {
        match parse_statement_at(stream, cursor) {
            Ok((statement, after)) => Ok((CaptureView::Expr(statement), after)),
            Err(error) => Err(error),
        }
    } else {
        match parse_expr_at(stream, cursor) {
            Ok((expr, after)) => Ok((CaptureView::Expr(expr), after)),
            Err(error) => Err(error),
        }
    }
}

/// What taking the first `count` of the steps gives at the cursor: the
/// bindings they make, and where the cursor then stands.
pub open spec fn run_steps(stream: TokenStream, cursor: int, steps: Seq<StepView>, count: nat)
    -> Parsed<Bindings>
    decreases steps, count,
{
    if count == 0 || count > steps.len() {
        Ok((Seq::empty(), cursor))
    } else {
        match run_steps(stream, cursor, steps, (count - 1) as nat) {
            Ok((bound, middle)) => match run_step(stream, middle, steps[count - 1]) {
                Ok((more, after)) => Ok((bound + more, after)),
                Err(error) => Err(error),
            },
            Err(error) => Err(error),
        }
    }
}

/// What taking the step gives at the cursor.
pub open spec fn run_step(stream: TokenStream, cursor: int, step: StepView) -> Parsed<Bindings>
    decreases step, 0nat,
{
    match step {
        StepView::Expect(token) => match skip_token(stream, cursor, token) {
            Ok(after) => Ok((Seq::empty(), after)),
            Err(error) => Err(error),
        },
        StepView::TakeIdent { capture_as } => match stream.token_at(cursor) {
            Some(TokenView::Ident(name)) => match stream.advance(cursor) {
                Ok(after) => Ok((bind(capture_as, CaptureView::Ident(name)), after)),
                Err(error) => Err(error),
            },
            Some(token) => Err(ParseErrorView::UnexpectedToken(token)),
            None => Err(ParseErrorView::UnexpectedEOF),
        },
        StepView::TakeNumber { capture_as } => match stream.token_at(cursor) {
            Some(TokenView::NumberLit(number)) => match stream.advance(cursor) {
                Ok(after) => Ok((bind(capture_as, CaptureView::Number(number)), after)),
                Err(error) => Err(error),
            },
            Some(token) => Err(ParseErrorView::UnexpectedToken(token)),
            None => Err(ParseErrorView::UnexpectedEOF),
        },
        StepView::Call { rule, capture_as } => match call_rule(stream, cursor, rule) {
            Ok((capture, after)) => Ok((bind(capture_as, capture), after)),
            Err(error) => Err(error),
        },
        StepView::Optional { pattern, steps, captures } => match stream.token_at(cursor) {
            Some(token) => if pattern.accepts(token) {
                run_steps(stream, cursor, steps, steps.len())
            } else {
                Ok((bind_missing(captures), cursor))
            },
            None => Err(ParseErrorView::UnexpectedEOF),
        },
    }
}

/// What taking all the steps of a body gives at the cursor.
pub open spec fn run_body(stream: TokenStream, cursor: int, steps: Seq<StepView>) -> Parsed<
    Bindings,
> {
    run_steps(stream, cursor, steps, steps.len())
}

/// The rank of a rule. The body of a rule can call a rule of lower rank
/// before it has consumed a token, and any rule behind one.
pub open spec fn rule_rank(name: Seq<char>) -> nat {
    if name == type_rule_name() {
        2
    } else if name == statement_rule_name() {
        6
    } else {
        4
    }
}

/// Whether the step consumes a token where it succeeds.
pub open spec fn consumes(step: StepView) -> bool {
    step is Expect || step is TakeIdent || step is TakeNumber
}

/// Whether one of the first `count` steps consumes a token.
pub open spec fn consumed_before(steps: Seq<StepView>, count: int) -> bool {
    exists|j: int| 0 <= j < count && j < steps.len() && consumes(#[trigger] steps[j])
}

/// Whether the first `count` steps can be run by a body of the rank, where
/// `progressed` says whether a token was consumed before them: each rule they
/// call is known, and is of lower rank or called behind a consumed token.
pub open spec fn can_run(steps: Seq<StepView>, count: nat, rank: nat, progressed: bool) -> bool
    decreases steps, count,
{
    if count == 0 || count > steps.len() {
        true
    } else {
        &&& can_run(steps, (count - 1) as nat, rank, progressed)
        &&& can_run_step(
            steps[count - 1],
            rank,
            progressed || consumed_before(steps, count - 1),
        )
    }
}

/// Whether the step can be run by a body of the rank.
pub open spec fn can_run_step(step: StepView, rank: nat, progressed: bool) -> bool
    decreases step, 0nat,
{
    match step {
        StepView::Call { rule, capture_as } => is_rule(rule) && (progressed || rule_rank(rule)
            < rank),
        StepView::Optional { pattern, steps, captures } => can_run(
            steps,
            steps.len(),
            rank,
            progressed,
        ),
        _ => true,
    }
}

/// How many steps the first `count` of the steps hold, nested ones counted.
pub open spec fn steps_size(steps: Seq<StepView>, count: nat) -> nat
    decreases steps, count,
{
    if count == 0 || count > steps.len() {
        0
    } else {
        steps_size(steps, (count - 1) as nat) + step_size(steps[count - 1])
    }
}

/// How many steps the step holds, itself counted.
pub open spec fn step_size(step: StepView) -> nat
    decreases step, 0nat,
{
    match step {
        StepView::Optional { pattern, steps, captures } => 1 + steps_size(steps, steps.len()),
        _ => 1,
    }
}

/// Steps that can be run can be run all the more behind a consumed token.
pub proof fn lemma_can_run_progressed(steps: Seq<StepView>, count: nat, rank: nat)
    requires
        can_run(steps, count, rank, false),
    ensures
        can_run(steps, count, rank, true),
    decreases steps, count,
{
    reveal_with_fuel(can_run, 2);
    reveal_with_fuel(can_run_step, 2);
    if !(count == 0 || count > steps.len()) {
        lemma_can_run_progressed(steps, (count - 1) as nat, rank);
        let step = steps[count - 1];
        assert(can_run_step(step, rank, consumed_before(steps, count - 1)));
        match step {
            StepView::Optional { pattern, steps: inner, captures } => {
                if !consumed_before(steps, count - 1) {
                    assert(can_run(inner, inner.len(), rank, false));
                    lemma_can_run_progressed(inner, inner.len(), rank);
                }
                assert(can_run_step(step, rank, true));
            },
            _ => {
                assert(can_run_step(step, rank, true));
            },
        }
    }
}

/// A body of rank 7 can call every rule at every place: whether a step can be
/// run by it does not depend on what was consumed before.
pub proof fn lemma_any_rule_can_be_called(step: StepView, progressed: bool)
    ensures
        can_run_step(step, 7, progressed) == can_run_step(step, 7, false),
    decreases step, 0nat,
{
    match step {
        StepView::Optional { pattern, steps, captures } => {
            lemma_any_rule_can_be_called_by_steps(steps, steps.len(), progressed);
        },
        _ => {},
    }
}

/// A body of rank 7 can call every rule at every place.
pub proof fn lemma_any_rule_can_be_called_by_steps(
    steps: Seq<StepView>,
    count: nat,
    progressed: bool,
)
    ensures
        can_run(steps, count, 7, progressed) == can_run(steps, count, 7, false),
    decreases steps, count,
{
    if !(count == 0 || count > steps.len()) {
        lemma_any_rule_can_be_called_by_steps(steps, (count - 1) as nat, progressed);
        lemma_any_rule_can_be_called(
            steps[count - 1],
            progressed || consumed_before(steps, count - 1),
        );
        lemma_any_rule_can_be_called(steps[count - 1], consumed_before(steps, count - 1));
    }
}

/// Where the first `count` steps cannot be run, no more of them can.
pub proof fn lemma_cannot_run(
    steps: Seq<StepView>,
    count: nat,
    total: nat,
    rank: nat,
    progressed: bool,
)
    requires
        count <= total <= steps.len(),
        !can_run(steps, count, rank, progressed),
    ensures
        !can_run(steps, total, rank, progressed),
    decreases total - count,
{
    if count < total {
        lemma_cannot_run(steps, count, (total - 1) as nat, rank, progressed);
    }
}

/// Each of the steps that can be run can be run at its place.
pub proof fn lemma_can_run_step(
    steps: Seq<StepView>,
    count: nat,
    rank: nat,
    progressed: bool,
    index: int,
)
    requires
        can_run(steps, count, rank, progressed),
        0 <= index < count <= steps.len(),
    ensures
        can_run_step(steps[index], rank, progressed || consumed_before(steps, index)),
    decreases count,
{
    if index < count - 1 {
        lemma_can_run_step(steps, (count - 1) as nat, rank, progressed, index);
    }
}

/// Each of the steps is smaller than all of them together.
pub proof fn lemma_step_size(steps: Seq<StepView>, count: nat, index: int)
    requires
        0 <= index < count <= steps.len(),
    ensures
        step_size(steps[index]) <= steps_size(steps, count),
    decreases count,
{
    if index < count - 1 {
        lemma_step_size(steps, (count - 1) as nat, index);
    }
}

/// Running one more step is running the steps before it and then the step.
pub proof fn lemma_run_one_more(stream: TokenStream, cursor: int, steps: Seq<StepView>, count: nat)
    requires
        count < steps.len(),
    ensures
        run_steps(stream, cursor, steps, count + 1) == match run_steps(
            stream,
            cursor,
            steps,
            count,
        ) {
            Ok((bound, middle)) => match run_step(stream, middle, steps[count as int]) {
                Ok((more, after)) => Ok((bound + more, after)),
                Err(error) => Err(error),
            },
            Err(error) => Err(error),
        },
{
}

/// Where the step behind the first `count` fails, all the steps fail with its error.
pub proof fn lemma_run_fails(
    stream: TokenStream,
    cursor: int,
    steps: Seq<StepView>,
    count: nat,
    total: nat,
)
    requires
        count <= total <= steps.len(),
        run_steps(stream, cursor, steps, count) is Err,
    ensures
        run_steps(stream, cursor, steps, total) == run_steps(stream, cursor, steps, count),
    decreases total - count,
{
    if count < total {
        lemma_run_fails(stream, cursor, steps, count, (total - 1) as nat);
    }
}

/// A type ends behind where it starts.
pub proof fn lemma_type_advances(stream: TokenStream, cursor: int)
    ensures
        parse_type_at(stream, cursor) matches Ok((ty, after)) ==> cursor < after
            <= stream.tokens.len(),
{
}

/// A called rule ends behind where it starts.
pub proof fn lemma_call_advances(stream: TokenStream, cursor: int, name: Seq<char>)
    ensures
        call_rule(stream, cursor, name) matches Ok((capture, after)) ==> cursor < after
            <= stream.tokens.len(),
{
    lemma_expr_advances(stream, cursor);
    lemma_type_advances(stream, cursor);
}

} // verus!
