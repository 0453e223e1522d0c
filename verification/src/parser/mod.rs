//! The parser: recursive descent with one token of lookahead, from the token
//! stream of a source to its syntax tree. The alternatives of `expr`, `type`
//! and `statement` are selected by the grammar matcher, and their bodies are
//! run step by step.

use std::ops::Range;
use vstd::prelude::*;
use vstd::string::{StringExecFns, StringSliceAdditionalSpecFns};

use crate::ast::{
    arguments_view, ast_view, exprs_view, is_program, spans_within, Block, Expr, ExprKind,
    ExprKindView, ExprView, FunctionDef, Literal, TopLevel, TopLevelKindView, TopLevelView,
    Type, TypeView,
};
use crate::grammar::body::{steps_view, texts_view, Step, StepView};
use crate::grammar::{option_text_view, Rule};
use crate::helper::{
    option_token_view, stream_from, token_stream, ParseError, ParseErrorView, ParserHelper,
    TokenStream,
};
use crate::lexer::{Lexer, Token, TokenView};

pub mod body;
pub mod rules;
pub mod syntax;

use body::{
    bind, bind_missing, bindings_view, can_run, can_run_step, consumed_before, consumes,
    expr_rule_name, lemma_any_rule_can_be_called, lemma_call_advances,
    lemma_can_run_progressed, lemma_can_run_step, lemma_cannot_run, lemma_run_fails,
    lemma_run_one_more, lemma_step_size, run_body, run_step, run_steps, statement_rule_name,
    step_size, steps_size, type_rule_name, Bindings, Capture, CaptureView,
};
use rules::{
    bodies_of_rule, expr_alternatives, expr_bodies, expr_rule, holds_bodies,
    lemma_bodies_can_run, lemma_expr_body, lemma_expr_selection, lemma_rule_bodies,
    lemma_rule_names, lemma_statement_body, lemma_type_body, lemma_type_selection,
    statement_alternatives, statement_bodies, statement_rule, type_alternatives, type_bodies,
    type_rule,
};
use syntax::{
    lemma_expr_advances, lemma_function_def_advances, lemma_parsed_program, no_span,
    parse_argument_list_at, parse_block_at, parse_expr_at, parse_function_def_at,
    parse_program, parse_statement_at, parse_statements_at, parse_top_levels_at,
    parse_type_at, parse_typed_arguments_at, prepend, prepend_top_levels, skip_token, untyped,
};

verus! {

/// The rules of the grammar that are written down as rules: `expr`, `type`
/// and `statement`, each with the bodies of its alternatives.
pub struct Grammar {
    expr: Rule,
    ty: Rule,
    statement: Rule,
    expr_bodies: Vec<Vec<Step>>,
    type_bodies: Vec<Vec<Step>>,
    statement_bodies: Vec<Vec<Step>>,
}

impl Grammar {
    /// The rules and bodies are those of the grammar.
    pub closed spec fn wf(&self) -> bool {
        &&& self.expr@ == expr_alternatives()
        &&& self.ty@ == type_alternatives()
        &&& self.statement@ == statement_alternatives()
        &&& holds_bodies(self.expr_bodies@, expr_alternatives())
        &&& holds_bodies(self.type_bodies@, type_alternatives())
        &&& holds_bodies(self.statement_bodies@, statement_alternatives())
    }

    /// The rules of the grammar.
    pub fn new() -> (grammar: Grammar)
        ensures
            grammar.wf(),
    {
        proof {
            lemma_rule_bodies();
        }
        let expr = expr_rule();
        let ty = type_rule();
        let statement = statement_rule();
        let expr_bodies = bodies_of_rule(&expr);
        let type_bodies = bodies_of_rule(&ty);
        let statement_bodies = bodies_of_rule(&statement);
        Grammar { expr, ty, statement, expr_bodies, type_bodies, statement_bodies }
    }
}

/// Whether every rule that the steps call is a rule that the parser knows.
pub open spec fn calls_rules_only(steps: Seq<StepView>) -> bool {
    can_run(steps, steps.len(), 7, false)
}

/// Whether every rule that the steps call is a rule that the parser knows.
pub fn can_run_body(steps: &Vec<Step>) -> (known: bool)
    ensures
        known == calls_rules_only(steps_view(steps@)),
    decreases steps,
{
    let ghost all = steps_view(steps@);
    let mut i: usize = 0;
    while i < steps.len()
        invariant
            i <= steps@.len(),
            all == steps_view(steps@),
            can_run(all, i as nat, 7, false),
        decreases steps@.len() - i,
    {
        proof {
            assert(all[i as int] == steps@[i as int]@);
            lemma_any_rule_can_be_called(all[i as int], consumed_before(all, i as int));
        }
        let known = match &steps[i] {
            Step::Call { rule, capture_as } => {
                proof {
                    reveal_strlit("type");
                    reveal_strlit("statement");
                    reveal_strlit("expr");
                    assert("type"@ =~= type_rule_name());
                    assert("statement"@ =~= statement_rule_name());
                    assert("expr"@ =~= expr_rule_name());
                }
                *rule == String::from_str("type") || *rule == String::from_str("statement")
                    || *rule == String::from_str("expr")
            },
            Step::Optional { pattern, steps: inner, captures } => {
                proof {
                    assert(all[i as int]->Optional_steps =~= steps_view(inner@));
                    assert(decreases_to!(steps => steps[i as int]));
                }
                can_run_body(inner)
            },
            _ => true,
        };
        if !known {
            proof {
                lemma_cannot_run(all, (i + 1) as nat, all.len(), 7, false);
            }
            return false;
        }
        i += 1;
    }
    true
}

/// How many tokens lie behind the cursor, the current one counted.
pub open spec fn remaining(stream: TokenStream, cursor: int) -> int {
    stream.tokens.len() - cursor
}

/// Binds the capture to the name, where there is one.
fn bind_capture(
    bindings: &mut Vec<(String, Capture)>,
    capture_as: &Option<String>,
    capture: Capture,
)
    ensures
        bindings_view(final(bindings)@) == bindings_view(old(bindings)@) + bind(
            option_text_view(*capture_as),
            capture@,
        ),
{
    match capture_as {
        Some(name) => {
            bindings.push((name.clone(), capture));
            assert(bindings_view(bindings@) =~= bindings_view(old(bindings)@) + seq![
                (name@, capture@),
            ]);
        },
        None => {
            assert(bindings_view(bindings@) =~= bindings_view(old(bindings)@) + Seq::empty());
        },
    }
}

/// Binds each of the names to nothing.
fn bind_nothing(bindings: &mut Vec<(String, Capture)>, names: &Vec<String>)
    ensures
        bindings_view(final(bindings)@) == bindings_view(old(bindings)@) + bind_missing(
            texts_view(names@),
        ),
{
    let ghost all = bind_missing(texts_view(names@));
    let mut i: usize = 0;
    assert(bindings_view(bindings@) =~= bindings_view(old(bindings)@) + all.take(0));
    while i < names.len()
        invariant
            i <= names@.len(),
            all == bind_missing(texts_view(names@)),
            bindings_view(bindings@) == bindings_view(old(bindings)@) + all.take(i as int),
        decreases names@.len() - i,
    {
        let ghost before = bindings_view(bindings@);
        let ghost added = (names@[i as int]@, CaptureView::Missing);
        assert(all[i as int] == added);
        bindings.push((names[i].clone(), Capture::Missing));
        assert(bindings_view(bindings@) =~= before.push(added));
        i += 1;
        assert(all.take(i as int) =~= all.take(i - 1).push(added));
        assert(bindings_view(bindings@) =~= bindings_view(old(bindings)@) + all.take(i as int));
    }
    assert(all.take(i as int) =~= all);
}

/// Takes one step of a body.
fn take_step<'ctx>(
    helper: &mut ParserHelper<'ctx>,
    grammar: &Grammar,
    step: &Step,
    bindings: &mut Vec<(String, Capture)>,
    Ghost(rank): Ghost<nat>,
    Ghost(limit): Ghost<int>,
) -> (taken: Result<(), ParseError>)
    requires
        old(helper).wf(),
        grammar.wf(),
        0 <= remaining(old(helper).stream(), old(helper).cursor()) <= limit,
        can_run_step(
            step@,
            rank,
            remaining(old(helper).stream(), old(helper).cursor()) < limit,
        ),
    ensures
        final(helper).wf(),
        final(helper).stream() == old(helper).stream(),
        match run_step(old(helper).stream(), old(helper).cursor(), step@) {
            Ok((bound, after)) => {
                &&& taken is Ok
                &&& bindings_view(final(bindings)@) == bindings_view(old(bindings)@) + bound
                &&& final(helper).cursor() == after
                &&& old(helper).cursor() <= after
                &&& consumes(step@) ==> old(helper).cursor() < after
            },
            Err(error) => taken matches Err(given) && given@ == error,
        },
    decreases limit, rank, step_size(step@), 0nat,
{
    let ghost stream = helper.stream();
    let ghost cursor = helper.cursor();
    proof {
        helper.lemma_cursor_in_stream();
    }
    match step {
        Step::Expect(token) => {
            helper.expect(token.clone())?;
            helper.advance()?;
            assert(bindings_view(bindings@) =~= bindings_view(old(bindings)@) + Seq::empty());
            Ok(())
        },
        Step::TakeIdent { capture_as } => {
            let name = match helper.current()? {
                Token::Ident(name) => name,
                other => {
                    return Err(ParseError::UnexpectedToken(other));
                },
            };
            helper.advance()?;
            bind_capture(bindings, capture_as, Capture::Ident(name));
            Ok(())
        },
        Step::TakeNumber { capture_as } => {
            let number = match helper.current()? {
                Token::NumberLit(number) => number,
                other => {
                    return Err(ParseError::UnexpectedToken(other));
                },
            };
            helper.advance()?;
            bind_capture(bindings, capture_as, Capture::Number(number));
            Ok(())
        },
        Step::Call { rule, capture_as } => {
            proof {
                reveal_strlit("type");
                reveal_strlit("statement");
                assert("type"@ =~= type_rule_name());
                assert("statement"@ =~= statement_rule_name());
                lemma_rule_names();
                lemma_call_advances(stream, cursor, rule@);
            }
            let capture = if *rule == String::from_str("type") {
                Capture::Type(parse_type(helper, grammar)?)
            } else if *rule == String::from_str("statement") {
                Capture::Expr(parse_statement(helper, grammar)?)
            } else {
                Capture::Expr(parse_expr(helper, grammar)?)
            };
            bind_capture(bindings, capture_as, capture);
            Ok(())
        },
        Step::Optional { pattern, steps, captures } => {
            let token = helper.current()?;
            assert(step@->Optional_steps =~= steps_view(steps@));
            if pattern.accepts(&token) {
                take_steps(helper, grammar, steps, bindings, Ghost(rank), Ghost(limit))
            } else {
                bind_nothing(bindings, captures);
                Ok(())
            }
        },
    }
}

/// Takes the steps of a body in order, and binds what they capture.
fn take_steps<'ctx>(
    helper: &mut ParserHelper<'ctx>,
    grammar: &Grammar,
    steps: &Vec<Step>,
    bindings: &mut Vec<(String, Capture)>,
    Ghost(rank): Ghost<nat>,
    Ghost(limit): Ghost<int>,
) -> (taken: Result<(), ParseError>)
    requires
        old(helper).wf(),
        grammar.wf(),
        0 <= remaining(old(helper).stream(), old(helper).cursor()) <= limit,
        can_run(
            steps_view(steps@),
            steps@.len() as nat,
            rank,
            remaining(old(helper).stream(), old(helper).cursor()) < limit,
        ),
    ensures
        final(helper).wf(),
        final(helper).stream() == old(helper).stream(),
        match run_body(old(helper).stream(), old(helper).cursor(), steps_view(steps@)) {
            Ok((bound, after)) => {
                &&& taken is Ok
                &&& bindings_view(final(bindings)@) == bindings_view(old(bindings)@) + bound
                &&& final(helper).cursor() == after
                &&& old(helper).cursor() <= after
            },
            Err(error) => taken matches Err(given) && given@ == error,
        },
    decreases limit, rank, steps_size(steps_view(steps@), steps@.len() as nat), 1nat,
{
    let ghost stream = helper.stream();
    let ghost start = helper.cursor();
    let ghost all = steps_view(steps@);
    let ghost progressed = remaining(stream, start) < limit;
    let ghost mut bound: Bindings = Seq::empty();
    let mut i: usize = 0;
    assert(bindings_view(bindings@) =~= bindings_view(old(bindings)@) + bound);
    while i < steps.len()
        invariant
            i <= steps@.len(),
            helper.wf(),
            grammar.wf(),
            helper.stream() == stream,
            stream == old(helper).stream(),
            start == old(helper).cursor(),
            all == steps_view(steps@),
            all.len() == steps@.len(),
            progressed == (remaining(stream, start) < limit),
            0 <= remaining(stream, start) <= limit,
            can_run(all, all.len(), rank, progressed),
            start <= helper.cursor(),
            consumed_before(all, i as int) ==> start < helper.cursor(),
            run_steps(stream, start, all, i as nat) == Ok::<(Bindings, int), ParseErrorView>(
                (bound, helper.cursor()),
            ),
            bindings_view(bindings@) == bindings_view(old(bindings)@) + bound,
        decreases steps@.len() - i,
    {
        let ghost here = helper.cursor();
        let ghost before = bindings_view(bindings@);
        proof {
            helper.lemma_cursor_in_stream();
            lemma_run_one_more(stream, start, all, i as nat);
            lemma_can_run_step(all, all.len(), rank, progressed, i as int);
            lemma_step_size(all, all.len(), i as int);
            assert(all[i as int] == steps@[i as int]@);
            if !(remaining(stream, here) < limit) {
                assert(!progressed && !consumed_before(all, i as int));
            } else {
                match all[i as int] {
                    StepView::Optional { pattern, steps: inner, captures } => {
                        if !(progressed || consumed_before(all, i as int)) {
                            lemma_can_run_progressed(inner, inner.len(), rank);
                        }
                    },
                    _ => {},
                }
            }
        }
        match take_step(helper, grammar, &steps[i], bindings, Ghost(rank), Ghost(limit)) {
            Ok(()) => {
                proof {
                    let more = run_step(stream, here, all[i as int])->Ok_0.0;
                    assert(bindings_view(bindings@) =~= bindings_view(old(bindings)@) + (bound
                        + more));
                    bound = bound + more;
                    assert(consumed_before(all, i + 1) ==> start < helper.cursor()) by {
                        if consumed_before(all, i + 1) {
                            let j = choose|j: int|
                                0 <= j < i + 1 && j < all.len() && consumes(#[trigger] all[j]);
                            if j < i {
                                assert(consumed_before(all, i as int));
                            }
                        }
                    }
                }
            },
            Err(error) => {
                proof {
                    lemma_run_fails(stream, start, all, (i + 1) as nat, all.len());
                }
                return Err(error);
            },
        }
        i += 1;
    }
    Ok(())
}

/// `type := IDENT | '(' ')'`
fn parse_type<'ctx>(helper: &mut ParserHelper<'ctx>, grammar: &Grammar) -> (parsed: Result<
    Type,
    ParseError,
>)
    requires
        old(helper).wf(),
        grammar.wf(),
    ensures
        final(helper).wf(),
        final(helper).stream() == old(helper).stream(),
        match parse_type_at(old(helper).stream(), old(helper).cursor()) {
            Ok((ty, after)) => {
                &&& parsed matches Ok(found)
                &&& found@ == ty
                &&& final(helper).cursor() == after
            },
            Err(error) => parsed matches Err(given) && given@ == error,
        },
    decreases remaining(old(helper).stream(), old(helper).cursor()), 2nat, 0nat, 0nat,
{
    let ghost stream = helper.stream();
    let ghost cursor = helper.cursor();
    let token = helper.current()?;
    proof {
        helper.lemma_cursor_in_stream();
        lemma_type_selection(token@);
        lemma_rule_bodies();
        lemma_bodies_can_run();
    }
    match grammar.ty.select(&token) {
        Some(index) => {
            proof {
                lemma_type_body(stream, cursor, index as int);
            }
            let mut bindings: Vec<(String, Capture)> = Vec::new();
            assert(bindings_view(bindings@) =~= Seq::empty());
            let ghost steps = type_bodies()[index as int];
            assert(steps_view(grammar.type_bodies@[index as int]@) == steps);
            assert(can_run(steps, steps.len(), 1, false));
            take_steps(
                helper,
                grammar,
                &grammar.type_bodies[index],
                &mut bindings,
                Ghost(1),
                Ghost(remaining(stream, cursor)),
            )?;
            if index == 0 {
                let ghost bound = bindings_view(bindings@);
                assert(bound.len() == 1);
                assert(bound[0] == (bindings@[0].0@, bindings@[0].1@));
                match bindings.pop() {
                    Some((_, Capture::Ident(name))) => match Type::from_name(name.as_str()) {
                        Some(ty) => Ok(ty),
                        None => Err(ParseError::UnexpectedToken(Token::Ident(name))),
                    },
                    _ => Err(ParseError::UnexpectedToken(token)),
                }
            } else {
                Ok(Type::empty())
            }
        },
        None => Err(ParseError::UnexpectedToken(token)),
    }
}

/// `expr := NUMBER | IDENT | 'return' expr`
fn parse_expr<'ctx>(helper: &mut ParserHelper<'ctx>, grammar: &Grammar) -> (parsed: Result<
    Expr,
    ParseError,
>)
    requires
        old(helper).wf(),
        grammar.wf(),
    ensures
        final(helper).wf(),
        final(helper).stream() == old(helper).stream(),
        match parse_expr_at(old(helper).stream(), old(helper).cursor()) {
            Ok((expr, after)) => {
                &&& parsed matches Ok(found)
                &&& found@ == expr
                &&& final(helper).cursor() == after
            },
            Err(error) => parsed matches Err(given) && given@ == error,
        },
    decreases remaining(old(helper).stream(), old(helper).cursor()), 4nat, 0nat, 0nat,
{
    let ghost stream = helper.stream();
    let ghost cursor = helper.cursor();
    let token = helper.current()?;
    proof {
        helper.lemma_cursor_in_stream();
        lemma_expr_selection(token@);
        lemma_rule_bodies();
        lemma_bodies_can_run();
    }
    match grammar.expr.select(&token) {
        Some(index) => {
            proof {
                lemma_expr_body(stream, cursor, index as int);
            }
            let mut bindings: Vec<(String, Capture)> = Vec::new();
            assert(bindings_view(bindings@) =~= Seq::empty());
            let ghost steps = expr_bodies()[index as int];
            assert(steps_view(grammar.expr_bodies@[index as int]@) == steps);
            assert(can_run(steps, steps.len(), 3, false));
            take_steps(
                helper,
                grammar,
                &grammar.expr_bodies[index],
                &mut bindings,
                Ghost(3),
                Ghost(remaining(stream, cursor)),
            )?;
            let ghost bound = bindings_view(bindings@);
            assert(bound.len() == 1);
            assert(bound[0] == (bindings@[0].0@, bindings@[0].1@));
            let kind = match bindings.pop() {
                Some((_, Capture::Number(number))) => ExprKind::Literal(Literal::Number(number)),
                Some((_, Capture::Ident(name))) => ExprKind::Variable(name),
                Some((_, Capture::Expr(inner))) => ExprKind::Return(Some(Box::new(inner))),
                _ => {
                    return Err(ParseError::UnexpectedToken(token));
                },
            };
            Ok(Expr::new(kind, Range { start: 0, end: 0 }))
        },
        None => Err(ParseError::UnexpectedToken(token)),
    }
}

/// `statement := expr ';'`
fn parse_statement<'ctx>(helper: &mut ParserHelper<'ctx>, grammar: &Grammar) -> (parsed: Result<
    Expr,
    ParseError,
>)
    requires
        old(helper).wf(),
        grammar.wf(),
    ensures
        final(helper).wf(),
        final(helper).stream() == old(helper).stream(),
        match parse_statement_at(old(helper).stream(), old(helper).cursor()) {
            Ok((expr, after)) => {
                &&& parsed matches Ok(found)
                &&& found@ == expr
                &&& final(helper).cursor() == after
            },
            Err(error) => parsed matches Err(given) && given@ == error,
        },
    decreases remaining(old(helper).stream(), old(helper).cursor()), 6nat, 0nat, 0nat,
{
    let ghost stream = helper.stream();
    let ghost cursor = helper.cursor();
    let token = helper.current()?;
    proof {
        helper.lemma_cursor_in_stream();
        lemma_rule_bodies();
        lemma_bodies_can_run();
        lemma_statement_body(stream, cursor);
    }
    match grammar.statement.select(&token) {
        Some(index) => {
            let mut bindings: Vec<(String, Capture)> = Vec::new();
            assert(bindings_view(bindings@) =~= Seq::empty());
            let ghost steps = statement_bodies()[0];
            assert(index == 0);
            assert(steps_view(grammar.statement_bodies@[0]@) == steps);
            take_steps(
                helper,
                grammar,
                &grammar.statement_bodies[index],
                &mut bindings,
                Ghost(5),
                Ghost(remaining(stream, cursor)),
            )?;
            let ghost bound = bindings_view(bindings@);
            assert(bound.len() == 1);
            assert(bound[0] == (bindings@[0].0@, bindings@[0].1@));
            match bindings.pop() {
                Some((_, Capture::Expr(expr))) => Ok(expr),
                _ => Err(ParseError::UnexpectedToken(token)),
            }
        },
        None => Err(ParseError::UnexpectedToken(token)),
    }
}

/// A parser over the tokens of one source.
pub struct Parser<'ctx> {
    helper: ParserHelper<'ctx>,
    grammar: Grammar,
}

impl<'ctx> Parser<'ctx> {
    /// The parser's cursor agrees with its lexer, and its rules are those of the grammar.
    pub closed spec fn wf(&self) -> bool {
        &&& self.helper.wf()
        &&& self.grammar.wf()
    }

    /// The tokens that the parser reads.
    pub closed spec fn stream(&self) -> TokenStream {
        self.helper.stream()
    }

    /// The index of the current token in the stream.
    pub closed spec fn cursor(&self) -> int {
        self.helper.cursor()
    }

    /// A parser of the tokens that `lexer` has left.
    pub fn new(lexer: Lexer<'ctx>) -> (parser: Parser<'ctx>)
        ensures
            parser.wf(),
            parser.stream() == stream_from(lexer.source(), lexer.position()),
            parser.cursor() == -1,
    {
        Parser { helper: ParserHelper::new(lexer), grammar: Grammar::new() }
    }

    /// Steps to the next token and returns it; `None` where the source has ended.
    pub fn advance(&mut self) -> (pulled: Result<Option<Token>, ParseError>)
        requires
            old(self).wf(),
        ensures
            final(self).wf(),
            final(self).stream() == old(self).stream(),
            match old(self).stream().advance(old(self).cursor()) {
                Ok(cursor) => {
                    &&& pulled matches Ok(token)
                    &&& option_token_view(token) == old(self).stream().token_at(
                        cursor,
                    )
                    &&& final(self).cursor() == cursor
                },
                Err(error) => {
                    &&& pulled matches Err(given)
                    &&& given@ == error
                    &&& final(self).cursor() == old(self).cursor()
                },
            },
    {
        self.helper.advance()
    }

    /// `type := IDENT | '(' ')'`, from the current token on.
    pub fn parse_type(&mut self) -> (parsed: Result<Type, ParseError>)
        requires
            old(self).wf(),
        ensures
            final(self).wf(),
            final(self).stream() == old(self).stream(),
            match parse_type_at(old(self).stream(), old(self).cursor()) {
                Ok((ty, after)) => {
                    &&& parsed matches Ok(found)
                    &&& found@ == ty
                    &&& final(self).cursor() == after
                },
                Err(error) => parsed matches Err(given) && given@ == error,
            },
    {
        parse_type(&mut self.helper, &self.grammar)
    }

    /// `expr := NUMBER | IDENT | 'return' expr`, from the current token on.
    pub fn parse_expr(&mut self) -> (parsed: Result<Expr, ParseError>)
        requires
            old(self).wf(),
        ensures
            final(self).wf(),
            final(self).stream() == old(self).stream(),
            match parse_expr_at(old(self).stream(), old(self).cursor()) {
                Ok((expr, after)) => {
                    &&& parsed matches Ok(found)
                    &&& found@ == expr
                    &&& final(self).cursor() == after
                },
                Err(error) => parsed matches Err(given) && given@ == error,
            },
    {
        parse_expr(&mut self.helper, &self.grammar)
    }

    /// `statement := expr ';'`, from the current token on.
    pub fn parse_statement(&mut self) -> (parsed: Result<Expr, ParseError>)
        requires
            old(self).wf(),
        ensures
            final(self).wf(),
            final(self).stream() == old(self).stream(),
            match parse_statement_at(old(self).stream(), old(self).cursor()) {
                Ok((expr, after)) => {
                    &&& parsed matches Ok(found)
                    &&& found@ == expr
                    &&& final(self).cursor() == after
                },
                Err(error) => parsed matches Err(given) && given@ == error,
            },
    {
        parse_statement(&mut self.helper, &self.grammar)
    }

    /// Runs the body of an alternative from the current token on: takes its
    /// steps in order and returns what they capture, by name.
    pub fn run_body(&mut self, steps: &Vec<Step>) -> (ran: Result<
        Vec<(String, Capture)>,
        ParseError,
    >)
        requires
            old(self).wf(),
            calls_rules_only(steps_view(steps@)),
        ensures
            final(self).wf(),
            final(self).stream() == old(self).stream(),
            match run_body(old(self).stream(), old(self).cursor(), steps_view(steps@)) {
                Ok((bound, after)) => {
                    &&& ran matches Ok(found)
                    &&& bindings_view(found@) == bound
                    &&& final(self).cursor() == after
                },
                Err(error) => ran matches Err(given) && given@ == error,
            },
    {
        proof {
            self.helper.lemma_cursor_in_stream();
        }
        let mut bindings: Vec<(String, Capture)> = Vec::new();
        assert(bindings_view(bindings@) =~= Seq::empty());
        let ghost limit = remaining(self.helper.stream(), self.helper.cursor());
        match take_steps(
            &mut self.helper,
            &self.grammar,
            steps,
            &mut bindings,
            Ghost(7),
            Ghost(limit),
        ) {
            Ok(()) => {
                proof {
                    let bound = run_body(
                        old(self).stream(),
                        old(self).cursor(),
                        steps_view(steps@),
                    )->Ok_0.0;
                    assert(Seq::<(Seq<char>, CaptureView)>::empty() + bound =~= bound);
                }
                Ok(bindings)
            },
            Err(error) => Err(error),
        }
    }

    /// A parser of the source.
    pub fn with_source(source: &'ctx str) -> (parser: Parser<'ctx>)
        ensures
            parser.wf(),
            parser.stream() == token_stream(source.spec_bytes()),
            parser.cursor() == -1,
    {
        Parser::new(Lexer::new(source))
    }

    /// Parses the program that starts behind the cursor: function definitions
    /// up to the end of the source.
    pub fn parse(&mut self) -> (parsed: Result<Vec<TopLevel>, ParseError>)
        requires
            old(self).wf(),
        ensures
            final(self).wf(),
            final(self).stream() == old(self).stream(),
            match parse_program(old(self).stream(), old(self).cursor()) {
                Ok(program) => parsed matches Ok(ast) && ast_view(ast@) == program,
                Err(error) => parsed matches Err(given) && given@ == error,
            },
            parsed matches Ok(ast) ==> is_program(ast_view(ast@)),
    {
        proof {
            lemma_parsed_program(self.stream(), self.cursor(), 0);
        }
        let ghost stream = self.stream();
        let mut top_levels: Vec<TopLevel> = Vec::new();
        self.helper.advance()?;
        let ghost first = self.cursor();
        assert(ast_view(top_levels@) =~= Seq::empty());
        loop
            invariant
                self.wf(),
                self.stream() == stream,
                stream == old(self).stream(),
                parse_program(stream, old(self).cursor()) == parse_top_levels_at(stream, first),
                parse_program(stream, old(self).cursor()) matches Ok(program) ==> is_program(
                    program,
                ),
                parse_top_levels_at(stream, first) == prepend_top_levels(
                    ast_view(top_levels@),
                    parse_top_levels_at(stream, self.cursor()),
                ),
            decreases stream.tokens.len() - self.cursor(),
        {
            let ghost here = self.cursor();
            let ghost before = ast_view(top_levels@);
            let token = match self.helper.current() {
                Ok(token) => token,
                Err(_) => {
                    assert(stream.token_at(here) is None);
                    assert(before + Seq::<TopLevelView>::empty() =~= before);
                    return Ok(top_levels);
                },
            };
            match token {
                Token::KwFn => {
                    proof {
                        lemma_function_def_advances(stream, here);
                    }
                    let def = self.parse_function_def()?;
                    let ghost def_view = def@;
                    let top = TopLevel::expr(def);
                    top_levels.push(top);
                    proof {
                        let added = untyped(TopLevelKindView::Expr(def_view));
                        assert(def_view.span == no_span());
                        assert(top@ == added);
                        assert(ast_view(top_levels@) =~= before.push(added));
                        let rest = parse_top_levels_at(stream, self.cursor());
                        assert(parse_top_levels_at(stream, here) == prepend_top_levels(
                            seq![added],
                            rest,
                        ));
                        if let Ok(items) = rest {
                            assert(before + (seq![added] + items) =~= before.push(added) + items);
                        }
                    }
                },
                other => {
                    return Err(ParseError::UnexpectedToken(other));
                },
            }
        }
    }

    /// `block := '{' statement* '}'`, from the current token on.
    pub fn parse_block(&mut self) -> (parsed: Result<Block, ParseError>)
        requires
            old(self).wf(),
        ensures
            final(self).wf(),
            final(self).stream() == old(self).stream(),
            match parse_block_at(old(self).stream(), old(self).cursor()) {
                Ok((block, after)) => {
                    &&& parsed matches Ok(found)
                    &&& found@ == block
                    &&& final(self).cursor() == after
                },
                Err(error) => parsed matches Err(given) && given@ == error,
            },
    {
        let ghost stream = self.stream();
        self.helper.expect(Token::LeftBrace)?;
        self.helper.advance()?;
        let ghost first = self.cursor();
        let mut statements: Vec<Expr> = Vec::new();
        assert(exprs_view(statements@) =~= Seq::empty());
        loop
            invariant_except_break
                parse_statements_at(stream, first) == prepend(
                    exprs_view(statements@),
                    parse_statements_at(stream, self.cursor()),
                ),
            invariant
                self.wf(),
                self.stream() == stream,
                stream == old(self).stream(),
                skip_token(stream, old(self).cursor(), TokenView::LeftBrace) == Ok::<
                    int,
                    ParseErrorView,
                >(first),
            ensures
                parse_statements_at(stream, first) == Ok::<(Seq<ExprView>, int), ParseErrorView>(
                    (exprs_view(statements@), self.cursor()),
                ),
            decreases stream.tokens.len() - self.cursor(),
        {
            let ghost here = self.cursor();
            let ghost before = exprs_view(statements@);
            let token = self.helper.current()?;
            if let Token::RightBrace = token {
                assert(before + Seq::<ExprView>::empty() =~= before);
                break ;
            }
            proof {
                lemma_expr_advances(stream, here);
            }
            let statement = parse_statement(&mut self.helper, &self.grammar)?;
            statements.push(statement);
            proof {
                assert(exprs_view(statements@) =~= before.push(statement@));
                if let Ok((items, after)) = parse_statements_at(stream, self.cursor()) {
                    assert(before + (seq![statement@] + items) =~= before.push(statement@) + items);
                }
            }
        }
        self.helper.advance()?;
        Ok(Block::new(statements))
    }

    /// `typed_args := (IDENT ':' type (',' IDENT ':' type)*)?`, from the current token on.
    pub fn parse_typed_argument_list(&mut self) -> (parsed: Result<Vec<(String, Type)>, ParseError>)
        requires
            old(self).wf(),
        ensures
            final(self).wf(),
            final(self).stream() == old(self).stream(),
            match parse_typed_arguments_at(old(self).stream(), old(self).cursor()) {
                Ok((arguments, after)) => {
                    &&& parsed matches Ok(found)
                    &&& arguments_view(found@) == arguments
                    &&& final(self).cursor() == after
                },
                Err(error) => parsed matches Err(given) && given@ == error,
            },
    {
        let ghost stream = self.stream();
        let ghost first = self.cursor();
        let mut arguments: Vec<(String, Type)> = Vec::new();
        assert(arguments_view(arguments@) =~= Seq::empty());
        match self.helper.current() {
            Ok(Token::Ident(_)) => {},
            _ => {
                return Ok(arguments);
            },
        }
        loop
            invariant_except_break
                parse_argument_list_at(stream, first) == prepend(
                    arguments_view(arguments@),
                    parse_argument_list_at(stream, self.cursor()),
                ),
            invariant
                self.wf(),
                self.stream() == stream,
                stream == old(self).stream(),
                first == old(self).cursor(),
                stream.token_at(first) matches Some(TokenView::Ident(_)),
            ensures
                parse_argument_list_at(stream, first) == Ok::<
                    (Seq<(Seq<char>, TypeView)>, int),
                    ParseErrorView,
                >((arguments_view(arguments@), self.cursor())),
            decreases stream.tokens.len() - self.cursor(),
        {
            let ghost before = arguments_view(arguments@);
            let name = match self.helper.current()? {
                Token::Ident(name) => name,
                other => {
                    return Err(ParseError::UnexpectedToken(other));
                },
            };
            self.helper.advance()?;
            self.helper.expect(Token::Colon)?;
            self.helper.advance()?;
            let ty = parse_type(&mut self.helper, &self.grammar)?;
            let ghost added = (name@, ty@);
            arguments.push((name, ty));
            assert(arguments_view(arguments@) =~= before.push(added));
            match self.helper.current() {
                Ok(Token::Comma) => {
                    self.helper.advance()?;
                    proof {
                        if let Ok((items, after)) = parse_argument_list_at(stream, self.cursor()) {
                            assert(before + (seq![added] + items) =~= before.push(added) + items);
                        }
                    }
                },
                _ => {
                    assert(before + seq![added] =~= before.push(added));
                    break ;
                },
            }
        }
        Ok(arguments)
    }

    /// `fn_def := 'fn' IDENT '(' typed_args ')' ('->' type)? block`, from the current token on.
    pub fn parse_function_def(&mut self) -> (parsed: Result<Expr, ParseError>)
        requires
            old(self).wf(),
        ensures
            final(self).wf(),
            final(self).stream() == old(self).stream(),
            match parse_function_def_at(old(self).stream(), old(self).cursor()) {
                Ok((def, after)) => {
                    &&& parsed matches Ok(found)
                    &&& found@ == def
                    &&& final(self).cursor() == after
                },
                Err(error) => parsed matches Err(given) && given@ == error,
            },
    {
        self.helper.expect(Token::KwFn)?;
        self.helper.advance()?;
        let name = match self.helper.current()? {
            Token::Ident(name) => name,
            other => {
                return Err(ParseError::UnexpectedToken(other));
            },
        };
        self.helper.advance()?;
        self.helper.expect(Token::LeftParen)?;
        self.helper.advance()?;
        let arguments = self.parse_typed_argument_list()?;
        self.helper.expect(Token::RightParen)?;
        self.helper.advance()?;
        let return_ty = match self.helper.current() {
            Ok(Token::Arrow) => {
                self.helper.advance()?;
                Some(parse_type(&mut self.helper, &self.grammar)?)
            },
            _ => None,
        };
        let body = self.parse_block()?;
        let def = FunctionDef { name, arguments, return_ty, attributes: Vec::new(), body };
        let ghost def_view = def@;
        assert(def_view.attributes =~= Seq::empty());
        let expr = Expr::new(ExprKind::FunctionDef(def), Range { start: 0, end: 0 });
        assert(expr@ == untyped(ExprKindView::FunctionDef(def_view)));
        Ok(expr)
    }
}

/// Parses a source: its function definitions in order, or the first error.
/// Every span of the program lies within the source.
pub fn parse(source: &str) -> (parsed: Result<Vec<TopLevel>, ParseError>)
    ensures
        match parse_program(token_stream(source.spec_bytes()), -1) {
            Ok(program) => parsed matches Ok(ast) && ast_view(ast@) == program,
            Err(error) => parsed matches Err(given) && given@ == error,
        },
        parsed matches Ok(ast) ==> is_program(ast_view(ast@)) && spans_within(
            ast_view(ast@),
            source.spec_bytes().len(),
        ),
{
    proof {
        lemma_parsed_program(
            token_stream(source.spec_bytes()),
            -1,
            source.spec_bytes().len(),
        );
    }
    let mut parser = Parser::with_source(source);
    parser.parse()
}

} // verus!
