//! The whole way from program text to an evaluation that can be stepped.

use vstd::prelude::*;
use crate::evaluate::{evaluate, Evaluation};
use crate::host::{Event, RequestView};
use crate::run::{law_empty_program, law_one_result, result_model, run_model};
use crate::transition::{initial_model, EvaluationView};
use crate::evaluation_errors::LisrEvaluationErrorView;
use crate::expression::ExpressionView;
use crate::lisr_error::{LisrError, LisrErrorView};
use crate::node::NodeView;
use crate::parse::{parse, parse_model, LisrParseError};
use crate::scan::{scan, scan_model, LisrScanErrorView};
use crate::completeness::law_machine_and_semantics_agree;
use crate::semantics::{law_machine_computes_program, program};
use crate::token::TokenView;
use crate::translate::{translate, translate_model};

verus! {

/// What interpreting `input` starts with: the evaluation of the expressions
/// that the text spells, or the error of the first stage that fails.
pub open spec fn interpret_model(input: Seq<char>) -> Result<EvaluationView, LisrErrorView> {
    match scan_model(input, 0) {
        Err(error) => Err(LisrErrorView::Scan(error)),
        Ok(tokens) => match parse_model(tokens, 0) {
            Err(error) => Err(LisrErrorView::Parse(error)),
            Ok(nodes) => match translate_model(nodes) {
                Err(error) => Err(LisrErrorView::Parse(error)),
                Ok(expressions) => Ok(initial_model(expressions)),
            },
        },
    }
}

/// The model of what interpreting comes to.
pub open spec fn interpret_view<'a>(result: Result<Evaluation, LisrError<'a>>) -> Result<
    EvaluationView,
    LisrErrorView,
> {
    match result {
        Ok(evaluation) => Ok(evaluation@),
        Err(error) => Err(error@),
    }
}

/// Scans, parses and translates program text, and starts its evaluation.
///
/// The evaluation has made no step yet: its host steps it to its end.
pub fn interpret(input: &str) -> (result: Result<Evaluation, LisrError<'_>>)
    ensures
        interpret_view(result) == interpret_model(input@),
{
    let tokens = match scan(input) {
        Ok(tokens) => tokens,
        Err(error) => {
            return Err(LisrError::from(error));
        },
    };
    let nodes = match parse(tokens) {
        Ok(nodes) => nodes,
        Err(error) => {
            return Err(LisrError::from(error));
        },
    };
    let expressions = match translate(nodes) {
        Ok(expressions) => expressions,
        Err(error) => {
            return Err(LisrError::from(error));
        },
    };
    Ok(evaluate(expressions))
}

/// What a text comes to: the error of the first stage that fails, or else
/// what the program that it spells comes to.
pub open spec fn interpretation(
    input: Seq<char>,
    host: spec_fn(RequestView) -> Event,
    fuel: nat,
) -> Option<Result<ExpressionView, LisrErrorView>> {
    match scan_model(input, 0) {
        Err(error) => Some(Err(LisrErrorView::Scan(error))),
        Ok(tokens) => match parse_model(tokens, 0) {
            Err(error) => Some(Err(LisrErrorView::Parse(error))),
            Ok(nodes) => match translate_model(nodes) {
                Err(error) => Some(Err(LisrErrorView::Parse(error))),
                Ok(expressions) => match program(expressions, host, fuel) {
                    None => None,
                    Some(evaluated) => match evaluated.result {
                        Ok(value) => Some(Ok(value)),
                        Err(error) => Some(Err(LisrErrorView::Evaluation(error))),
                    },
                },
            },
        },
    }
}

/// The result of a run, among the errors of all stages.
pub open spec fn wrapped(
    result: Result<ExpressionView, LisrEvaluationErrorView>,
) -> Result<ExpressionView, LisrErrorView> {
    match result {
        Ok(value) => Ok(value),
        Err(error) => Err(LisrErrorView::Evaluation(error)),
    }
}

/// Interpreting computes what the text comes to. A text that a stage
/// refuses is refused with the error of that stage. Of any other text, a run
/// of the evaluation that `interpret` starts, once it is over, has come to
/// what `interpretation` says, with as much fuel as the run took steps.
pub proof fn law_interpretation(
    input: Seq<char>,
    host: spec_fn(RequestView) -> Event,
    steps: nat,
)
    ensures
        match interpret_model(input) {
            Err(error) => interpretation(input, host, steps) == Some(
                Err::<ExpressionView, LisrErrorView>(error),
            ),
            Ok(start) => result_model(run_model(start, host, steps)) is Some
                ==> interpretation(input, host, steps) == Some(
                wrapped(result_model(run_model(start, host, steps))->0),
            ),
        },
{
    if interpret_model(input) is Ok {
        let start = interpret_model(input)->Ok_0;
        let expressions = translate_model(parse_model(scan_model(input, 0)->Ok_0, 0)->Ok_0)->Ok_0;
        if result_model(run_model(start, host, steps)) is Some {
            law_machine_and_semantics_agree(expressions, host, steps);
        }
    }
}

/// What a text comes to does not depend on the fuel: where `interpretation`
/// says what it comes to, with whatever fuel, every run of the evaluation
/// that `interpret` starts, once it is over, has come to just that.
pub proof fn law_interpretation_with_any_fuel(
    input: Seq<char>,
    host: spec_fn(RequestView) -> Event,
    fuel: nat,
    steps: nat,
)
    requires
        interpretation(input, host, fuel) is Some,
        interpret_model(input) is Ok,
        result_model(run_model(interpret_model(input)->Ok_0, host, steps)) is Some,
    ensures
        interpretation(input, host, fuel) == Some(
            wrapped(result_model(run_model(interpret_model(input)->Ok_0, host, steps))->0),
        ),
{
    let expressions = translate_model(parse_model(scan_model(input, 0)->Ok_0, 0)->Ok_0)->Ok_0;
    law_machine_computes_program(expressions, host, fuel, steps);
}

/// Interpreting is deterministic: what a text comes to depends on the text
/// and on the answers of the host alone. Two runs of the same text that both
/// come to an end come to the same result, however many steps each is given;
/// and a text that one stage refuses is refused with the same error each
/// time.
pub proof fn law_same_text_same_result(
    input: Seq<char>,
    host: spec_fn(RequestView) -> Event,
    first: nat,
    second: nat,
)
    requires
        interpret_model(input) is Ok,
        result_model(run_model(interpret_model(input)->Ok_0, host, first)) is Some,
        result_model(run_model(interpret_model(input)->Ok_0, host, second)) is Some,
    ensures
        result_model(run_model(interpret_model(input)->Ok_0, host, first)) == result_model(
            run_model(interpret_model(input)->Ok_0, host, second),
        ),
{
    law_one_result(interpret_model(input)->Ok_0, host, first, second);
}

/// A text without tokens comes to the empty list, without an error.
pub proof fn law_empty_text(input: Seq<char>, host: spec_fn(RequestView) -> Event, steps: nat)
    requires
        scan_model(input, 0) == Ok::<Seq<TokenView>, LisrScanErrorView>(Seq::empty()),
        steps >= 2,
    ensures
        interpret_model(input) is Ok,
        result_model(run_model(interpret_model(input)->Ok_0, host, steps)) == Some(
            Ok::<ExpressionView, LisrEvaluationErrorView>(ExpressionView::EmptyList),
        ),
{
    assert(parse_model(Seq::empty(), 0) == Ok::<Seq<NodeView>, LisrParseError>(Seq::empty()));
    assert(translate_model(Seq::empty()) == Ok::<Seq<ExpressionView>, LisrParseError>(
        Seq::empty(),
    ));
    law_empty_program(host, steps);
}

} // verus!
