//! What expressions evaluate to, stated by recursion on their structure,
//! and the proof that the machine computes just that.
//!
//! The functions here say what the evaluation of an expression comes to:
//! its value or its error, the environment it leaves, and the number of
//! steps that the machine takes for it. They follow the structure of the
//! expression, and know nothing of frames. `fuel` bounds how deep they go:
//! where it does not suffice, or where the host does not answer a request,
//! they say nothing.

use vstd::prelude::*;
use crate::host::{Event, Operator, RequestView};
use crate::run::{
    event_model, law_one_result, law_result_is_final, law_run_in_parts, result_model, run_model,
};
use crate::transition::{
    answer_model, apply_model, apply_primitive_model, arithmetic_model, call_environment,
    conclude_model, evaluating, initial_model, operands_model, primitive_arithmetic_model,
    primitive_car_model, primitive_cdr_model, primitive_equals_model,
    primitive_is_empty_list_model, primitive_less_than_model, primitive_remainder_model,
    resume_model, returning, runtime_error, settle_model, setup_primitive_procedures_model,
    step_model, EvaluationView, FrameView, OutcomeView,
};
use crate::evaluation_errors::LisrEvaluationErrorView;
use crate::expression::{ExpressionView, Primitive};
use crate::token::NumberView;

verus! {

/// What an evaluation has come to.
pub struct Evaluated {
    /// The value, or the error.
    pub result: Result<ExpressionView, LisrEvaluationErrorView>,
    /// The environment that it leaves.
    pub environment: Map<Seq<char>, ExpressionView>,
    /// The number of steps that the machine takes for it.
    pub steps: nat,
}

/// An evaluation that has come to `value`.
pub open spec fn done(
    value: ExpressionView,
    environment: Map<Seq<char>, ExpressionView>,
    steps: nat,
) -> Option<Evaluated> {
    Some(Evaluated { result: Ok(value), environment, steps })
}

/// An evaluation that has failed with `error`.
pub open spec fn failed(
    error: LisrEvaluationErrorView,
    environment: Map<Seq<char>, ExpressionView>,
    steps: nat,
) -> Option<Evaluated> {
    Some(Evaluated { result: Err(error), environment, steps })
}

/// What `rest` comes to, `steps` steps later.
pub open spec fn after(steps: nat, rest: Option<Evaluated>) -> Option<Evaluated> {
    match rest {
        Some(evaluated) => Some(Evaluated { steps: steps + evaluated.steps, ..evaluated }),
        None => None,
    }
}

/// The value with which the host answers `request`, where it answers it.
pub open spec fn answered(request: RequestView, host: spec_fn(RequestView) -> Event) -> Option<
    ExpressionView,
> {
    answer_model(request, host(request))
}

/// What the outcome of a primitive procedure comes to, once the host has
/// answered what it asks.
pub open spec fn settled(
    outcome: OutcomeView,
    environment: Map<Seq<char>, ExpressionView>,
    host: spec_fn(RequestView) -> Event,
) -> Option<Evaluated> {
    match outcome {
        OutcomeView::Value { value } => done(value, environment, 0),
        OutcomeView::Error { error } => failed(error, environment, 0),
        OutcomeView::Ask { request } => match answered(request, host) {
            Some(value) => done(value, environment, 1),
            None => None,
        },
    }
}

/// What a result comes to.
pub open spec fn concluded(
    result: Result<ExpressionView, LisrEvaluationErrorView>,
    environment: Map<Seq<char>, ExpressionView>,
) -> Option<Evaluated> {
    Some(Evaluated { result, environment, steps: 0 })
}

/// `+`, `-`, `*`, `/` on what has been accumulated and the arguments that
/// remain: they are combined from left to right, two at a time.
pub open spec fn reduction(
    operator: Operator,
    accumulated: ExpressionView,
    remaining: Seq<ExpressionView>,
    environment: Map<Seq<char>, ExpressionView>,
    host: spec_fn(RequestView) -> Event,
) -> Option<Evaluated>
    decreases remaining.len(),
{
    if remaining.len() == 0 {
        done(accumulated, environment, 1)
    } else {
        match settled(
            primitive_arithmetic_model(operator, accumulated, remaining[0]),
            environment,
            host,
        ) {
            None => None,
            Some(combined) => match combined.result {
                Err(_) => after(1, Some(combined)),
                Ok(value) => after(
                    1 + combined.steps,
                    reduction(operator, value, remaining.drop_first(), environment, host),
                ),
            },
        }
    }
}

/// `=` on the argument compared last and those that remain, `value`
/// saying whether all before were equal: neighbours are compared from left
/// to right, up to the first two that differ.
pub open spec fn comparison(
    value: ExpressionView,
    current: ExpressionView,
    remaining: Seq<ExpressionView>,
    environment: Map<Seq<char>, ExpressionView>,
    host: spec_fn(RequestView) -> Event,
) -> Option<Evaluated>
    decreases remaining.len(),
{
    if value is False {
        done(ExpressionView::False, environment, 1)
    } else if remaining.len() == 0 {
        done(ExpressionView::True, environment, 1)
    } else {
        match settled(primitive_equals_model(current, remaining[0]), environment, host) {
            None => None,
            Some(compared) => match compared.result {
                Err(_) => after(1, Some(compared)),
                Ok(equal) => after(
                    1 + compared.steps,
                    comparison(equal, remaining[0], remaining.drop_first(), environment, host),
                ),
            },
        }
    }
}

/// What the application of a primitive procedure comes to.
pub open spec fn primitive_application(
    procedure: Primitive,
    arguments: Seq<ExpressionView>,
    environment: Map<Seq<char>, ExpressionView>,
    host: spec_fn(RequestView) -> Event,
) -> Option<Evaluated> {
    match procedure {
        Primitive::Addition => arithmetic(Operator::Add, arguments, environment, host),
        Primitive::Subtraction => arithmetic(Operator::Subtract, arguments, environment, host),
        Primitive::Multiplication => arithmetic(Operator::Multiply, arguments, environment, host),
        Primitive::Division => arithmetic(Operator::Divide, arguments, environment, host),
        Primitive::Remainder => settled(primitive_remainder_model(arguments), environment, host),
        Primitive::Equals => if arguments.len() == 0 {
            failed(
                runtime_error("Equals cannot be invoked without any arguments"@),
                environment,
                0,
            )
        } else {
            comparison(
                ExpressionView::True,
                arguments[0],
                arguments.drop_first(),
                environment,
                host,
            )
        },
        Primitive::LessThan => settled(primitive_less_than_model(arguments), environment, host),
        Primitive::Car => concluded(primitive_car_model(arguments), environment),
        Primitive::Cdr => concluded(primitive_cdr_model(arguments), environment),
        Primitive::IsEmptyList => concluded(primitive_is_empty_list_model(arguments), environment),
    }
}

/// What an arithmetic primitive comes to on its arguments: it needs one
/// at least.
pub open spec fn arithmetic(
    operator: Operator,
    arguments: Seq<ExpressionView>,
    environment: Map<Seq<char>, ExpressionView>,
    host: spec_fn(RequestView) -> Event,
) -> Option<Evaluated> {
    if arguments.len() == 0 {
        failed(
            runtime_error("An arithmetic function cannot be invoked without any arguments"@),
            environment,
            0,
        )
    } else {
        reduction(operator, arguments[0], arguments.drop_first(), environment, host)
    }
}

/// What the evaluation of `expression` in `environment` comes to.
///
/// Literals and procedures evaluate to themselves, a numeral to the number
/// that the host makes of it. An identifier evaluates to what it is bound to.
/// An assignment needs its variable bound, evaluates its value, rebinds the
/// variable and comes to the value; a definition binds its variable and comes
/// to the identifier. A lambda comes to a procedure that holds the
/// environment as it is. An `if` evaluates its predicate, which has to come to
/// true or false, and then the branch chosen. A pair evaluates its first part
/// and then its second. An application evaluates the procedure, then the
/// arguments from left to right, and applies the one to the others. The
/// first error ends it all.
pub open spec fn evaluation(
    expression: ExpressionView,
    environment: Map<Seq<char>, ExpressionView>,
    host: spec_fn(RequestView) -> Event,
    fuel: nat,
) -> Option<Evaluated>
    decreases fuel, 0nat,
{
    if fuel == 0 {
        None
    } else {
        let less = (fuel - 1) as nat;
        match expression {
            ExpressionView::Number { value: NumberView::Decimal { negative, digits } } => {
                match answered(RequestView::Convert { negative, digits }, host) {
                    Some(value) => done(value, environment, 2),
                    None => None,
                }
            },
            ExpressionView::Identifier { name } => if environment.contains_key(name) {
                done(environment[name], environment, 1)
            } else {
                failed(LisrEvaluationErrorView::UndefinedIdentifier, environment, 1)
            },
            ExpressionView::Assignment { variable, value } => if !environment.contains_key(
                variable,
            ) {
                failed(LisrEvaluationErrorView::UndefinedIdentifier, environment, 1)
            } else {
                match evaluation(*value, environment, host, less) {
                    None => None,
                    Some(bound) => match bound.result {
                        Err(_) => after(1, Some(bound)),
                        Ok(value) => done(
                            value,
                            bound.environment.insert(variable, value),
                            bound.steps + 2,
                        ),
                    },
                }
            },
            ExpressionView::Definition { variable, value } => {
                match evaluation(*value, environment, host, less) {
                    None => None,
                    Some(bound) => match bound.result {
                        Err(_) => after(1, Some(bound)),
                        Ok(value) => done(
                            ExpressionView::Identifier { name: variable },
                            bound.environment.insert(variable, value),
                            bound.steps + 2,
                        ),
                    },
                }
            },
            ExpressionView::Lambda { parameters, body } => done(
                ExpressionView::CompoundProcedure { parameters, body, environment },
                environment,
                1,
            ),
            ExpressionView::If { predicate, consequent, alternative } => {
                match evaluation(*predicate, environment, host, less) {
                    None => None,
                    Some(decided) => match decided.result {
                        Err(_) => after(1, Some(decided)),
                        Ok(ExpressionView::True) => after(
                            decided.steps + 2,
                            evaluation(*consequent, decided.environment, host, less),
                        ),
                        Ok(ExpressionView::False) => after(
                            decided.steps + 2,
                            evaluation(*alternative, decided.environment, host, less),
                        ),
                        Ok(_) => failed(
                            runtime_error(
                                "Predicate of an if expression did not evaluate to a boolean value"@,
                            ),
                            decided.environment,
                            decided.steps + 2,
                        ),
                    },
                }
            },
            ExpressionView::And { operands } => after(
                1,
                conjunction(operands, environment, host, less),
            ),
            ExpressionView::Or { operands } => after(
                1,
                disjunction(operands, environment, host, less),
            ),
            ExpressionView::Begin { sequence } => if sequence.len() == 0 {
                failed(
                    runtime_error(
                        "A sequence of expressions in a begin statement cannot be empty"@,
                    ),
                    environment,
                    1,
                )
            } else {
                after(
                    1,
                    succession(ExpressionView::EmptyList, sequence, environment, host, less),
                )
            },
            ExpressionView::Cons { first, rest } => {
                match evaluation(*first, environment, host, less) {
                    None => None,
                    Some(head) => match head.result {
                        Err(_) => after(1, Some(head)),
                        Ok(first) => match evaluation(*rest, head.environment, host, less) {
                            None => None,
                            Some(tail) => match tail.result {
                                Err(_) => after(head.steps + 2, Some(tail)),
                                Ok(rest) => done(
                                    ExpressionView::Cons {
                                        first: Box::new(first),
                                        rest: Box::new(rest),
                                    },
                                    tail.environment,
                                    head.steps + tail.steps + 3,
                                ),
                            },
                        },
                    },
                }
            },
            ExpressionView::Application { procedure, arguments } => {
                match evaluation(*procedure, environment, host, less) {
                    None => None,
                    Some(operator) => match operator.result {
                        Err(_) => after(1, Some(operator)),
                        Ok(procedure) => after(
                            operator.steps + 2,
                            operands(
                                procedure,
                                Seq::empty(),
                                arguments,
                                operator.environment,
                                host,
                                less,
                            ),
                        ),
                    },
                }
            },
            _ => done(expression, environment, 1),
        }
    }
}

/// `and` on the operands that remain, all before having come to true:
/// they are evaluated from left to right, up to the first that comes to
/// false. Each has to come to true or false.
pub open spec fn conjunction(
    remaining: Seq<ExpressionView>,
    environment: Map<Seq<char>, ExpressionView>,
    host: spec_fn(RequestView) -> Event,
    fuel: nat,
) -> Option<Evaluated>
    decreases fuel, remaining.len() + 1,
{
    if remaining.len() == 0 {
        done(ExpressionView::True, environment, 1)
    } else {
        match evaluation(remaining[0], environment, host, fuel) {
            None => None,
            Some(operand) => match operand.result {
                Err(_) => after(1, Some(operand)),
                Ok(ExpressionView::True) => after(
                    1 + operand.steps,
                    conjunction(remaining.drop_first(), operand.environment, host, fuel),
                ),
                Ok(ExpressionView::False) => done(
                    ExpressionView::False,
                    operand.environment,
                    operand.steps + 2,
                ),
                Ok(_) => failed(
                    runtime_error(
                        "Operand of an and expression did not evaluate to a boolean value"@,
                    ),
                    operand.environment,
                    operand.steps + 2,
                ),
            },
        }
    }
}

/// `or` on the operands that remain, all before having come to false:
/// they are evaluated from left to right, up to the first that comes to
/// true. Each has to come to true or false.
pub open spec fn disjunction(
    remaining: Seq<ExpressionView>,
    environment: Map<Seq<char>, ExpressionView>,
    host: spec_fn(RequestView) -> Event,
    fuel: nat,
) -> Option<Evaluated>
    decreases fuel, remaining.len() + 1,
{
    if remaining.len() == 0 {
        done(ExpressionView::False, environment, 1)
    } else {
        match evaluation(remaining[0], environment, host, fuel) {
            None => None,
            Some(operand) => match operand.result {
                Err(_) => after(1, Some(operand)),
                Ok(ExpressionView::False) => after(
                    1 + operand.steps,
                    disjunction(remaining.drop_first(), operand.environment, host, fuel),
                ),
                Ok(ExpressionView::True) => done(
                    ExpressionView::True,
                    operand.environment,
                    operand.steps + 2,
                ),
                Ok(_) => failed(
                    runtime_error(
                        "Operand of an or expression did not evaluate to a boolean value"@,
                    ),
                    operand.environment,
                    operand.steps + 2,
                ),
            },
        }
    }
}

/// The expressions that remain of a sequence, `value` being what the one
/// before came to: they are evaluated in order, and the value of the last is
/// the value of the whole.
pub open spec fn succession(
    value: ExpressionView,
    remaining: Seq<ExpressionView>,
    environment: Map<Seq<char>, ExpressionView>,
    host: spec_fn(RequestView) -> Event,
    fuel: nat,
) -> Option<Evaluated>
    decreases fuel, remaining.len() + 1,
{
    if remaining.len() == 0 {
        done(value, environment, 1)
    } else {
        match evaluation(remaining[0], environment, host, fuel) {
            None => None,
            Some(one) => match one.result {
                Err(_) => after(1, Some(one)),
                Ok(next) => after(
                    1 + one.steps,
                    succession(next, remaining.drop_first(), one.environment, host, fuel),
                ),
            },
        }
    }
}

/// The arguments that remain of an application, those before having come
/// to `evaluated`: they are evaluated from left to right, and then the
/// procedure is applied to them all.
pub open spec fn operands(
    procedure: ExpressionView,
    evaluated: Seq<ExpressionView>,
    remaining: Seq<ExpressionView>,
    environment: Map<Seq<char>, ExpressionView>,
    host: spec_fn(RequestView) -> Event,
    fuel: nat,
) -> Option<Evaluated>
    decreases fuel, remaining.len() + 2,
{
    if remaining.len() == 0 {
        application(procedure, evaluated, environment, host, fuel)
    } else {
        match evaluation(remaining[0], environment, host, fuel) {
            None => None,
            Some(argument) => match argument.result {
                Err(_) => Some(argument),
                Ok(value) => after(
                    argument.steps + 1,
                    operands(
                        procedure,
                        evaluated.push(value),
                        remaining.drop_first(),
                        argument.environment,
                        host,
                        fuel,
                    ),
                ),
            },
        }
    }
}

/// What the application of `procedure` to `arguments` comes to.
///
/// A primitive procedure works on the arguments as they are. A compound
/// procedure needs as many arguments as it has parameters; its body is
/// evaluated in the caller's bindings overlaid by the captured ones, overlaid
/// by the parameters; the caller's environment is none the different
/// afterwards. Nothing else can be applied.
pub open spec fn application(
    procedure: ExpressionView,
    arguments: Seq<ExpressionView>,
    environment: Map<Seq<char>, ExpressionView>,
    host: spec_fn(RequestView) -> Event,
    fuel: nat,
) -> Option<Evaluated>
    decreases fuel, 1nat,
{
    match procedure {
        ExpressionView::PrimitiveProcedure { procedure } => primitive_application(
            procedure,
            arguments,
            environment,
            host,
        ),
        ExpressionView::CompoundProcedure { parameters, body, environment: captured } => {
            if arguments.len() != parameters.len() {
                failed(
                    runtime_error("Function called with a wrong number of arguments"@),
                    environment,
                    0,
                )
            } else {
                match evaluation(
                    *body,
                    call_environment(environment, captured, parameters, arguments),
                    host,
                    fuel,
                ) {
                    None => None,
                    Some(returned) => match returned.result {
                        Err(_) => Some(returned),
                        Ok(value) => done(value, environment, returned.steps + 1),
                    },
                }
            }
        },
        _ => failed(runtime_error("Object cannot be invoked"@), environment, 0),
    }
}

/// What a program comes to: its expressions are evaluated in order, in
/// one environment in which the primitive procedures are bound. The value of
/// the last is the value of the program, the empty list where there is none;
/// the first error ends it.
pub open spec fn program(
    expressions: Seq<ExpressionView>,
    host: spec_fn(RequestView) -> Event,
    fuel: nat,
) -> Option<Evaluated> {
    after(
        1,
        succession(
            ExpressionView::EmptyList,
            expressions,
            setup_primitive_procedures_model(Map::empty()),
            host,
            fuel,
        ),
    )
}

/// Whether the machine, started in `start`, comes to what `outcome` says:
/// after the steps that it counts, the value is handed to the frames of
/// `continuation` in the environment that it leaves, or evaluation is over
/// with its error. Of no outcome, nothing is asked.
pub open spec fn reaches(
    start: EvaluationView,
    host: spec_fn(RequestView) -> Event,
    outcome: Option<Evaluated>,
    continuation: Seq<FrameView>,
) -> bool {
    match outcome {
        None => true,
        Some(evaluated) => match evaluated.result {
            Ok(value) => run_model(start, host, evaluated.steps) == returning(
                value,
                evaluated.environment,
                continuation,
            ),
            Err(error) => result_model(run_model(start, host, evaluated.steps)) == Some(
                Err::<ExpressionView, LisrEvaluationErrorView>(error),
            ),
        },
    }
}

/// What is reached from a state in the middle of a run is reached from
/// its start, that many steps later.
pub proof fn lemma_after(
    start: EvaluationView,
    middle: EvaluationView,
    host: spec_fn(RequestView) -> Event,
    steps: nat,
    outcome: Option<Evaluated>,
    continuation: Seq<FrameView>,
)
    requires
        run_model(start, host, steps) == middle,
        reaches(middle, host, outcome, continuation),
    ensures
        reaches(start, host, after(steps, outcome), continuation),
{
    if outcome is Some {
        law_run_in_parts(start, host, steps, outcome->0.steps);
    }
}

/// A run of one step is one step.
pub proof fn lemma_one_step(start: EvaluationView, host: spec_fn(RequestView) -> Event)
    ensures
        run_model(start, host, 1) == step_model(start, event_model(start, host)),
{
    let next = step_model(start, event_model(start, host));
    assert(run_model(next, host, 0) == next);
}

/// A run goes on by one step from where it has come to.
pub proof fn lemma_next_step(
    start: EvaluationView,
    middle: EvaluationView,
    host: spec_fn(RequestView) -> Event,
    steps: nat,
)
    requires
        run_model(start, host, steps) == middle,
    ensures
        run_model(start, host, steps + 1) == step_model(middle, event_model(middle, host)),
{
    law_run_in_parts(start, host, steps, 1);
    lemma_one_step(middle, host);
}

/// A value goes to the innermost frame, which leaves the stack.
pub proof fn lemma_return_step(
    value: ExpressionView,
    environment: Map<Seq<char>, ExpressionView>,
    continuation: Seq<FrameView>,
    frame: FrameView,
    host: spec_fn(RequestView) -> Event,
)
    ensures
        run_model(returning(value, environment, continuation.push(frame)), host, 1)
            == resume_model(frame, value, environment, continuation),
{
    assert(continuation.push(frame).drop_last() =~= continuation);
    lemma_one_step(returning(value, environment, continuation.push(frame)), host);
}

/// An error is reached whatever frames wait.
pub proof fn lemma_failure_anywhere(
    start: EvaluationView,
    host: spec_fn(RequestView) -> Event,
    outcome: Option<Evaluated>,
    inner: Seq<FrameView>,
    outer: Seq<FrameView>,
)
    requires
        reaches(start, host, outcome, inner),
        outcome is Some ==> outcome->0.result is Err,
    ensures
        reaches(start, host, outcome, outer),
{
}

/// The machine comes to what the outcome of a primitive procedure comes
/// to.
pub proof fn lemma_settled(
    outcome: OutcomeView,
    environment: Map<Seq<char>, ExpressionView>,
    continuation: Seq<FrameView>,
    host: spec_fn(RequestView) -> Event,
)
    ensures
        reaches(
            settle_model(outcome, environment, continuation),
            host,
            settled(outcome, environment, host),
            continuation,
        ),
{
    let start = settle_model(outcome, environment, continuation);
    assert(run_model(start, host, 0) == start);
    match outcome {
        OutcomeView::Ask { request } => {
            if answered(request, host) is Some {
                lemma_one_step(start, host);
            }
        },
        _ => {},
    }
}

/// The machine comes to what a result comes to.
pub proof fn lemma_concluded(
    result: Result<ExpressionView, LisrEvaluationErrorView>,
    environment: Map<Seq<char>, ExpressionView>,
    continuation: Seq<FrameView>,
    host: spec_fn(RequestView) -> Event,
)
    ensures
        reaches(
            conclude_model(result, environment, continuation),
            host,
            concluded(result, environment),
            continuation,
        ),
{
    let start = conclude_model(result, environment, continuation);
    assert(run_model(start, host, 0) == start);
}

/// The machine reduces arguments as `reduction` says.
pub proof fn lemma_reduction(
    operator: Operator,
    accumulated: ExpressionView,
    remaining: Seq<ExpressionView>,
    environment: Map<Seq<char>, ExpressionView>,
    continuation: Seq<FrameView>,
    host: spec_fn(RequestView) -> Event,
)
    ensures
        reaches(
            returning(
                accumulated,
                environment,
                continuation.push(FrameView::Reduce { operator, remaining }),
            ),
            host,
            reduction(operator, accumulated, remaining, environment, host),
            continuation,
        ),
    decreases remaining.len(),
{
    let frame = FrameView::Reduce { operator, remaining };
    let start = returning(accumulated, environment, continuation.push(frame));
    lemma_return_step(accumulated, environment, continuation, frame, host);
    if remaining.len() > 0 {
        let outcome = primitive_arithmetic_model(operator, accumulated, remaining[0]);
        let rest = FrameView::Reduce { operator, remaining: remaining.drop_first() };
        let inner = continuation.push(rest);
        let middle = settle_model(outcome, environment, inner);
        assert(run_model(start, host, 1) == middle);
        lemma_settled(outcome, environment, inner, host);
        match settled(outcome, environment, host) {
            None => {},
            Some(combined) => match combined.result {
                Err(_) => {
                    lemma_failure_anywhere(middle, host, Some(combined), inner, continuation);
                    lemma_after(start, middle, host, 1, Some(combined), continuation);
                },
                Ok(value) => {
                    let next = returning(value, environment, inner);
                    law_run_in_parts(start, host, 1, combined.steps);
                    assert(run_model(start, host, 1 + combined.steps) == next);
                    lemma_reduction(
                        operator,
                        value,
                        remaining.drop_first(),
                        environment,
                        continuation,
                        host,
                    );
                    lemma_after(
                        start,
                        next,
                        host,
                        1 + combined.steps,
                        reduction(operator, value, remaining.drop_first(), environment, host),
                        continuation,
                    );
                },
            },
        }
    }
}

/// The machine compares arguments as `comparison` says.
pub proof fn lemma_comparison(
    value: ExpressionView,
    current: ExpressionView,
    remaining: Seq<ExpressionView>,
    environment: Map<Seq<char>, ExpressionView>,
    continuation: Seq<FrameView>,
    host: spec_fn(RequestView) -> Event,
)
    ensures
        reaches(
            returning(
                value,
                environment,
                continuation.push(FrameView::Equals { current, remaining }),
            ),
            host,
            comparison(value, current, remaining, environment, host),
            continuation,
        ),
    decreases remaining.len(),
{
    let frame = FrameView::Equals { current, remaining };
    let start = returning(value, environment, continuation.push(frame));
    lemma_return_step(value, environment, continuation, frame, host);
    if !(value is False) && remaining.len() > 0 {
        let outcome = primitive_equals_model(current, remaining[0]);
        let rest = FrameView::Equals { current: remaining[0], remaining: remaining.drop_first() };
        let inner = continuation.push(rest);
        let middle = settle_model(outcome, environment, inner);
        assert(run_model(start, host, 1) == middle);
        lemma_settled(outcome, environment, inner, host);
        match settled(outcome, environment, host) {
            None => {},
            Some(compared) => match compared.result {
                Err(_) => {
                    lemma_failure_anywhere(middle, host, Some(compared), inner, continuation);
                    lemma_after(start, middle, host, 1, Some(compared), continuation);
                },
                Ok(equal) => {
                    let next = returning(equal, environment, inner);
                    law_run_in_parts(start, host, 1, compared.steps);
                    assert(run_model(start, host, 1 + compared.steps) == next);
                    lemma_comparison(
                        equal,
                        remaining[0],
                        remaining.drop_first(),
                        environment,
                        continuation,
                        host,
                    );
                    lemma_after(
                        start,
                        next,
                        host,
                        1 + compared.steps,
                        comparison(
                            equal,
                            remaining[0],
                            remaining.drop_first(),
                            environment,
                            host,
                        ),
                        continuation,
                    );
                },
            },
        }
    }
}

/// The machine applies a primitive procedure as `primitive_application`
/// says.
pub proof fn lemma_primitive_application(
    procedure: Primitive,
    arguments: Seq<ExpressionView>,
    environment: Map<Seq<char>, ExpressionView>,
    continuation: Seq<FrameView>,
    host: spec_fn(RequestView) -> Event,
)
    ensures
        reaches(
            apply_primitive_model(procedure, arguments, environment, continuation),
            host,
            primitive_application(procedure, arguments, environment, host),
            continuation,
        ),
{
    let start = apply_primitive_model(procedure, arguments, environment, continuation);
    assert(run_model(start, host, 0) == start);
    match procedure {
        Primitive::Addition => lemma_arithmetic(
            Operator::Add,
            arguments,
            environment,
            continuation,
            host,
        ),
        Primitive::Subtraction => lemma_arithmetic(
            Operator::Subtract,
            arguments,
            environment,
            continuation,
            host,
        ),
        Primitive::Multiplication => lemma_arithmetic(
            Operator::Multiply,
            arguments,
            environment,
            continuation,
            host,
        ),
        Primitive::Division => lemma_arithmetic(
            Operator::Divide,
            arguments,
            environment,
            continuation,
            host,
        ),
        Primitive::Remainder => lemma_settled(
            primitive_remainder_model(arguments),
            environment,
            continuation,
            host,
        ),
        Primitive::Equals => {
            if arguments.len() > 0 {
                lemma_comparison(
                    ExpressionView::True,
                    arguments[0],
                    arguments.drop_first(),
                    environment,
                    continuation,
                    host,
                );
            }
        },
        Primitive::LessThan => lemma_settled(
            primitive_less_than_model(arguments),
            environment,
            continuation,
            host,
        ),
        Primitive::Car => lemma_concluded(
            primitive_car_model(arguments),
            environment,
            continuation,
            host,
        ),
        Primitive::Cdr => lemma_concluded(
            primitive_cdr_model(arguments),
            environment,
            continuation,
            host,
        ),
        Primitive::IsEmptyList => lemma_concluded(
            primitive_is_empty_list_model(arguments),
            environment,
            continuation,
            host,
        ),
    }
}

/// The machine starts an arithmetic primitive as `arithmetic` says.
pub proof fn lemma_arithmetic(
    operator: Operator,
    arguments: Seq<ExpressionView>,
    environment: Map<Seq<char>, ExpressionView>,
    continuation: Seq<FrameView>,
    host: spec_fn(RequestView) -> Event,
)
    ensures
        reaches(
            arithmetic_model(operator, arguments, environment, continuation),
            host,
            arithmetic(operator, arguments, environment, host),
            continuation,
        ),
{
    let start = arithmetic_model(operator, arguments, environment, continuation);
    assert(run_model(start, host, 0) == start);
    if arguments.len() > 0 {
        lemma_reduction(
            operator,
            arguments[0],
            arguments.drop_first(),
            environment,
            continuation,
            host,
        );
    }
}

/// What an expression under a frame comes to goes to that frame: where
/// `first` is reached from `start` and the evaluation that starts in `first`
/// comes to a value, the machine is one step later where the frame leaves it;
/// where it fails, the whole has failed.
pub proof fn lemma_through(
    start: EvaluationView,
    first: EvaluationView,
    host: spec_fn(RequestView) -> Event,
    before: nat,
    inner: Option<Evaluated>,
    frame: FrameView,
    continuation: Seq<FrameView>,
)
    requires
        run_model(start, host, before) == first,
        reaches(first, host, inner, continuation.push(frame)),
    ensures
        match inner {
            None => true,
            Some(evaluated) => match evaluated.result {
                Ok(value) => run_model(start, host, before + evaluated.steps) == returning(
                    value,
                    evaluated.environment,
                    continuation.push(frame),
                ) && run_model(start, host, before + evaluated.steps + 1) == resume_model(
                    frame,
                    value,
                    evaluated.environment,
                    continuation,
                ),
                Err(_) => reaches(start, host, after(before, inner), continuation),
            },
        },
{
    if inner is Some {
        let evaluated = inner->0;
        law_run_in_parts(start, host, before, evaluated.steps);
        match evaluated.result {
            Ok(value) => {
                lemma_return_step(value, evaluated.environment, continuation, frame, host);
                law_run_in_parts(start, host, before + evaluated.steps, 1);
            },
            Err(_) => {},
        }
    }
}

/// The machine evaluates an expression as `evaluation` says: whatever
/// frames wait, it hands them the value in the environment that the
/// evaluation leaves, after the steps that it counts; or it ends with its
/// error.
pub proof fn lemma_evaluation(
    expression: ExpressionView,
    environment: Map<Seq<char>, ExpressionView>,
    continuation: Seq<FrameView>,
    host: spec_fn(RequestView) -> Event,
    fuel: nat,
)
    ensures
        reaches(
            evaluating(expression, environment, continuation),
            host,
            evaluation(expression, environment, host, fuel),
            continuation,
        ),
    decreases fuel, 0nat,
{
    if fuel > 0 {
        let less = (fuel - 1) as nat;
        let start = evaluating(expression, environment, continuation);
        lemma_one_step(start, host);
        let first = run_model(start, host, 1);
        match expression {
            ExpressionView::Number { value: NumberView::Decimal { negative, digits } } => {
                lemma_next_step(start, first, host, 1);
            },
            ExpressionView::Identifier { name } => {},
            ExpressionView::Assignment { variable, value } => {
                if environment.contains_key(variable) {
                    let frame = FrameView::Assignment { variable };
                    lemma_evaluation(*value, environment, continuation.push(frame), host, less);
                    lemma_through(
                        start,
                        first,
                        host,
                        1,
                        evaluation(*value, environment, host, less),
                        frame,
                        continuation,
                    );
                }
            },
            ExpressionView::Definition { variable, value } => {
                let frame = FrameView::Definition { variable };
                lemma_evaluation(*value, environment, continuation.push(frame), host, less);
                lemma_through(
                    start,
                    first,
                    host,
                    1,
                    evaluation(*value, environment, host, less),
                    frame,
                    continuation,
                );
            },
            ExpressionView::Lambda { parameters, body } => {},
            ExpressionView::If { predicate, consequent, alternative } => {
                let frame = FrameView::If { consequent: *consequent, alternative: *alternative };
                let inner = evaluation(*predicate, environment, host, less);
                lemma_evaluation(*predicate, environment, continuation.push(frame), host, less);
                lemma_through(start, first, host, 1, inner, frame, continuation);
                if inner is Some && inner->0.result is Ok {
                    let decided = inner->0;
                    let chosen = run_model(start, host, 1 + decided.steps + 1);
                    match decided.result->Ok_0 {
                        ExpressionView::True => {
                            lemma_evaluation(
                                *consequent,
                                decided.environment,
                                continuation,
                                host,
                                less,
                            );
                            lemma_after(
                                start,
                                chosen,
                                host,
                                decided.steps + 2,
                                evaluation(*consequent, decided.environment, host, less),
                                continuation,
                            );
                        },
                        ExpressionView::False => {
                            lemma_evaluation(
                                *alternative,
                                decided.environment,
                                continuation,
                                host,
                                less,
                            );
                            lemma_after(
                                start,
                                chosen,
                                host,
                                decided.steps + 2,
                                evaluation(*alternative, decided.environment, host, less),
                                continuation,
                            );
                        },
                        _ => {},
                    }
                }
            },
            ExpressionView::And { operands } => {
                lemma_conjunction(operands, environment, continuation, host, less);
                lemma_after(
                    start,
                    first,
                    host,
                    1,
                    conjunction(operands, environment, host, less),
                    continuation,
                );
            },
            ExpressionView::Or { operands } => {
                lemma_disjunction(operands, environment, continuation, host, less);
                lemma_after(
                    start,
                    first,
                    host,
                    1,
                    disjunction(operands, environment, host, less),
                    continuation,
                );
            },
            ExpressionView::Begin { sequence } => {
                if sequence.len() > 0 {
                    lemma_succession(
                        ExpressionView::EmptyList,
                        sequence,
                        environment,
                        continuation,
                        host,
                        less,
                    );
                    lemma_after(
                        start,
                        first,
                        host,
                        1,
                        succession(ExpressionView::EmptyList, sequence, environment, host, less),
                        continuation,
                    );
                }
            },
            ExpressionView::Cons { first: head, rest: tail } => {
                let frame = FrameView::ConsFirst { rest: *tail };
                let inner = evaluation(*head, environment, host, less);
                lemma_evaluation(*head, environment, continuation.push(frame), host, less);
                lemma_through(start, first, host, 1, inner, frame, continuation);
                if inner is Some && inner->0.result is Ok {
                    let one = inner->0;
                    let value = one.result->Ok_0;
                    let second = run_model(start, host, 1 + one.steps + 1);
                    let other = FrameView::ConsRest { first: value };
                    let last = evaluation(*tail, one.environment, host, less);
                    lemma_evaluation(*tail, one.environment, continuation.push(other), host, less);
                    lemma_through(start, second, host, one.steps + 2, last, other, continuation);
                }
            },
            ExpressionView::Application { procedure, arguments } => {
                let frame = FrameView::Operator { arguments };
                let inner = evaluation(*procedure, environment, host, less);
                lemma_evaluation(*procedure, environment, continuation.push(frame), host, less);
                lemma_through(start, first, host, 1, inner, frame, continuation);
                if inner is Some && inner->0.result is Ok {
                    let operator = inner->0;
                    let second = run_model(start, host, 1 + operator.steps + 1);
                    lemma_operands(
                        operator.result->Ok_0,
                        Seq::empty(),
                        arguments,
                        operator.environment,
                        continuation,
                        host,
                        less,
                    );
                    lemma_after(
                        start,
                        second,
                        host,
                        operator.steps + 2,
                        operands(
                            operator.result->Ok_0,
                            Seq::empty(),
                            arguments,
                            operator.environment,
                            host,
                            less,
                        ),
                        continuation,
                    );
                }
            },
            _ => {},
        }
    }
}

/// The machine evaluates the operands of an `and` as `conjunction` says.
pub proof fn lemma_conjunction(
    remaining: Seq<ExpressionView>,
    environment: Map<Seq<char>, ExpressionView>,
    continuation: Seq<FrameView>,
    host: spec_fn(RequestView) -> Event,
    fuel: nat,
)
    ensures
        reaches(
            returning(
                ExpressionView::True,
                environment,
                continuation.push(FrameView::And { remaining }),
            ),
            host,
            conjunction(remaining, environment, host, fuel),
            continuation,
        ),
    decreases fuel, remaining.len() + 1,
{
    let start = returning(
        ExpressionView::True,
        environment,
        continuation.push(FrameView::And { remaining }),
    );
    lemma_return_step(
        ExpressionView::True,
        environment,
        continuation,
        FrameView::And { remaining },
        host,
    );
    if remaining.len() > 0 {
        let frame = FrameView::And { remaining: remaining.drop_first() };
        let first = run_model(start, host, 1);
        let inner = evaluation(remaining[0], environment, host, fuel);
        lemma_evaluation(remaining[0], environment, continuation.push(frame), host, fuel);
        lemma_through(start, first, host, 1, inner, frame, continuation);
        if inner is Some && inner->0.result == Ok::<ExpressionView, LisrEvaluationErrorView>(
            ExpressionView::True,
        ) {
            let operand = inner->0;
            let second = run_model(start, host, 1 + operand.steps);
            lemma_conjunction(
                remaining.drop_first(),
                operand.environment,
                continuation,
                host,
                fuel,
            );
            lemma_after(
                start,
                second,
                host,
                1 + operand.steps,
                conjunction(remaining.drop_first(), operand.environment, host, fuel),
                continuation,
            );
        }
    }
}

/// The machine evaluates the operands of an `or` as `disjunction` says.
pub proof fn lemma_disjunction(
    remaining: Seq<ExpressionView>,
    environment: Map<Seq<char>, ExpressionView>,
    continuation: Seq<FrameView>,
    host: spec_fn(RequestView) -> Event,
    fuel: nat,
)
    ensures
        reaches(
            returning(
                ExpressionView::False,
                environment,
                continuation.push(FrameView::Or { remaining }),
            ),
            host,
            disjunction(remaining, environment, host, fuel),
            continuation,
        ),
    decreases fuel, remaining.len() + 1,
{
    let start = returning(
        ExpressionView::False,
        environment,
        continuation.push(FrameView::Or { remaining }),
    );
    lemma_return_step(
        ExpressionView::False,
        environment,
        continuation,
        FrameView::Or { remaining },
        host,
    );
    if remaining.len() > 0 {
        let frame = FrameView::Or { remaining: remaining.drop_first() };
        let first = run_model(start, host, 1);
        let inner = evaluation(remaining[0], environment, host, fuel);
        lemma_evaluation(remaining[0], environment, continuation.push(frame), host, fuel);
        lemma_through(start, first, host, 1, inner, frame, continuation);
        if inner is Some && inner->0.result == Ok::<ExpressionView, LisrEvaluationErrorView>(
            ExpressionView::False,
        ) {
            let operand = inner->0;
            let second = run_model(start, host, 1 + operand.steps);
            lemma_disjunction(
                remaining.drop_first(),
                operand.environment,
                continuation,
                host,
                fuel,
            );
            lemma_after(
                start,
                second,
                host,
                1 + operand.steps,
                disjunction(remaining.drop_first(), operand.environment, host, fuel),
                continuation,
            );
        }
    }
}

/// The machine evaluates a sequence as `succession` says.
pub proof fn lemma_succession(
    value: ExpressionView,
    remaining: Seq<ExpressionView>,
    environment: Map<Seq<char>, ExpressionView>,
    continuation: Seq<FrameView>,
    host: spec_fn(RequestView) -> Event,
    fuel: nat,
)
    ensures
        reaches(
            returning(value, environment, continuation.push(FrameView::Sequence { remaining })),
            host,
            succession(value, remaining, environment, host, fuel),
            continuation,
        ),
    decreases fuel, remaining.len() + 1,
{
    let start = returning(
        value,
        environment,
        continuation.push(FrameView::Sequence { remaining }),
    );
    lemma_return_step(value, environment, continuation, FrameView::Sequence { remaining }, host);
    if remaining.len() > 0 {
        let frame = FrameView::Sequence { remaining: remaining.drop_first() };
        let first = run_model(start, host, 1);
        let inner = evaluation(remaining[0], environment, host, fuel);
        lemma_evaluation(remaining[0], environment, continuation.push(frame), host, fuel);
        lemma_through(start, first, host, 1, inner, frame, continuation);
        if inner is Some && inner->0.result is Ok {
            let one = inner->0;
            let second = run_model(start, host, 1 + one.steps);
            lemma_succession(
                one.result->Ok_0,
                remaining.drop_first(),
                one.environment,
                continuation,
                host,
                fuel,
            );
            lemma_after(
                start,
                second,
                host,
                1 + one.steps,
                succession(
                    one.result->Ok_0,
                    remaining.drop_first(),
                    one.environment,
                    host,
                    fuel,
                ),
                continuation,
            );
        }
    }
}

/// The machine evaluates the arguments of an application and applies the
/// procedure as `operands` says.
pub proof fn lemma_operands(
    procedure: ExpressionView,
    evaluated: Seq<ExpressionView>,
    remaining: Seq<ExpressionView>,
    environment: Map<Seq<char>, ExpressionView>,
    continuation: Seq<FrameView>,
    host: spec_fn(RequestView) -> Event,
    fuel: nat,
)
    ensures
        reaches(
            operands_model(procedure, evaluated, remaining, environment, continuation),
            host,
            operands(procedure, evaluated, remaining, environment, host, fuel),
            continuation,
        ),
    decreases fuel, remaining.len() + 2,
{
    if remaining.len() == 0 {
        lemma_application(procedure, evaluated, environment, continuation, host, fuel);
    } else {
        let frame = FrameView::Operands {
            procedure,
            evaluated,
            remaining: remaining.drop_first(),
        };
        let start = evaluating(remaining[0], environment, continuation.push(frame));
        let inner = evaluation(remaining[0], environment, host, fuel);
        assert(run_model(start, host, 0) == start);
        lemma_evaluation(remaining[0], environment, continuation.push(frame), host, fuel);
        lemma_through(start, start, host, 0, inner, frame, continuation);
        if inner is Some {
            let argument = inner->0;
            if argument.result is Ok {
                let value = argument.result->Ok_0;
                let second = run_model(start, host, argument.steps + 1);
                lemma_operands(
                    procedure,
                    evaluated.push(value),
                    remaining.drop_first(),
                    argument.environment,
                    continuation,
                    host,
                    fuel,
                );
                lemma_after(
                    start,
                    second,
                    host,
                    argument.steps + 1,
                    operands(
                        procedure,
                        evaluated.push(value),
                        remaining.drop_first(),
                        argument.environment,
                        host,
                        fuel,
                    ),
                    continuation,
                );
            } else {
                assert(after(0, inner) == inner);
            }
        }
    }
}

/// The machine applies a procedure as `application` says.
pub proof fn lemma_application(
    procedure: ExpressionView,
    arguments: Seq<ExpressionView>,
    environment: Map<Seq<char>, ExpressionView>,
    continuation: Seq<FrameView>,
    host: spec_fn(RequestView) -> Event,
    fuel: nat,
)
    ensures
        reaches(
            apply_model(procedure, arguments, environment, continuation),
            host,
            application(procedure, arguments, environment, host, fuel),
            continuation,
        ),
    decreases fuel, 1nat,
{
    let start = apply_model(procedure, arguments, environment, continuation);
    assert(run_model(start, host, 0) == start);
    match procedure {
        ExpressionView::PrimitiveProcedure { procedure } => {
            lemma_primitive_application(procedure, arguments, environment, continuation, host);
        },
        ExpressionView::CompoundProcedure { parameters, body, environment: captured } => {
            if arguments.len() == parameters.len() {
                let frame = FrameView::Call { environment };
                let within = call_environment(environment, captured, parameters, arguments);
                let inner = evaluation(*body, within, host, fuel);
                lemma_evaluation(*body, within, continuation.push(frame), host, fuel);
                lemma_through(start, start, host, 0, inner, frame, continuation);
                if inner is Some && inner->0.result is Err {
                    assert(after(0, inner) == inner);
                }
            }
        },
        _ => {},
    }
}

/// The machine computes what a program comes to: where `program` says
/// what the expressions come to, the machine, started on them, is over after
/// the steps that it counts, with that result.
pub proof fn law_program(
    expressions: Seq<ExpressionView>,
    host: spec_fn(RequestView) -> Event,
    fuel: nat,
)
    requires
        program(expressions, host, fuel) is Some,
    ensures
        result_model(
            run_model(initial_model(expressions), host, program(expressions, host, fuel)->0.steps),
        ) == Some(program(expressions, host, fuel)->0.result),
{
    let environment = setup_primitive_procedures_model(Map::empty());
    let start = initial_model(expressions);
    let frames = Seq::<FrameView>::empty();
    assert(seq![FrameView::Sequence { remaining: expressions }] =~= frames.push(
        FrameView::Sequence { remaining: expressions },
    ));
    let inner = succession(ExpressionView::EmptyList, expressions, environment, host, fuel);
    lemma_succession(ExpressionView::EmptyList, expressions, environment, frames, host, fuel);
    let all = inner->0;
    let last = run_model(start, host, all.steps);
    lemma_next_step(start, last, host, all.steps);
    match all.result {
        Ok(value) => {},
        Err(error) => {
            law_result_is_final(last, host, 1);
            law_run_in_parts(start, host, all.steps, 1);
        },
    }
}

/// A program has one result: where `program` says what the expressions
/// come to, every run of the machine on them that comes to an end comes to
/// that, however many steps it is given.
pub proof fn law_machine_computes_program(
    expressions: Seq<ExpressionView>,
    host: spec_fn(RequestView) -> Event,
    fuel: nat,
    steps: nat,
)
    requires
        program(expressions, host, fuel) is Some,
        result_model(run_model(initial_model(expressions), host, steps)) is Some,
    ensures
        result_model(run_model(initial_model(expressions), host, steps)) == Some(
            program(expressions, host, fuel)->0.result,
        ),
{
    law_program(expressions, host, fuel);
    law_one_result(
        initial_model(expressions),
        host,
        steps,
        program(expressions, host, fuel)->0.steps,
    );
}

/// What a program comes to does not depend on the fuel, as long as it
/// suffices.
pub proof fn law_fuel_is_no_matter(
    expressions: Seq<ExpressionView>,
    host: spec_fn(RequestView) -> Event,
    fuel: nat,
    other: nat,
)
    requires
        program(expressions, host, fuel) is Some,
        program(expressions, host, other) is Some,
    ensures
        program(expressions, host, fuel)->0.result == program(expressions, host, other)->0.result,
{
    law_program(expressions, host, fuel);
    law_program(expressions, host, other);
    law_one_result(
        initial_model(expressions),
        host,
        program(expressions, host, fuel)->0.steps,
        program(expressions, host, other)->0.steps,
    );
}

/// What a name comes to in a call.
///
/// A compound procedure whose body is a name that is none of its
/// parameters, applied to as many arguments as it has parameters, comes to
/// the value that it captured for the name, whatever the caller has bound to
/// it since; where it captured none, to the value that the caller has for it;
/// and where neither has one, to the error of an identifier that is not
/// defined. The machine takes two steps to hand that value to the frames that
/// wait, in the caller's own environment.
pub proof fn law_name_in_a_call(
    parameters: Seq<Seq<char>>,
    name: Seq<char>,
    captured: Map<Seq<char>, ExpressionView>,
    arguments: Seq<ExpressionView>,
    caller: Map<Seq<char>, ExpressionView>,
    continuation: Seq<FrameView>,
    host: spec_fn(RequestView) -> Event,
    fuel: nat,
)
    requires
        parameters.len() == arguments.len(),
        !parameters.contains(name),
        fuel >= 1,
    ensures
        ({
            let procedure = ExpressionView::CompoundProcedure {
                parameters,
                body: Box::new(ExpressionView::Identifier { name }),
                environment: captured,
            };
            let outcome = application(procedure, arguments, caller, host, fuel);
            let start = apply_model(procedure, arguments, caller, continuation);
            &&& outcome is Some
            &&& outcome->0.result == (if captured.contains_key(name) {
                Ok::<ExpressionView, LisrEvaluationErrorView>(captured[name])
            } else if caller.contains_key(name) {
                Ok(caller[name])
            } else {
                Err(LisrEvaluationErrorView::UndefinedIdentifier)
            })
            &&& outcome->0.result is Ok ==> run_model(start, host, 2) == returning(
                outcome->0.result->Ok_0,
                caller,
                continuation,
            )
            &&& outcome->0.result is Err ==> result_model(run_model(start, host, 1)) == Some(
                outcome->0.result,
            )
        }),
{
    let procedure = ExpressionView::CompoundProcedure {
        parameters,
        body: Box::new(ExpressionView::Identifier { name }),
        environment: captured,
    };
    crate::run::law_scope_of_a_call(caller, captured, parameters, arguments, name);
    lemma_application(procedure, arguments, caller, continuation, host, fuel);
}

} // verus!
