//! Whatever the machine comes to, the semantics says so: a run that is
//! over was described, with as much fuel as it took steps.

use vstd::prelude::*;
use crate::evaluation_errors::LisrEvaluationErrorView;
use crate::expression::{ExpressionView, Primitive};
use crate::fuel::{
    lemma_conjunction_more, lemma_disjunction_more, lemma_evaluation_more, lemma_operands_more,
    lemma_succession_more,
};
use crate::host::{Event, Operator, RequestView};
use crate::run::{
    event_model, law_result_is_final, law_run_in_parts, result_model, run_model,
};
use crate::semantics::{
    answered, application, arithmetic, comparison, conjunction, disjunction, evaluation,
    law_machine_computes_program, lemma_evaluation, lemma_one_step, lemma_return_step,
    lemma_settled, lemma_through, operands, primitive_application, program, reaches, reduction,
    settled, succession, Evaluated,
};
use crate::token::NumberView;
use crate::transition::{
    apply_model, apply_primitive_model, awaiting, call_environment, evaluating, initial_model,
    operands_model, primitive_arithmetic_model, primitive_equals_model,
    primitive_less_than_model, primitive_remainder_model, resume_model, returning, settle_model,
    setup_primitive_procedures_model, step_model, EvaluationView, FrameView, OutcomeView,
};

verus! {

/// A request that the host does not answer stands for ever.
pub proof fn lemma_unanswered(
    request: RequestView,
    environment: Map<Seq<char>, ExpressionView>,
    continuation: Seq<FrameView>,
    host: spec_fn(RequestView) -> Event,
    steps: nat,
)
    requires
        answered(request, host) is None,
    ensures
        run_model(awaiting(request, environment, continuation), host, steps) == awaiting(
            request,
            environment,
            continuation,
        ),
    decreases steps,
{
    if steps > 0 {
        let state = awaiting(request, environment, continuation);
        assert(step_model(state, event_model(state, host)) == state);
        lemma_unanswered(request, environment, continuation, host, (steps - 1) as nat);
    }
}

/// A run that is over at one time was not over at a time when it was in a
/// state that is not: that time was before.
pub proof fn lemma_not_over_yet(
    start: EvaluationView,
    host: spec_fn(RequestView) -> Event,
    earlier: nat,
    total: nat,
)
    requires
        result_model(run_model(start, host, total)) is Some,
        result_model(run_model(start, host, earlier)) is None,
    ensures
        earlier < total,
{
    if earlier >= total {
        law_run_in_parts(start, host, total, (earlier - total) as nat);
        law_result_is_final(run_model(start, host, total), host, (earlier - total) as nat);
    }
}

/// From a state on its way, a run that is over is over in the steps that
/// remain.
pub proof fn lemma_rest_of_run(
    start: EvaluationView,
    middle: EvaluationView,
    host: spec_fn(RequestView) -> Event,
    before: nat,
    total: nat,
)
    requires
        run_model(start, host, before) == middle,
        result_model(run_model(start, host, total)) is Some,
    ensures
        before <= total ==> result_model(run_model(middle, host, (total - before) as nat))
            is Some,
        result_model(middle) is None ==> before < total,
{
    if result_model(middle) is None {
        lemma_not_over_yet(start, host, before, total);
    }
    if before <= total {
        law_run_in_parts(start, host, before, (total - before) as nat);
    }
}

/// Where an evaluation under a frame comes to a value within a run that
/// is over, the run goes on with what the frame makes of the value, and is
/// over in the steps that remain.
pub proof fn lemma_inner_ends(
    start: EvaluationView,
    first: EvaluationView,
    host: spec_fn(RequestView) -> Event,
    before: nat,
    total: nat,
    inner: Option<Evaluated>,
    frame: FrameView,
    continuation: Seq<FrameView>,
)
    requires
        run_model(start, host, before) == first,
        result_model(run_model(start, host, total)) is Some,
        inner is Some,
        inner->0.result is Ok,
        reaches(first, host, inner, continuation.push(frame)),
    ensures
        before + inner->0.steps + 1 <= total,
        run_model(start, host, before + inner->0.steps) == returning(
            inner->0.result->Ok_0,
            inner->0.environment,
            continuation.push(frame),
        ),
        run_model(start, host, before + inner->0.steps + 1) == resume_model(
            frame,
            inner->0.result->Ok_0,
            inner->0.environment,
            continuation,
        ),
        result_model(
            run_model(
                returning(
                    inner->0.result->Ok_0,
                    inner->0.environment,
                    continuation.push(frame),
                ),
                host,
                (total - before - inner->0.steps) as nat,
            ),
        ) is Some,
        result_model(
            run_model(
                resume_model(frame, inner->0.result->Ok_0, inner->0.environment, continuation),
                host,
                (total - before - inner->0.steps - 1) as nat,
            ),
        ) is Some,
{
    let evaluated = inner->0;
    lemma_through(start, first, host, before, inner, frame, continuation);
    let second = returning(
        evaluated.result->Ok_0,
        evaluated.environment,
        continuation.push(frame),
    );
    lemma_rest_of_run(start, second, host, before + evaluated.steps, total);
    let third = resume_model(
        frame,
        evaluated.result->Ok_0,
        evaluated.environment,
        continuation,
    );
    lemma_rest_of_run(start, third, host, before + evaluated.steps + 1, total);
}

/// Where the machine comes to an end from the outcome of a primitive
/// procedure, the host has answered what it asked.
pub proof fn lemma_settled_ends(
    outcome: OutcomeView,
    environment: Map<Seq<char>, ExpressionView>,
    continuation: Seq<FrameView>,
    host: spec_fn(RequestView) -> Event,
    steps: nat,
)
    requires
        result_model(
            run_model(settle_model(outcome, environment, continuation), host, steps),
        ) is Some,
    ensures
        settled(outcome, environment, host) is Some,
{
    match outcome {
        OutcomeView::Ask { request } => {
            if answered(request, host) is None {
                lemma_unanswered(request, environment, continuation, host, steps);
            }
        },
        _ => {},
    }
}

/// Where the machine comes to an end from a reduction, `reduction` says
/// what it comes to.
pub proof fn lemma_reduction_ends(
    operator: Operator,
    accumulated: ExpressionView,
    remaining: Seq<ExpressionView>,
    environment: Map<Seq<char>, ExpressionView>,
    continuation: Seq<FrameView>,
    host: spec_fn(RequestView) -> Event,
    steps: nat,
)
    requires
        result_model(
            run_model(
                returning(
                    accumulated,
                    environment,
                    continuation.push(FrameView::Reduce { operator, remaining }),
                ),
                host,
                steps,
            ),
        ) is Some,
    ensures
        reduction(operator, accumulated, remaining, environment, host) is Some,
    decreases remaining.len(),
{
    if remaining.len() > 0 {
        let frame = FrameView::Reduce { operator, remaining };
        let start = returning(accumulated, environment, continuation.push(frame));
        let outcome = primitive_arithmetic_model(operator, accumulated, remaining[0]);
        let inner = continuation.push(
            FrameView::Reduce { operator, remaining: remaining.drop_first() },
        );
        let first = settle_model(outcome, environment, inner);
        lemma_return_step(accumulated, environment, continuation, frame, host);
        assert(run_model(start, host, 0) == start);
        lemma_rest_of_run(start, start, host, 0, steps);
        lemma_rest_of_run(start, first, host, 1, steps);
        lemma_settled_ends(outcome, environment, inner, host, (steps - 1) as nat);
        let combined = settled(outcome, environment, host)->0;
        if combined.result is Ok {
            let next = returning(combined.result->Ok_0, environment, inner);
            lemma_settled(outcome, environment, inner, host);
            law_run_in_parts(start, host, 1, combined.steps);
            lemma_rest_of_run(start, next, host, 1 + combined.steps, steps);
            lemma_reduction_ends(
                operator,
                combined.result->Ok_0,
                remaining.drop_first(),
                environment,
                continuation,
                host,
                (steps - 1 - combined.steps) as nat,
            );
        }
    }
}

/// Where the machine comes to an end from a comparison, `comparison`
/// says what it comes to.
pub proof fn lemma_comparison_ends(
    value: ExpressionView,
    current: ExpressionView,
    remaining: Seq<ExpressionView>,
    environment: Map<Seq<char>, ExpressionView>,
    continuation: Seq<FrameView>,
    host: spec_fn(RequestView) -> Event,
    steps: nat,
)
    requires
        result_model(
            run_model(
                returning(
                    value,
                    environment,
                    continuation.push(FrameView::Equals { current, remaining }),
                ),
                host,
                steps,
            ),
        ) is Some,
    ensures
        comparison(value, current, remaining, environment, host) is Some,
    decreases remaining.len(),
{
    if !(value is False) && remaining.len() > 0 {
        let frame = FrameView::Equals { current, remaining };
        let start = returning(value, environment, continuation.push(frame));
        let outcome = primitive_equals_model(current, remaining[0]);
        let inner = continuation.push(
            FrameView::Equals { current: remaining[0], remaining: remaining.drop_first() },
        );
        let first = settle_model(outcome, environment, inner);
        lemma_return_step(value, environment, continuation, frame, host);
        assert(run_model(start, host, 0) == start);
        lemma_rest_of_run(start, start, host, 0, steps);
        lemma_rest_of_run(start, first, host, 1, steps);
        lemma_settled_ends(outcome, environment, inner, host, (steps - 1) as nat);
        let compared = settled(outcome, environment, host)->0;
        if compared.result is Ok {
            let next = returning(compared.result->Ok_0, environment, inner);
            lemma_settled(outcome, environment, inner, host);
            law_run_in_parts(start, host, 1, compared.steps);
            lemma_rest_of_run(start, next, host, 1 + compared.steps, steps);
            lemma_comparison_ends(
                compared.result->Ok_0,
                remaining[0],
                remaining.drop_first(),
                environment,
                continuation,
                host,
                (steps - 1 - compared.steps) as nat,
            );
        }
    }
}

/// Where the machine comes to an end from the application of a primitive
/// procedure, `primitive_application` says what it comes to.
pub proof fn lemma_primitive_application_ends(
    procedure: Primitive,
    arguments: Seq<ExpressionView>,
    environment: Map<Seq<char>, ExpressionView>,
    continuation: Seq<FrameView>,
    host: spec_fn(RequestView) -> Event,
    steps: nat,
)
    requires
        result_model(
            run_model(
                apply_primitive_model(procedure, arguments, environment, continuation),
                host,
                steps,
            ),
        ) is Some,
    ensures
        primitive_application(procedure, arguments, environment, host) is Some,
{
    match procedure {
        Primitive::Addition => lemma_arithmetic_ends(
            Operator::Add,
            arguments,
            environment,
            continuation,
            host,
            steps,
        ),
        Primitive::Subtraction => lemma_arithmetic_ends(
            Operator::Subtract,
            arguments,
            environment,
            continuation,
            host,
            steps,
        ),
        Primitive::Multiplication => lemma_arithmetic_ends(
            Operator::Multiply,
            arguments,
            environment,
            continuation,
            host,
            steps,
        ),
        Primitive::Division => lemma_arithmetic_ends(
            Operator::Divide,
            arguments,
            environment,
            continuation,
            host,
            steps,
        ),
        Primitive::Remainder => lemma_settled_ends(
            primitive_remainder_model(arguments),
            environment,
            continuation,
            host,
            steps,
        ),
        Primitive::Equals => {
            if arguments.len() > 0 {
                lemma_comparison_ends(
                    ExpressionView::True,
                    arguments[0],
                    arguments.drop_first(),
                    environment,
                    continuation,
                    host,
                    steps,
                );
            }
        },
        Primitive::LessThan => lemma_settled_ends(
            primitive_less_than_model(arguments),
            environment,
            continuation,
            host,
            steps,
        ),
        _ => {},
    }
}

/// Where the machine comes to an end from an arithmetic primitive,
/// `arithmetic` says what it comes to.
pub proof fn lemma_arithmetic_ends(
    operator: Operator,
    arguments: Seq<ExpressionView>,
    environment: Map<Seq<char>, ExpressionView>,
    continuation: Seq<FrameView>,
    host: spec_fn(RequestView) -> Event,
    steps: nat,
)
    requires
        result_model(
            run_model(
                crate::transition::arithmetic_model(
                    operator,
                    arguments,
                    environment,
                    continuation,
                ),
                host,
                steps,
            ),
        ) is Some,
    ensures
        arithmetic(operator, arguments, environment, host) is Some,
{
    if arguments.len() > 0 {
        lemma_reduction_ends(
            operator,
            arguments[0],
            arguments.drop_first(),
            environment,
            continuation,
            host,
            steps,
        );
    }
}

/// Where the machine comes to an end from an expression that is to be
/// evaluated, `evaluation` says what the expression comes to, with as much
/// fuel as the run took steps.
pub proof fn lemma_evaluation_ends(
    expression: ExpressionView,
    environment: Map<Seq<char>, ExpressionView>,
    continuation: Seq<FrameView>,
    host: spec_fn(RequestView) -> Event,
    steps: nat,
)
    requires
        result_model(
            run_model(evaluating(expression, environment, continuation), host, steps),
        ) is Some,
    ensures
        evaluation(expression, environment, host, steps) is Some,
    decreases steps, 0nat,
{
    let start = evaluating(expression, environment, continuation);
    assert(run_model(start, host, 0) == start);
    lemma_rest_of_run(start, start, host, 0, steps);
    let less = (steps - 1) as nat;
    lemma_one_step(start, host);
    let first = run_model(start, host, 1);
    lemma_rest_of_run(start, first, host, 1, steps);
    match expression {
        ExpressionView::Number { value: NumberView::Decimal { negative, digits } } => {
            let request = RequestView::Convert { negative, digits };
            if answered(request, host) is None {
                lemma_unanswered(request, environment, continuation, host, less);
            }
        },
        ExpressionView::Identifier { .. } => {},
        ExpressionView::Assignment { variable, value } => {
            if environment.contains_key(variable) {
                let frame = FrameView::Assignment { variable };
                lemma_evaluation_ends(*value, environment, continuation.push(frame), host, less);
            }
        },
        ExpressionView::Definition { variable, value } => {
            let frame = FrameView::Definition { variable };
            lemma_evaluation_ends(*value, environment, continuation.push(frame), host, less);
        },
        ExpressionView::Lambda { .. } => {},
        ExpressionView::If { predicate, consequent, alternative } => {
            let frame = FrameView::If { consequent: *consequent, alternative: *alternative };
            lemma_evaluation_ends(*predicate, environment, continuation.push(frame), host, less);
            let inner = evaluation(*predicate, environment, host, less);
            if inner->0.result is Ok {
                let decided = inner->0;
                lemma_evaluation(*predicate, environment, continuation.push(frame), host, less);
                lemma_inner_ends(start, first, host, 1, steps, inner, frame, continuation);
                let remain = (steps - 1 - decided.steps - 1) as nat;
                match decided.result->Ok_0 {
                    ExpressionView::True => {
                        lemma_evaluation_ends(
                            *consequent,
                            decided.environment,
                            continuation,
                            host,
                            remain,
                        );
                        lemma_evaluation_more(
                            *consequent,
                            decided.environment,
                            host,
                            remain,
                            less,
                        );
                    },
                    ExpressionView::False => {
                        lemma_evaluation_ends(
                            *alternative,
                            decided.environment,
                            continuation,
                            host,
                            remain,
                        );
                        lemma_evaluation_more(
                            *alternative,
                            decided.environment,
                            host,
                            remain,
                            less,
                        );
                    },
                    _ => {},
                }
            }
        },
        ExpressionView::And { operands } => {
            lemma_conjunction_ends(operands, environment, continuation, host, less);
        },
        ExpressionView::Or { operands } => {
            lemma_disjunction_ends(operands, environment, continuation, host, less);
        },
        ExpressionView::Begin { sequence } => {
            if sequence.len() > 0 {
                lemma_succession_ends(
                    ExpressionView::EmptyList,
                    sequence,
                    environment,
                    continuation,
                    host,
                    less,
                );
            }
        },
        ExpressionView::Cons { first: head, rest: tail } => {
            let frame = FrameView::ConsFirst { rest: *tail };
            lemma_evaluation_ends(*head, environment, continuation.push(frame), host, less);
            let inner = evaluation(*head, environment, host, less);
            if inner->0.result is Ok {
                let one = inner->0;
                lemma_evaluation(*head, environment, continuation.push(frame), host, less);
                lemma_inner_ends(start, first, host, 1, steps, inner, frame, continuation);
                let remain = (steps - 1 - one.steps - 1) as nat;
                let other = FrameView::ConsRest { first: one.result->Ok_0 };
                lemma_evaluation_ends(
                    *tail,
                    one.environment,
                    continuation.push(other),
                    host,
                    remain,
                );
                lemma_evaluation_more(*tail, one.environment, host, remain, less);
            }
        },
        ExpressionView::Application { procedure, arguments } => {
            let frame = FrameView::Operator { arguments };
            lemma_evaluation_ends(*procedure, environment, continuation.push(frame), host, less);
            let inner = evaluation(*procedure, environment, host, less);
            if inner->0.result is Ok {
                let operator = inner->0;
                lemma_evaluation(*procedure, environment, continuation.push(frame), host, less);
                lemma_inner_ends(start, first, host, 1, steps, inner, frame, continuation);
                let remain = (steps - 1 - operator.steps - 1) as nat;
                lemma_operands_ends(
                    operator.result->Ok_0,
                    Seq::empty(),
                    arguments,
                    operator.environment,
                    continuation,
                    host,
                    remain,
                );
                lemma_operands_more(
                    operator.result->Ok_0,
                    Seq::empty(),
                    arguments,
                    operator.environment,
                    host,
                    remain,
                    less,
                );
            }
        },
        _ => {},
    }
}

/// Where the machine comes to an end from the operands of an `and`,
/// `conjunction` says what they come to.
pub proof fn lemma_conjunction_ends(
    remaining: Seq<ExpressionView>,
    environment: Map<Seq<char>, ExpressionView>,
    continuation: Seq<FrameView>,
    host: spec_fn(RequestView) -> Event,
    steps: nat,
)
    requires
        result_model(
            run_model(
                returning(
                    ExpressionView::True,
                    environment,
                    continuation.push(FrameView::And { remaining }),
                ),
                host,
                steps,
            ),
        ) is Some,
    ensures
        conjunction(remaining, environment, host, steps) is Some,
    decreases steps, 0nat,
{
    if remaining.len() > 0 {
        let start = returning(
            ExpressionView::True,
            environment,
            continuation.push(FrameView::And { remaining }),
        );
        let frame = FrameView::And { remaining: remaining.drop_first() };
        assert(run_model(start, host, 0) == start);
        lemma_rest_of_run(start, start, host, 0, steps);
        let less = (steps - 1) as nat;
        lemma_return_step(
            ExpressionView::True,
            environment,
            continuation,
            FrameView::And { remaining },
            host,
        );
        let first = run_model(start, host, 1);
        lemma_rest_of_run(start, first, host, 1, steps);
        lemma_evaluation_ends(remaining[0], environment, continuation.push(frame), host, less);
        lemma_evaluation_more(remaining[0], environment, host, less, steps);
        let inner = evaluation(remaining[0], environment, host, less);
        if inner->0.result == Ok::<ExpressionView, LisrEvaluationErrorView>(
            ExpressionView::True,
        ) {
            let operand = inner->0;
            lemma_evaluation(remaining[0], environment, continuation.push(frame), host, less);
            lemma_inner_ends(start, first, host, 1, steps, inner, frame, continuation);
            let remain = (steps - 1 - operand.steps) as nat;
            lemma_conjunction_ends(
                remaining.drop_first(),
                operand.environment,
                continuation,
                host,
                remain,
            );
            lemma_conjunction_more(
                remaining.drop_first(),
                operand.environment,
                host,
                remain,
                steps,
            );
        }
    }
}

/// Where the machine comes to an end from the operands of an `or`,
/// `disjunction` says what they come to.
pub proof fn lemma_disjunction_ends(
    remaining: Seq<ExpressionView>,
    environment: Map<Seq<char>, ExpressionView>,
    continuation: Seq<FrameView>,
    host: spec_fn(RequestView) -> Event,
    steps: nat,
)
    requires
        result_model(
            run_model(
                returning(
                    ExpressionView::False,
                    environment,
                    continuation.push(FrameView::Or { remaining }),
                ),
                host,
                steps,
            ),
        ) is Some,
    ensures
        disjunction(remaining, environment, host, steps) is Some,
    decreases steps, 0nat,
{
    if remaining.len() > 0 {
        let start = returning(
            ExpressionView::False,
            environment,
            continuation.push(FrameView::Or { remaining }),
        );
        let frame = FrameView::Or { remaining: remaining.drop_first() };
        assert(run_model(start, host, 0) == start);
        lemma_rest_of_run(start, start, host, 0, steps);
        let less = (steps - 1) as nat;
        lemma_return_step(
            ExpressionView::False,
            environment,
            continuation,
            FrameView::Or { remaining },
            host,
        );
        let first = run_model(start, host, 1);
        lemma_rest_of_run(start, first, host, 1, steps);
        lemma_evaluation_ends(remaining[0], environment, continuation.push(frame), host, less);
        lemma_evaluation_more(remaining[0], environment, host, less, steps);
        let inner = evaluation(remaining[0], environment, host, less);
        if inner->0.result == Ok::<ExpressionView, LisrEvaluationErrorView>(
            ExpressionView::False,
        ) {
            let operand = inner->0;
            lemma_evaluation(remaining[0], environment, continuation.push(frame), host, less);
            lemma_inner_ends(start, first, host, 1, steps, inner, frame, continuation);
            let remain = (steps - 1 - operand.steps) as nat;
            lemma_disjunction_ends(
                remaining.drop_first(),
                operand.environment,
                continuation,
                host,
                remain,
            );
            lemma_disjunction_more(
                remaining.drop_first(),
                operand.environment,
                host,
                remain,
                steps,
            );
        }
    }
}

/// Where the machine comes to an end from a sequence, `succession` says
/// what it comes to.
pub proof fn lemma_succession_ends(
    value: ExpressionView,
    remaining: Seq<ExpressionView>,
    environment: Map<Seq<char>, ExpressionView>,
    continuation: Seq<FrameView>,
    host: spec_fn(RequestView) -> Event,
    steps: nat,
)
    requires
        result_model(
            run_model(
                returning(
                    value,
                    environment,
                    continuation.push(FrameView::Sequence { remaining }),
                ),
                host,
                steps,
            ),
        ) is Some,
    ensures
        succession(value, remaining, environment, host, steps) is Some,
    decreases steps, 0nat,
{
    if remaining.len() > 0 {
        let start = returning(
            value,
            environment,
            continuation.push(FrameView::Sequence { remaining }),
        );
        let frame = FrameView::Sequence { remaining: remaining.drop_first() };
        assert(run_model(start, host, 0) == start);
        lemma_rest_of_run(start, start, host, 0, steps);
        let less = (steps - 1) as nat;
        lemma_return_step(
            value,
            environment,
            continuation,
            FrameView::Sequence { remaining },
            host,
        );
        let first = run_model(start, host, 1);
        lemma_rest_of_run(start, first, host, 1, steps);
        lemma_evaluation_ends(remaining[0], environment, continuation.push(frame), host, less);
        lemma_evaluation_more(remaining[0], environment, host, less, steps);
        let inner = evaluation(remaining[0], environment, host, less);
        if inner->0.result is Ok {
            let one = inner->0;
            lemma_evaluation(remaining[0], environment, continuation.push(frame), host, less);
            lemma_inner_ends(start, first, host, 1, steps, inner, frame, continuation);
            let remain = (steps - 1 - one.steps) as nat;
            lemma_succession_ends(
                one.result->Ok_0,
                remaining.drop_first(),
                one.environment,
                continuation,
                host,
                remain,
            );
            lemma_succession_more(
                one.result->Ok_0,
                remaining.drop_first(),
                one.environment,
                host,
                remain,
                steps,
            );
        }
    }
}

/// Where the machine comes to an end from the arguments of an
/// application, `operands` says what they and the application come to.
pub proof fn lemma_operands_ends(
    procedure: ExpressionView,
    evaluated: Seq<ExpressionView>,
    remaining: Seq<ExpressionView>,
    environment: Map<Seq<char>, ExpressionView>,
    continuation: Seq<FrameView>,
    host: spec_fn(RequestView) -> Event,
    steps: nat,
)
    requires
        result_model(
            run_model(
                operands_model(procedure, evaluated, remaining, environment, continuation),
                host,
                steps,
            ),
        ) is Some,
    ensures
        operands(procedure, evaluated, remaining, environment, host, steps) is Some,
    decreases steps, 2nat,
{
    if remaining.len() == 0 {
        lemma_application_ends(procedure, evaluated, environment, continuation, host, steps);
    } else {
        let frame = FrameView::Operands {
            procedure,
            evaluated,
            remaining: remaining.drop_first(),
        };
        let start = evaluating(remaining[0], environment, continuation.push(frame));
        assert(run_model(start, host, 0) == start);
        lemma_evaluation_ends(remaining[0], environment, continuation.push(frame), host, steps);
        let inner = evaluation(remaining[0], environment, host, steps);
        if inner->0.result is Ok {
            let argument = inner->0;
            lemma_evaluation(remaining[0], environment, continuation.push(frame), host, steps);
            lemma_inner_ends(start, start, host, 0, steps, inner, frame, continuation);
            let remain = (steps - argument.steps - 1) as nat;
            lemma_operands_ends(
                procedure,
                evaluated.push(argument.result->Ok_0),
                remaining.drop_first(),
                argument.environment,
                continuation,
                host,
                remain,
            );
            lemma_operands_more(
                procedure,
                evaluated.push(argument.result->Ok_0),
                remaining.drop_first(),
                argument.environment,
                host,
                remain,
                steps,
            );
        }
    }
}

/// Where the machine comes to an end from an application, `application`
/// says what it comes to.
pub proof fn lemma_application_ends(
    procedure: ExpressionView,
    arguments: Seq<ExpressionView>,
    environment: Map<Seq<char>, ExpressionView>,
    continuation: Seq<FrameView>,
    host: spec_fn(RequestView) -> Event,
    steps: nat,
)
    requires
        result_model(
            run_model(apply_model(procedure, arguments, environment, continuation), host, steps),
        ) is Some,
    ensures
        application(procedure, arguments, environment, host, steps) is Some,
    decreases steps, 1nat,
{
    match procedure {
        ExpressionView::PrimitiveProcedure { procedure } => {
            lemma_primitive_application_ends(
                procedure,
                arguments,
                environment,
                continuation,
                host,
                steps,
            );
        },
        ExpressionView::CompoundProcedure { parameters, body, environment: captured } => {
            if arguments.len() == parameters.len() {
                lemma_evaluation_ends(
                    *body,
                    call_environment(environment, captured, parameters, arguments),
                    continuation.push(FrameView::Call { environment }),
                    host,
                    steps,
                );
            }
        },
        _ => {},
    }
}

/// The machine and the semantics agree: a run of a program that is over
/// after `steps` steps has come to what `program` says, with that much fuel.
/// So `program` says of every program what the machine computes, and says
/// no more: a program of which it says nothing, whatever the fuel, is one on
/// which the machine does not come to an end.
pub proof fn law_machine_and_semantics_agree(
    expressions: Seq<ExpressionView>,
    host: spec_fn(RequestView) -> Event,
    steps: nat,
)
    requires
        result_model(run_model(initial_model(expressions), host, steps)) is Some,
    ensures
        program(expressions, host, steps) is Some,
        result_model(run_model(initial_model(expressions), host, steps)) == Some(
            program(expressions, host, steps)->0.result,
        ),
{
    let frames = Seq::<FrameView>::empty();
    assert(seq![FrameView::Sequence { remaining: expressions }] =~= frames.push(
        FrameView::Sequence { remaining: expressions },
    ));
    lemma_succession_ends(
        ExpressionView::EmptyList,
        expressions,
        setup_primitive_procedures_model(Map::empty()),
        frames,
        host,
        steps,
    );
    law_machine_computes_program(expressions, host, steps, steps);
}

} // verus!
