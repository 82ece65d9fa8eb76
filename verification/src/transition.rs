//! The transitions of the machine, as mathematics.
//!
//! A state holds what the machine is working on (its control), the current
//! environment and a stack of frames, each of which says what to do with the
//! next value. [`step_model`] says which state follows a state.

use vstd::prelude::*;
use crate::evaluation_errors::LisrEvaluationErrorView;
use crate::expression::{ExpressionView, Primitive};
use crate::host::{ActionView, Event, Operator, Relation, RequestView};
use crate::text::text_precedes;
use crate::token::NumberView;

verus! {

/// The mathematical model of a [`Frame`].
pub enum FrameView {
    Sequence { remaining: Seq<ExpressionView> },
    Assignment { variable: Seq<char> },
    Definition { variable: Seq<char> },
    If { consequent: ExpressionView, alternative: ExpressionView },
    And { remaining: Seq<ExpressionView> },
    Or { remaining: Seq<ExpressionView> },
    ConsFirst { rest: ExpressionView },
    ConsRest { first: ExpressionView },
    Operator { arguments: Seq<ExpressionView> },
    Operands {
        procedure: ExpressionView,
        evaluated: Seq<ExpressionView>,
        remaining: Seq<ExpressionView>,
    },
    Call { environment: Map<Seq<char>, ExpressionView> },
    Reduce { operator: Operator, remaining: Seq<ExpressionView> },
    Equals { current: ExpressionView, remaining: Seq<ExpressionView> },
}

/// The mathematical model of a [`Control`].
pub enum ControlView {
    Evaluate { expression: ExpressionView },
    Return { value: ExpressionView },
    Await { request: RequestView },
    Finished { result: Result<ExpressionView, LisrEvaluationErrorView> },
}

/// The mathematical model of an [`Evaluation`].
pub struct EvaluationView {
    pub control: ControlView,
    pub environment: Map<Seq<char>, ExpressionView>,
    pub continuation: Seq<FrameView>,
}

/// The runtime error with the given reason.
pub open spec fn runtime_error(reason: Seq<char>) -> LisrEvaluationErrorView {
    LisrEvaluationErrorView::RuntimeError { reason }
}

/// The boolean value that stands for `holds`.
pub open spec fn truth(holds: bool) -> ExpressionView {
    if holds {
        ExpressionView::True
    } else {
        ExpressionView::False
    }
}

/// The state in which `expression` is to be evaluated.
pub open spec fn evaluating(
    expression: ExpressionView,
    environment: Map<Seq<char>, ExpressionView>,
    continuation: Seq<FrameView>,
) -> EvaluationView {
    EvaluationView { control: ControlView::Evaluate { expression }, environment, continuation }
}

/// The state in which `value` is handed to the innermost frame.
pub open spec fn returning(
    value: ExpressionView,
    environment: Map<Seq<char>, ExpressionView>,
    continuation: Seq<FrameView>,
) -> EvaluationView {
    EvaluationView { control: ControlView::Return { value }, environment, continuation }
}

/// The state in which the host is asked for `request`.
pub open spec fn awaiting(
    request: RequestView,
    environment: Map<Seq<char>, ExpressionView>,
    continuation: Seq<FrameView>,
) -> EvaluationView {
    EvaluationView { control: ControlView::Await { request }, environment, continuation }
}

/// The state in which evaluation has failed with `error`.
pub open spec fn failing(
    error: LisrEvaluationErrorView,
    environment: Map<Seq<char>, ExpressionView>,
    continuation: Seq<FrameView>,
) -> EvaluationView {
    EvaluationView {
        control: ControlView::Finished { result: Err(error) },
        environment,
        continuation,
    }
}

/// The mathematical model of an [`Outcome`].
pub enum OutcomeView {
    Value { value: ExpressionView },
    Error { error: LisrEvaluationErrorView },
    Ask { request: RequestView },
}

/// The state that follows from the outcome of a primitive procedure.
pub open spec fn settle_model(
    outcome: OutcomeView,
    environment: Map<Seq<char>, ExpressionView>,
    continuation: Seq<FrameView>,
) -> EvaluationView {
    match outcome {
        OutcomeView::Value { value } => returning(value, environment, continuation),
        OutcomeView::Error { error } => failing(error, environment, continuation),
        OutcomeView::Ask { request } => awaiting(request, environment, continuation),
    }
}

/// `car`: the first part of the one pair given.
pub open spec fn primitive_car_model(arguments: Seq<ExpressionView>) -> Result<
    ExpressionView,
    LisrEvaluationErrorView,
> {
    if arguments.len() > 1 {
        Err(runtime_error("'car' function requires one 'cons' argument"@))
    } else if arguments.len() == 1 && arguments[0] is Cons {
        Ok(*arguments[0]->first)
    } else {
        Err(runtime_error("'car' requires one 'cons' argument"@))
    }
}

/// `cdr`: the second part of the one pair given.
pub open spec fn primitive_cdr_model(arguments: Seq<ExpressionView>) -> Result<
    ExpressionView,
    LisrEvaluationErrorView,
> {
    if arguments.len() > 1 {
        Err(runtime_error("'cdr' function requires one 'cons' argument"@))
    } else if arguments.len() == 1 && arguments[0] is Cons {
        Ok(*arguments[0]->rest)
    } else {
        Err(runtime_error("'cdr' requires one 'cons' argument"@))
    }
}

/// `empty-list?`: whether the one argument given is the empty list.
pub open spec fn primitive_is_empty_list_model(arguments: Seq<ExpressionView>) -> Result<
    ExpressionView,
    LisrEvaluationErrorView,
> {
    if arguments.len() != 1 {
        Err(runtime_error("'empty-list?' function requires exactly one argument"@))
    } else {
        Ok(truth(arguments[0] is EmptyList))
    }
}

/// `remainder`: of exactly two numbers.
pub open spec fn primitive_remainder_model(arguments: Seq<ExpressionView>) -> OutcomeView {
    if arguments.len() != 2 {
        OutcomeView::Error {
            error: runtime_error("Remainder requires two arguments - a dividend and a divisor"@),
        }
    } else {
        match (arguments[0], arguments[1]) {
            (
                ExpressionView::Number { value: dividend },
                ExpressionView::Number { value: divisor },
            ) => OutcomeView::Ask {
                request: RequestView::Arithmetic {
                    operator: Operator::Remainder,
                    left: dividend,
                    right: divisor,
                },
            },
            _ => OutcomeView::Error { error: LisrEvaluationErrorView::TypeError },
        }
    }
}

/// `<`: between exactly two numbers, or two strings.
pub open spec fn primitive_less_than_model(arguments: Seq<ExpressionView>) -> OutcomeView {
    if arguments.len() != 2 {
        OutcomeView::Error {
            error: runtime_error("'Less than' function requires two arguments"@),
        }
    } else {
        match (arguments[0], arguments[1]) {
            (ExpressionView::Number { value: left }, ExpressionView::Number { value: right }) => {
                OutcomeView::Ask {
                    request: RequestView::Compare { relation: Relation::Less, left, right },
                }
            },
            (ExpressionView::String { value: left }, ExpressionView::String { value: right }) => {
                OutcomeView::Value { value: truth(text_precedes(left, right)) }
            },
            _ => OutcomeView::Error { error: LisrEvaluationErrorView::TypeError },
        }
    }
}

/// One step of `=`: whether two neighbouring arguments are equal.
pub open spec fn primitive_equals_model(current: ExpressionView, next: ExpressionView) -> OutcomeView {
    match (current, next) {
        (ExpressionView::Number { value: left }, ExpressionView::Number { value: right }) => {
            OutcomeView::Ask {
                request: RequestView::Compare { relation: Relation::Equal, left, right },
            }
        },
        (ExpressionView::String { value: left }, ExpressionView::String { value: right }) => {
            OutcomeView::Value { value: truth(left == right) }
        },
        _ => OutcomeView::Error {
            error: runtime_error("Equals is only implemented for pairs of strings or numbers"@),
        },
    }
}

/// One step of `+`, `-`, `*` or `/`: two numbers are combined by the
/// operator; two strings are joined by `+`.
pub open spec fn primitive_arithmetic_model(
    operator: Operator,
    accumulated: ExpressionView,
    next: ExpressionView,
) -> OutcomeView {
    match (accumulated, next) {
        (ExpressionView::Number { value: left }, ExpressionView::Number { value: right }) => {
            OutcomeView::Ask { request: RequestView::Arithmetic { operator, left, right } }
        },
        (ExpressionView::String { value: left }, ExpressionView::String { value: right }) => {
            if operator == Operator::Add {
                OutcomeView::Value { value: ExpressionView::String { value: left + right } }
            } else {
                OutcomeView::Error { error: LisrEvaluationErrorView::TypeError }
            }
        },
        _ => OutcomeView::Error { error: LisrEvaluationErrorView::TypeError },
    }
}

/// The state after the arguments accumulated so far have come to
/// `accumulated`, with `remaining` still to be combined.
pub open spec fn reduce_model(
    operator: Operator,
    accumulated: ExpressionView,
    remaining: Seq<ExpressionView>,
    environment: Map<Seq<char>, ExpressionView>,
    continuation: Seq<FrameView>,
) -> EvaluationView {
    if remaining.len() == 0 {
        returning(accumulated, environment, continuation)
    } else {
        settle_model(
            primitive_arithmetic_model(operator, accumulated, remaining[0]),
            environment,
            continuation.push(FrameView::Reduce { operator, remaining: remaining.drop_first() }),
        )
    }
}

/// The state after the last comparison of `=` has come to `value`, with
/// `current` the argument compared last and `remaining` those after it.
pub open spec fn equals_model(
    value: ExpressionView,
    current: ExpressionView,
    remaining: Seq<ExpressionView>,
    environment: Map<Seq<char>, ExpressionView>,
    continuation: Seq<FrameView>,
) -> EvaluationView {
    if value is False {
        returning(ExpressionView::False, environment, continuation)
    } else if remaining.len() == 0 {
        returning(ExpressionView::True, environment, continuation)
    } else {
        settle_model(
            primitive_equals_model(current, remaining[0]),
            environment,
            continuation.push(
                FrameView::Equals { current: remaining[0], remaining: remaining.drop_first() },
            ),
        )
    }
}

/// The state in which the arithmetic primitive of `operator` starts on
/// its arguments.
pub open spec fn arithmetic_model(
    operator: Operator,
    arguments: Seq<ExpressionView>,
    environment: Map<Seq<char>, ExpressionView>,
    continuation: Seq<FrameView>,
) -> EvaluationView {
    if arguments.len() == 0 {
        failing(
            runtime_error("An arithmetic function cannot be invoked without any arguments"@),
            environment,
            continuation,
        )
    } else {
        returning(
            arguments[0],
            environment,
            continuation.push(FrameView::Reduce { operator, remaining: arguments.drop_first() }),
        )
    }
}

/// The state that follows from a result.
pub open spec fn conclude_model(
    result: Result<ExpressionView, LisrEvaluationErrorView>,
    environment: Map<Seq<char>, ExpressionView>,
    continuation: Seq<FrameView>,
) -> EvaluationView {
    match result {
        Ok(value) => returning(value, environment, continuation),
        Err(error) => failing(error, environment, continuation),
    }
}

/// The state in which a primitive procedure has been applied to its
/// arguments.
pub open spec fn apply_primitive_model(
    procedure: Primitive,
    arguments: Seq<ExpressionView>,
    environment: Map<Seq<char>, ExpressionView>,
    continuation: Seq<FrameView>,
) -> EvaluationView {
    match procedure {
        Primitive::Addition => arithmetic_model(Operator::Add, arguments, environment, continuation),
        Primitive::Subtraction => arithmetic_model(
            Operator::Subtract,
            arguments,
            environment,
            continuation,
        ),
        Primitive::Multiplication => arithmetic_model(
            Operator::Multiply,
            arguments,
            environment,
            continuation,
        ),
        Primitive::Division => arithmetic_model(
            Operator::Divide,
            arguments,
            environment,
            continuation,
        ),
        Primitive::Remainder => settle_model(
            primitive_remainder_model(arguments),
            environment,
            continuation,
        ),
        Primitive::Equals => if arguments.len() == 0 {
            failing(
                runtime_error("Equals cannot be invoked without any arguments"@),
                environment,
                continuation,
            )
        } else {
            returning(
                ExpressionView::True,
                environment,
                continuation.push(
                    FrameView::Equals { current: arguments[0], remaining: arguments.drop_first() },
                ),
            )
        },
        Primitive::LessThan => settle_model(
            primitive_less_than_model(arguments),
            environment,
            continuation,
        ),
        Primitive::Car => conclude_model(primitive_car_model(arguments), environment, continuation),
        Primitive::Cdr => conclude_model(primitive_cdr_model(arguments), environment, continuation),
        Primitive::IsEmptyList => conclude_model(
            primitive_is_empty_list_model(arguments),
            environment,
            continuation,
        ),
    }
}

/// The environment with each parameter bound to the argument at its
/// place. Where a name occurs twice among the parameters, the later
/// binding counts.
pub open spec fn bind_parameters(
    environment: Map<Seq<char>, ExpressionView>,
    parameters: Seq<Seq<char>>,
    arguments: Seq<ExpressionView>,
) -> Map<Seq<char>, ExpressionView>
    recommends
        parameters.len() == arguments.len(),
    decreases parameters.len(),
{
    if parameters.len() == 0 || arguments.len() == 0 {
        environment
    } else {
        bind_parameters(environment, parameters.drop_last(), arguments.drop_last()).insert(
            parameters.last(),
            arguments.last(),
        )
    }
}

/// The environment in which the body of a compound procedure runs: the
/// caller's bindings, overlaid by those that the procedure captured,
/// overlaid by its parameters.
pub open spec fn call_environment(
    caller: Map<Seq<char>, ExpressionView>,
    captured: Map<Seq<char>, ExpressionView>,
    parameters: Seq<Seq<char>>,
    arguments: Seq<ExpressionView>,
) -> Map<Seq<char>, ExpressionView> {
    bind_parameters(caller.union_prefer_right(captured), parameters, arguments)
}

/// The state in which a compound procedure has been applied to its
/// arguments.
pub open spec fn apply_compound_procedure_model(
    arguments: Seq<ExpressionView>,
    parameters: Seq<Seq<char>>,
    body: ExpressionView,
    captured: Map<Seq<char>, ExpressionView>,
    environment: Map<Seq<char>, ExpressionView>,
    continuation: Seq<FrameView>,
) -> EvaluationView {
    if arguments.len() != parameters.len() {
        failing(
            runtime_error("Function called with a wrong number of arguments"@),
            environment,
            continuation,
        )
    } else {
        evaluating(
            body,
            call_environment(environment, captured, parameters, arguments),
            continuation.push(FrameView::Call { environment }),
        )
    }
}

/// The state in which `procedure` has been applied to `arguments`.
pub open spec fn apply_model(
    procedure: ExpressionView,
    arguments: Seq<ExpressionView>,
    environment: Map<Seq<char>, ExpressionView>,
    continuation: Seq<FrameView>,
) -> EvaluationView {
    match procedure {
        ExpressionView::PrimitiveProcedure { procedure } => apply_primitive_model(
            procedure,
            arguments,
            environment,
            continuation,
        ),
        ExpressionView::CompoundProcedure { parameters, body, environment: captured } => {
            apply_compound_procedure_model(
                arguments,
                parameters,
                *body,
                captured,
                environment,
                continuation,
            )
        },
        _ => failing(runtime_error("Object cannot be invoked"@), environment, continuation),
    }
}

/// The state in which the arguments of an application are evaluated one
/// after the other, and the procedure is applied once none remains.
pub open spec fn operands_model(
    procedure: ExpressionView,
    evaluated: Seq<ExpressionView>,
    remaining: Seq<ExpressionView>,
    environment: Map<Seq<char>, ExpressionView>,
    continuation: Seq<FrameView>,
) -> EvaluationView {
    if remaining.len() == 0 {
        apply_model(procedure, evaluated, environment, continuation)
    } else {
        evaluating(
            remaining[0],
            environment,
            continuation.push(
                FrameView::Operands { procedure, evaluated, remaining: remaining.drop_first() },
            ),
        )
    }
}

/// One step on an expression that is to be evaluated.
pub open spec fn evaluate_expression_model(
    expression: ExpressionView,
    environment: Map<Seq<char>, ExpressionView>,
    continuation: Seq<FrameView>,
) -> EvaluationView {
    match expression {
        ExpressionView::Number { value: NumberView::Decimal { negative, digits } } => awaiting(
            RequestView::Convert { negative, digits },
            environment,
            continuation,
        ),
        ExpressionView::Identifier { name } => if environment.contains_key(name) {
            returning(environment[name], environment, continuation)
        } else {
            failing(LisrEvaluationErrorView::UndefinedIdentifier, environment, continuation)
        },
        ExpressionView::Assignment { variable, value } => if environment.contains_key(variable) {
            evaluating(*value, environment, continuation.push(FrameView::Assignment { variable }))
        } else {
            failing(LisrEvaluationErrorView::UndefinedIdentifier, environment, continuation)
        },
        ExpressionView::Definition { variable, value } => evaluating(
            *value,
            environment,
            continuation.push(FrameView::Definition { variable }),
        ),
        ExpressionView::Lambda { parameters, body } => returning(
            ExpressionView::CompoundProcedure { parameters, body, environment },
            environment,
            continuation,
        ),
        ExpressionView::If { predicate, consequent, alternative } => evaluating(
            *predicate,
            environment,
            continuation.push(
                FrameView::If { consequent: *consequent, alternative: *alternative },
            ),
        ),
        ExpressionView::And { operands } => returning(
            ExpressionView::True,
            environment,
            continuation.push(FrameView::And { remaining: operands }),
        ),
        ExpressionView::Or { operands } => returning(
            ExpressionView::False,
            environment,
            continuation.push(FrameView::Or { remaining: operands }),
        ),
        ExpressionView::Begin { sequence } => if sequence.len() == 0 {
            failing(
                runtime_error("A sequence of expressions in a begin statement cannot be empty"@),
                environment,
                continuation,
            )
        } else {
            returning(
                ExpressionView::EmptyList,
                environment,
                continuation.push(FrameView::Sequence { remaining: sequence }),
            )
        },
        ExpressionView::Cons { first, rest } => evaluating(
            *first,
            environment,
            continuation.push(FrameView::ConsFirst { rest: *rest }),
        ),
        ExpressionView::Application { procedure, arguments } => evaluating(
            *procedure,
            environment,
            continuation.push(FrameView::Operator { arguments }),
        ),
        _ => returning(expression, environment, continuation),
    }
}

/// One step on a value that the frame `frame` receives, with
/// `continuation` the frames under it.
pub open spec fn resume_model(
    frame: FrameView,
    value: ExpressionView,
    environment: Map<Seq<char>, ExpressionView>,
    continuation: Seq<FrameView>,
) -> EvaluationView {
    match frame {
        FrameView::Sequence { remaining } => if remaining.len() == 0 {
            returning(value, environment, continuation)
        } else {
            evaluating(
                remaining[0],
                environment,
                continuation.push(FrameView::Sequence { remaining: remaining.drop_first() }),
            )
        },
        FrameView::Assignment { variable } => returning(
            value,
            environment.insert(variable, value),
            continuation,
        ),
        FrameView::Definition { variable } => returning(
            ExpressionView::Identifier { name: variable },
            environment.insert(variable, value),
            continuation,
        ),
        FrameView::If { consequent, alternative } => match value {
            ExpressionView::True => evaluating(consequent, environment, continuation),
            ExpressionView::False => evaluating(alternative, environment, continuation),
            _ => failing(
                runtime_error(
                    "Predicate of an if expression did not evaluate to a boolean value"@,
                ),
                environment,
                continuation,
            ),
        },
        FrameView::And { remaining } => match value {
            ExpressionView::True => if remaining.len() == 0 {
                returning(ExpressionView::True, environment, continuation)
            } else {
                evaluating(
                    remaining[0],
                    environment,
                    continuation.push(FrameView::And { remaining: remaining.drop_first() }),
                )
            },
            ExpressionView::False => returning(ExpressionView::False, environment, continuation),
            _ => failing(
                runtime_error("Operand of an and expression did not evaluate to a boolean value"@),
                environment,
                continuation,
            ),
        },
        FrameView::Or { remaining } => match value {
            ExpressionView::False => if remaining.len() == 0 {
                returning(ExpressionView::False, environment, continuation)
            } else {
                evaluating(
                    remaining[0],
                    environment,
                    continuation.push(FrameView::Or { remaining: remaining.drop_first() }),
                )
            },
            ExpressionView::True => returning(ExpressionView::True, environment, continuation),
            _ => failing(
                runtime_error("Operand of an or expression did not evaluate to a boolean value"@),
                environment,
                continuation,
            ),
        },
        FrameView::ConsFirst { rest } => evaluating(
            rest,
            environment,
            continuation.push(FrameView::ConsRest { first: value }),
        ),
        FrameView::ConsRest { first } => returning(
            ExpressionView::Cons { first: Box::new(first), rest: Box::new(value) },
            environment,
            continuation,
        ),
        FrameView::Operator { arguments } => operands_model(
            value,
            Seq::empty(),
            arguments,
            environment,
            continuation,
        ),
        FrameView::Operands { procedure, evaluated, remaining } => operands_model(
            procedure,
            evaluated.push(value),
            remaining,
            environment,
            continuation,
        ),
        FrameView::Call { environment: caller } => returning(value, caller, continuation),
        FrameView::Reduce { operator, remaining } => reduce_model(
            operator,
            value,
            remaining,
            environment,
            continuation,
        ),
        FrameView::Equals { current, remaining } => equals_model(
            value,
            current,
            remaining,
            environment,
            continuation,
        ),
    }
}

/// The value that an answer of the host stands for, where it answers the
/// request.
pub open spec fn answer_model(request: RequestView, event: Event) -> Option<ExpressionView> {
    match (request, event) {
        (RequestView::Convert { .. }, Event::Number { bits }) => Some(
            ExpressionView::Number { value: NumberView::Binary { bits } },
        ),
        (RequestView::Arithmetic { .. }, Event::Number { bits }) => Some(
            ExpressionView::Number { value: NumberView::Binary { bits } },
        ),
        (RequestView::Compare { .. }, Event::Truth { holds }) => Some(truth(holds)),
        _ => None,
    }
}

/// The transition of the machine: the state after one step from `state`,
/// on the event `event`.
///
/// An expression under evaluation makes its own step. A value goes to the
/// innermost frame, and is the result where there is none. A request stands
/// until an event answers it. Once over, evaluation stays as it is.
pub open spec fn step_model(state: EvaluationView, event: Event) -> EvaluationView {
    match state.control {
        ControlView::Evaluate { expression } => evaluate_expression_model(
            expression,
            state.environment,
            state.continuation,
        ),
        ControlView::Return { value } => if state.continuation.len() == 0 {
            EvaluationView { control: ControlView::Finished { result: Ok(value) }, ..state }
        } else {
            resume_model(
                state.continuation.last(),
                value,
                state.environment,
                state.continuation.drop_last(),
            )
        },
        ControlView::Await { request } => match answer_model(request, event) {
            Some(value) => returning(value, state.environment, state.continuation),
            None => state,
        },
        ControlView::Finished { .. } => state,
    }
}

/// What a state asks of the host.
pub open spec fn action_model(state: EvaluationView) -> ActionView {
    match state.control {
        ControlView::Evaluate { .. } => ActionView::Continue,
        ControlView::Return { .. } => ActionView::Continue,
        ControlView::Await { request } => ActionView::Ask { request },
        ControlView::Finished { result } => ActionView::Finish { result },
    }
}

/// The environment with the primitive procedures bound under their names.
pub open spec fn setup_primitive_procedures_model(
    environment: Map<Seq<char>, ExpressionView>,
) -> Map<Seq<char>, ExpressionView> {
    environment.insert(
        "+"@,
        ExpressionView::PrimitiveProcedure { procedure: Primitive::Addition },
    ).insert("-"@, ExpressionView::PrimitiveProcedure { procedure: Primitive::Subtraction }).insert(
        "*"@,
        ExpressionView::PrimitiveProcedure { procedure: Primitive::Multiplication },
    ).insert("/"@, ExpressionView::PrimitiveProcedure { procedure: Primitive::Division }).insert(
        "remainder"@,
        ExpressionView::PrimitiveProcedure { procedure: Primitive::Remainder },
    ).insert("="@, ExpressionView::PrimitiveProcedure { procedure: Primitive::Equals }).insert(
        "<"@,
        ExpressionView::PrimitiveProcedure { procedure: Primitive::LessThan },
    ).insert("car"@, ExpressionView::PrimitiveProcedure { procedure: Primitive::Car }).insert(
        "cdr"@,
        ExpressionView::PrimitiveProcedure { procedure: Primitive::Cdr },
    ).insert(
        "empty-list?"@,
        ExpressionView::PrimitiveProcedure { procedure: Primitive::IsEmptyList },
    )
}

/// The state in which the evaluation of a program starts: the primitive
/// procedures are bound, and the expressions of the program are to be
/// evaluated in order. The value of a program without expressions is the
/// empty list.
pub open spec fn initial_model(expressions: Seq<ExpressionView>) -> EvaluationView {
    returning(
        ExpressionView::EmptyList,
        setup_primitive_procedures_model(Map::empty()),
        seq![FrameView::Sequence { remaining: expressions }],
    )
}

} // verus!
