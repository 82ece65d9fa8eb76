//! Evaluation, as a step machine.
//!
//! The machine holds what is being worked on (its control), the current
//! environment and a stack of frames that say what to do with the next value.
//! One call of [`Evaluation::step`] makes one transition. Computations on
//! binary64 numbers are not made here: the machine asks its host for each of
//! them with an [`Action::Ask`], waits, and goes on when `step` is called with
//! the answer.

use vstd::prelude::*;
use crate::environment::{bindings_map, Environment};
pub use crate::evaluation_errors::LisrEvaluationError;
use crate::expression::{
    names_of, views_of, Expression, ExpressionView, Identifier, Parameter, Primitive,
};
use crate::host::{result_view, Action, Event, Operator, Relation, Request};
use crate::text::precedes;
use crate::token::Number;
use crate::transition::{
    action_model, answer_model, apply_compound_procedure_model, apply_model, apply_primitive_model,
    arithmetic_model, bind_parameters, call_environment, conclude_model, equals_model,
    evaluate_expression_model, failing, initial_model, operands_model, primitive_arithmetic_model,
    primitive_car_model, primitive_cdr_model, primitive_equals_model,
    primitive_is_empty_list_model, primitive_less_than_model, primitive_remainder_model,
    reduce_model, resume_model, runtime_error, settle_model, setup_primitive_procedures_model,
    step_model, truth, ControlView, EvaluationView, FrameView, OutcomeView,
};

verus! {

/// What is to be done with the next value.
#[derive(Debug, PartialEq)]
enum Frame {
    /// Evaluate the remaining expressions in order; the value of the last
    /// one is the value of the whole.
    Sequence { remaining: Vec<Expression> },
    /// Rebind the variable to the value.
    Assignment { variable: Identifier },
    /// Bind the variable to the value.
    Definition { variable: Identifier },
    /// Choose a branch by the value.
    If { consequent: Expression, alternative: Expression },
    /// Go on with the remaining operands while the value is true.
    And { remaining: Vec<Expression> },
    /// Go on with the remaining operands while the value is false.
    Or { remaining: Vec<Expression> },
    /// The value is the first part of a pair: evaluate the second.
    ConsFirst { rest: Expression },
    /// The value is the second part of a pair: build it.
    ConsRest { first: Expression },
    /// The value is the procedure of an application: evaluate its arguments.
    Operator { arguments: Vec<Expression> },
    /// The value is the next argument of an application.
    Operands { procedure: Expression, evaluated: Vec<Expression>, remaining: Vec<Expression> },
    /// The value is what a compound procedure returns: go back to the
    /// caller's environment.
    Call { environment: Environment },
    /// The value is what has been accumulated: combine it with the next
    /// argument.
    Reduce { operator: Operator, remaining: Vec<Expression> },
    /// The value says whether the last two arguments were equal: compare
    /// the next two.
    Equals { current: Expression, remaining: Vec<Expression> },
}

impl View for Frame {
    type V = FrameView;

    closed spec fn view(&self) -> FrameView {
        match *self {
            Frame::Sequence { remaining } => FrameView::Sequence { remaining: views_of(remaining@) },
            Frame::Assignment { variable } => FrameView::Assignment { variable: variable.name@ },
            Frame::Definition { variable } => FrameView::Definition { variable: variable.name@ },
            Frame::If { consequent, alternative } => FrameView::If {
                consequent: consequent@,
                alternative: alternative@,
            },
            Frame::And { remaining } => FrameView::And { remaining: views_of(remaining@) },
            Frame::Or { remaining } => FrameView::Or { remaining: views_of(remaining@) },
            Frame::ConsFirst { rest } => FrameView::ConsFirst { rest: rest@ },
            Frame::ConsRest { first } => FrameView::ConsRest { first: first@ },
            Frame::Operator { arguments } => FrameView::Operator { arguments: views_of(arguments@) },
            Frame::Operands { procedure, evaluated, remaining } => FrameView::Operands {
                procedure: procedure@,
                evaluated: views_of(evaluated@),
                remaining: views_of(remaining@),
            },
            Frame::Call { environment } => FrameView::Call { environment: environment@ },
            Frame::Reduce { operator, remaining } => FrameView::Reduce {
                operator,
                remaining: views_of(remaining@),
            },
            Frame::Equals { current, remaining } => FrameView::Equals {
                current: current@,
                remaining: views_of(remaining@),
            },
        }
    }
}

/// The models of the frames of a stack, in order.
spec fn frames_view(frames: Seq<Frame>) -> Seq<FrameView> {
    Seq::new(frames.len(), |i: int| frames[i]@)
}

/// What the machine is working on.
#[derive(Debug, PartialEq)]
enum Control {
    /// An expression to evaluate.
    Evaluate { expression: Expression },
    /// A value to hand to the innermost frame.
    Return { value: Expression },
    /// A request that the host has not answered yet.
    Await { request: Request },
    /// Nothing any more: evaluation is over.
    Finished { result: Result<Expression, LisrEvaluationError> },
}

impl View for Control {
    type V = ControlView;

    closed spec fn view(&self) -> ControlView {
        match *self {
            Control::Evaluate { expression } => ControlView::Evaluate { expression: expression@ },
            Control::Return { value } => ControlView::Return { value: value@ },
            Control::Await { request } => ControlView::Await { request: request@ },
            Control::Finished { result } => ControlView::Finished { result: result_view(result) },
        }
    }
}

/// The state of an evaluation.
#[derive(Debug, PartialEq)]
pub struct Evaluation {
    control: Control,
    environment: Environment,
    continuation: Vec<Frame>,
}

impl View for Evaluation {
    type V = EvaluationView;

    closed spec fn view(&self) -> EvaluationView {
        EvaluationView {
            control: self.control@,
            environment: self.environment@,
            continuation: frames_view(self.continuation@),
        }
    }
}

/// What a primitive procedure comes to, before its host is involved.
#[derive(Debug, PartialEq)]
pub enum Outcome {
    /// A value: nothing is asked of the host.
    Value { value: Expression },
    /// An error.
    Error { error: LisrEvaluationError },
    /// A computation on numbers, which the host makes: its answer is the
    /// value.
    Ask { request: Request },
}

impl View for Outcome {
    type V = OutcomeView;

    open spec fn view(&self) -> OutcomeView {
        match *self {
            Outcome::Value { value } => OutcomeView::Value { value: value@ },
            Outcome::Error { error } => OutcomeView::Error { error: error@ },
            Outcome::Ask { request } => OutcomeView::Ask { request: request@ },
        }
    }
}

/// The boolean value that stands for `holds`.
fn truth_value(holds: bool) -> (value: Expression)
    ensures
        value@ == truth(holds),
{
    if holds {
        Expression::True
    } else {
        Expression::False
    }
}

/// Puts `frame` on top of the stack.
fn push_frame(continuation: &mut Vec<Frame>, frame: Frame)
    ensures
        frames_view(final(continuation)@) == frames_view(old(continuation)@).push(frame@),
{
    continuation.push(frame);
    assert(frames_view(continuation@) =~= frames_view(old(continuation)@).push(frame@));
}

/// Takes the first of the expressions.
fn take_first(expressions: &mut Vec<Expression>) -> (first: Expression)
    requires
        old(expressions).len() > 0,
    ensures
        first@ == views_of(old(expressions)@)[0],
        views_of(final(expressions)@) == views_of(old(expressions)@).drop_first(),
{
    let first = expressions.remove(0);
    assert(views_of(expressions@) =~= views_of(old(expressions)@).drop_first());
    first
}

/// `car`: the first part of the one pair given.
pub fn primitive_car(arguments: Vec<Expression>) -> (result: Result<Expression, LisrEvaluationError>)
    ensures
        result_view(result) == primitive_car_model(views_of(arguments@)),
{
    let mut arguments = arguments;
    let pair = arguments.pop();
    if arguments.len() != 0 {
        return Err(
            LisrEvaluationError::RuntimeError {
                reason: "'car' function requires one 'cons' argument",
            },
        );
    }
    match pair {
        Some(Expression::Cons { first, rest: _ }) => Ok(*first),
        _ => Err(LisrEvaluationError::RuntimeError { reason: "'car' requires one 'cons' argument" }),
    }
}

/// `cdr`: the second part of the one pair given.
pub fn primitive_cdr(arguments: Vec<Expression>) -> (result: Result<Expression, LisrEvaluationError>)
    ensures
        result_view(result) == primitive_cdr_model(views_of(arguments@)),
{
    let mut arguments = arguments;
    let pair = arguments.pop();
    if arguments.len() != 0 {
        return Err(
            LisrEvaluationError::RuntimeError {
                reason: "'cdr' function requires one 'cons' argument",
            },
        );
    }
    match pair {
        Some(Expression::Cons { first: _, rest }) => Ok(*rest),
        _ => Err(LisrEvaluationError::RuntimeError { reason: "'cdr' requires one 'cons' argument" }),
    }
}

/// `empty-list?`: whether the one argument given is the empty list.
pub fn primitive_is_empty_list(arguments: Vec<Expression>) -> (result: Result<
    Expression,
    LisrEvaluationError,
>)
    ensures
        result_view(result) == primitive_is_empty_list_model(views_of(arguments@)),
{
    let mut arguments = arguments;
    if arguments.len() != 1 {
        return Err(
            LisrEvaluationError::RuntimeError {
                reason: "'empty-list?' function requires exactly one argument",
            },
        );
    }
    let object = arguments.pop();
    match object {
        Some(Expression::EmptyList) => Ok(Expression::True),
        _ => Ok(Expression::False),
    }
}

/// `remainder`: of exactly two numbers, which the host divides.
pub fn primitive_remainder(arguments: Vec<Expression>) -> (outcome: Outcome)
    ensures
        outcome@ == primitive_remainder_model(views_of(arguments@)),
{
    let mut arguments = arguments;
    if arguments.len() != 2 {
        return Outcome::Error {
            error: LisrEvaluationError::RuntimeError {
                reason: "Remainder requires two arguments - a dividend and a divisor",
            },
        };
    }
    let divisor = arguments.pop();
    let dividend = arguments.pop();
    match (dividend, divisor) {
        (
            Some(Expression::Number { value: dividend }),
            Some(Expression::Number { value: divisor }),
        ) => Outcome::Ask {
            request: Request::Arithmetic {
                operator: Operator::Remainder,
                left: dividend,
                right: divisor,
            },
        },
        _ => Outcome::Error { error: LisrEvaluationError::TypeError },
    }
}

/// `<`: between exactly two numbers, which the host compares, or two
/// strings.
pub fn primitive_less_than(arguments: Vec<Expression>) -> (outcome: Outcome)
    ensures
        outcome@ == primitive_less_than_model(views_of(arguments@)),
{
    let mut arguments = arguments;
    if arguments.len() != 2 {
        return Outcome::Error {
            error: LisrEvaluationError::RuntimeError {
                reason: "'Less than' function requires two arguments",
            },
        };
    }
    let right = arguments.pop();
    let left = arguments.pop();
    match (left, right) {
        (Some(Expression::Number { value: left }), Some(Expression::Number { value: right })) => {
            Outcome::Ask { request: Request::Compare { relation: Relation::Less, left, right } }
        },
        (Some(Expression::String { value: left }), Some(Expression::String { value: right })) => {
            Outcome::Value { value: truth_value(precedes(left.as_str(), right.as_str())) }
        },
        _ => Outcome::Error { error: LisrEvaluationError::TypeError },
    }
}

/// One step of `=`: whether two neighbouring arguments are equal, both
/// numbers, which the host compares, or both strings.
pub fn primitive_equals(current: Expression, next: &Expression) -> (outcome: Outcome)
    ensures
        outcome@ == primitive_equals_model(current@, next@),
{
    match (current, next) {
        (Expression::Number { value: left }, Expression::Number { value: right }) => {
            Outcome::Ask {
                request: Request::Compare {
                    relation: Relation::Equal,
                    left,
                    right: right.duplicate(),
                },
            }
        },
        (Expression::String { value: left }, Expression::String { value: right }) => {
            Outcome::Value { value: truth_value(left == *right) }
        },
        _ => Outcome::Error {
            error: LisrEvaluationError::RuntimeError {
                reason: "Equals is only implemented for pairs of strings or numbers",
            },
        },
    }
}

/// One step of `+`, `-`, `*` or `/`: two numbers are combined by the
/// host; two strings are joined by `+`.
pub fn primitive_arithmetic(operator: Operator, accumulated: Expression, next: Expression) -> (outcome:
    Outcome)
    ensures
        outcome@ == primitive_arithmetic_model(operator, accumulated@, next@),
{
    match (accumulated, next) {
        (Expression::Number { value: left }, Expression::Number { value: right }) => {
            Outcome::Ask { request: Request::Arithmetic { operator, left, right } }
        },
        (Expression::String { value: left }, Expression::String { value: right }) => {
            match operator {
                Operator::Add => Outcome::Value {
                    value: Expression::String { value: left.concat(right.as_str()) },
                },
                _ => Outcome::Error { error: LisrEvaluationError::TypeError },
            }
        },
        _ => Outcome::Error { error: LisrEvaluationError::TypeError },
    }
}

/// The state that follows from the outcome of a primitive procedure.
fn settle(outcome: Outcome, environment: Environment, continuation: Vec<Frame>) -> (next:
    Evaluation)
    ensures
        next@ == settle_model(outcome@, environment@, frames_view(continuation@)),
{
    match outcome {
        Outcome::Value { value } => Evaluation {
            control: Control::Return { value },
            environment,
            continuation,
        },
        Outcome::Error { error } => Evaluation {
            control: Control::Finished { result: Err(error) },
            environment,
            continuation,
        },
        Outcome::Ask { request } => Evaluation {
            control: Control::Await { request },
            environment,
            continuation,
        },
    }
}

/// The state that follows from a result.
fn conclude(
    result: Result<Expression, LisrEvaluationError>,
    environment: Environment,
    continuation: Vec<Frame>,
) -> (next: Evaluation)
    ensures
        next@ == conclude_model(result_view(result), environment@, frames_view(continuation@)),
{
    match result {
        Ok(value) => Evaluation { control: Control::Return { value }, environment, continuation },
        Err(error) => Evaluation {
            control: Control::Finished { result: Err(error) },
            environment,
            continuation,
        },
    }
}

/// The state in which evaluation has failed with a runtime error.
fn fail(reason: &'static str, environment: Environment, continuation: Vec<Frame>) -> (next:
    Evaluation)
    ensures
        next@ == failing(runtime_error(reason@), environment@, frames_view(continuation@)),
{
    Evaluation {
        control: Control::Finished { result: Err(LisrEvaluationError::RuntimeError { reason }) },
        environment,
        continuation,
    }
}

/// Starts the arithmetic primitive of `operator` on its arguments.
fn create_primitive_procedure(
    operator: Operator,
    arguments: Vec<Expression>,
    environment: Environment,
    continuation: Vec<Frame>,
) -> (next: Evaluation)
    ensures
        next@ == arithmetic_model(
            operator,
            views_of(arguments@),
            environment@,
            frames_view(continuation@),
        ),
{
    let mut arguments = arguments;
    let mut continuation = continuation;
    if arguments.len() == 0 {
        return fail(
            "An arithmetic function cannot be invoked without any arguments",
            environment,
            continuation,
        );
    }
    let value = take_first(&mut arguments);
    push_frame(&mut continuation, Frame::Reduce { operator, remaining: arguments });
    Evaluation { control: Control::Return { value }, environment, continuation }
}

/// Combines what has been accumulated with the next argument.
fn reduce(
    operator: Operator,
    accumulated: Expression,
    remaining: Vec<Expression>,
    environment: Environment,
    continuation: Vec<Frame>,
) -> (next: Evaluation)
    ensures
        next@ == reduce_model(
            operator,
            accumulated@,
            views_of(remaining@),
            environment@,
            frames_view(continuation@),
        ),
{
    let mut remaining = remaining;
    let mut continuation = continuation;
    if remaining.len() == 0 {
        return Evaluation {
            control: Control::Return { value: accumulated },
            environment,
            continuation,
        };
    }
    let argument = take_first(&mut remaining);
    let outcome = primitive_arithmetic(operator, accumulated, argument);
    push_frame(&mut continuation, Frame::Reduce { operator, remaining });
    settle(outcome, environment, continuation)
}

/// Goes on with `=` after a comparison.
fn equals(
    value: Expression,
    current: Expression,
    remaining: Vec<Expression>,
    environment: Environment,
    continuation: Vec<Frame>,
) -> (next: Evaluation)
    ensures
        next@ == equals_model(
            value@,
            current@,
            views_of(remaining@),
            environment@,
            frames_view(continuation@),
        ),
{
    let mut remaining = remaining;
    let mut continuation = continuation;
    if let Expression::False = value {
        return Evaluation {
            control: Control::Return { value: Expression::False },
            environment,
            continuation,
        };
    }
    if remaining.len() == 0 {
        return Evaluation {
            control: Control::Return { value: Expression::True },
            environment,
            continuation,
        };
    }
    let argument = take_first(&mut remaining);
    let outcome = primitive_equals(current, &argument);
    push_frame(&mut continuation, Frame::Equals { current: argument, remaining });
    settle(outcome, environment, continuation)
}

/// Applies a primitive procedure to its arguments.
fn apply_primitive(
    procedure: Primitive,
    arguments: Vec<Expression>,
    environment: Environment,
    continuation: Vec<Frame>,
) -> (next: Evaluation)
    ensures
        next@ == apply_primitive_model(
            procedure,
            views_of(arguments@),
            environment@,
            frames_view(continuation@),
        ),
{
    match procedure {
        Primitive::Addition => create_primitive_procedure(
            Operator::Add,
            arguments,
            environment,
            continuation,
        ),
        Primitive::Subtraction => create_primitive_procedure(
            Operator::Subtract,
            arguments,
            environment,
            continuation,
        ),
        Primitive::Multiplication => create_primitive_procedure(
            Operator::Multiply,
            arguments,
            environment,
            continuation,
        ),
        Primitive::Division => create_primitive_procedure(
            Operator::Divide,
            arguments,
            environment,
            continuation,
        ),
        Primitive::Remainder => settle(primitive_remainder(arguments), environment, continuation),
        Primitive::Equals => {
            let mut arguments = arguments;
            let mut continuation = continuation;
            if arguments.len() == 0 {
                return fail(
                    "Equals cannot be invoked without any arguments",
                    environment,
                    continuation,
                );
            }
            let current = take_first(&mut arguments);
            push_frame(&mut continuation, Frame::Equals { current, remaining: arguments });
            Evaluation {
                control: Control::Return { value: Expression::True },
                environment,
                continuation,
            }
        },
        Primitive::LessThan => settle(primitive_less_than(arguments), environment, continuation),
        Primitive::Car => conclude(primitive_car(arguments), environment, continuation),
        Primitive::Cdr => conclude(primitive_cdr(arguments), environment, continuation),
        Primitive::IsEmptyList => conclude(
            primitive_is_empty_list(arguments),
            environment,
            continuation,
        ),
    }
}

/// The environment in which the body of a compound procedure runs: a
/// copy of the caller's bindings, overlaid by the bindings that the procedure
/// captured, overlaid by its parameters, each bound to the argument at its
/// place. A name that the procedure captured is seen as it was captured,
/// whatever the caller has bound to it since; a name that it did not capture
/// is seen as the caller has it; a parameter hides both.
///
/// There have to be as many arguments as parameters: else this is the
/// runtime error of a call with a wrong number of arguments.
pub fn call_frame(
    caller: &Environment,
    captured: Environment,
    parameters: &Vec<Parameter>,
    arguments: &Vec<Expression>,
) -> (result: Result<Environment, LisrEvaluationError>)
    ensures
        match result {
            Ok(frame) => arguments.len() == parameters.len() && frame@ == call_environment(
                caller@,
                captured@,
                names_of(parameters@),
                views_of(arguments@),
            ),
            Err(error) => arguments.len() != parameters.len() && error@ == runtime_error(
                "Function called with a wrong number of arguments"@,
            ),
        },
{
    if arguments.len() != parameters.len() {
        return Err(
            LisrEvaluationError::RuntimeError {
                reason: "Function called with a wrong number of arguments",
            },
        );
    }
    let mut frame = caller.duplicate();
    let bindings = captured.into_iter();
    let mut i: usize = 0;
    proof {
        assert(caller@.union_prefer_right(bindings_map(bindings@.subrange(0, 0))) =~= caller@);
    }
    while i < bindings.len()
        invariant
            i <= bindings.len(),
            frame@ == caller@.union_prefer_right(bindings_map(bindings@.subrange(0, i as int))),
        decreases bindings.len() - i,
    {
        proof {
            let next = bindings@.subrange(0, i + 1);
            assert(next.drop_last() == bindings@.subrange(0, i as int));
            assert(next.last() == bindings@[i as int]);
            assert(caller@.union_prefer_right(bindings_map(next)) =~= caller@.union_prefer_right(
                bindings_map(bindings@.subrange(0, i as int)),
            ).insert(bindings@[i as int].0.name@, bindings@[i as int].1@));
        }
        frame.define_variable(&bindings[i].0, &bindings[i].1);
        i = i + 1;
    }
    proof {
        assert(bindings@.subrange(0, i as int) == bindings@);
    }
    let ghost names = names_of(parameters@);
    let ghost values = views_of(arguments@);
    let ghost base = frame@;
    let mut j: usize = 0;
    proof {
        assert(bind_parameters(base, names.subrange(0, 0), values.subrange(0, 0)) == base);
    }
    while j < parameters.len()
        invariant
            j <= parameters.len(),
            arguments.len() == parameters.len(),
            names == names_of(parameters@),
            values == views_of(arguments@),
            frame@ == bind_parameters(
                base,
                names.subrange(0, j as int),
                values.subrange(0, j as int),
            ),
        decreases parameters.len() - j,
    {
        proof {
            let next_names = names.subrange(0, j + 1);
            let next_values = values.subrange(0, j + 1);
            assert(next_names.drop_last() == names.subrange(0, j as int));
            assert(next_values.drop_last() == values.subrange(0, j as int));
            assert(next_names.last() == parameters[j as int].name@);
            assert(next_values.last() == arguments[j as int]@);
        }
        let variable = Identifier { name: parameters[j].name.clone() };
        frame.define_variable(&variable, &arguments[j]);
        j = j + 1;
    }
    proof {
        assert(names.subrange(0, j as int) == names);
        assert(values.subrange(0, j as int) == values);
    }
    Ok(frame)
}

/// Applies a compound procedure: goes on to its body in the frame of the
/// call. The caller's own environment comes back when the body has returned.
fn apply_compound_procedure(
    arguments: Vec<Expression>,
    parameters: Vec<Parameter>,
    body: Expression,
    captured: Environment,
    environment: Environment,
    continuation: Vec<Frame>,
) -> (next: Evaluation)
    ensures
        next@ == apply_compound_procedure_model(
            views_of(arguments@),
            names_of(parameters@),
            body@,
            captured@,
            environment@,
            frames_view(continuation@),
        ),
{
    let mut continuation = continuation;
    match call_frame(&environment, captured, &parameters, &arguments) {
        Ok(frame) => {
            push_frame(&mut continuation, Frame::Call { environment });
            Evaluation {
                control: Control::Evaluate { expression: body },
                environment: frame,
                continuation,
            }
        },
        Err(error) => Evaluation {
            control: Control::Finished { result: Err(error) },
            environment,
            continuation,
        },
    }
}

/// Applies a procedure to its arguments.
fn apply(
    procedure: Expression,
    arguments: Vec<Expression>,
    environment: Environment,
    continuation: Vec<Frame>,
) -> (next: Evaluation)
    ensures
        next@ == apply_model(
            procedure@,
            views_of(arguments@),
            environment@,
            frames_view(continuation@),
        ),
{
    match procedure {
        Expression::PrimitiveProcedure { procedure } => apply_primitive(
            procedure,
            arguments,
            environment,
            continuation,
        ),
        Expression::CompoundProcedure { parameters, body, environment: closed_environment } => {
            apply_compound_procedure(
                arguments,
                parameters,
                *body,
                *closed_environment,
                environment,
                continuation,
            )
        },
        _ => fail("Object cannot be invoked", environment, continuation),
    }
}

/// Evaluates the next argument of an application, or applies the
/// procedure once all are evaluated.
fn operands(
    procedure: Expression,
    evaluated: Vec<Expression>,
    remaining: Vec<Expression>,
    environment: Environment,
    continuation: Vec<Frame>,
) -> (next: Evaluation)
    ensures
        next@ == operands_model(
            procedure@,
            views_of(evaluated@),
            views_of(remaining@),
            environment@,
            frames_view(continuation@),
        ),
{
    let mut remaining = remaining;
    let mut continuation = continuation;
    if remaining.len() == 0 {
        return apply(procedure, evaluated, environment, continuation);
    }
    let expression = take_first(&mut remaining);
    push_frame(&mut continuation, Frame::Operands { procedure, evaluated, remaining });
    Evaluation { control: Control::Evaluate { expression }, environment, continuation }
}

/// One step on an expression that is to be evaluated.
fn evaluate_expression(
    expression: Expression,
    environment: Environment,
    continuation: Vec<Frame>,
) -> (next: Evaluation)
    ensures
        next@ == evaluate_expression_model(
            expression@,
            environment@,
            frames_view(continuation@),
        ),
{
    let mut continuation = continuation;
    match expression {
        Expression::Number { value: Number::Decimal { negative, digits } } => Evaluation {
            control: Control::Await { request: Request::Convert { negative, digits } },
            environment,
            continuation,
        },
        Expression::Identifier(identifier) => {
            let result = environment.lookup_value(&identifier);
            conclude(result, environment, continuation)
        },
        Expression::Assignment { variable, value } => {
            // The variable has to be bound already.
            match environment.lookup_value(&variable) {
                Ok(_) => {
                    push_frame(&mut continuation, Frame::Assignment { variable });
                    Evaluation {
                        control: Control::Evaluate { expression: *value },
                        environment,
                        continuation,
                    }
                },
                Err(error) => Evaluation {
                    control: Control::Finished { result: Err(error) },
                    environment,
                    continuation,
                },
            }
        },
        Expression::Definition { variable, value } => {
            push_frame(&mut continuation, Frame::Definition { variable });
            Evaluation {
                control: Control::Evaluate { expression: *value },
                environment,
                continuation,
            }
        },
        Expression::Lambda { parameters, body } => {
            let captured = environment.duplicate();
            Evaluation {
                control: Control::Return {
                    value: Expression::CompoundProcedure {
                        parameters,
                        body,
                        environment: Box::new(captured),
                    },
                },
                environment,
                continuation,
            }
        },
        Expression::If { predicate, consequent, alternative } => {
            push_frame(
                &mut continuation,
                Frame::If { consequent: *consequent, alternative: *alternative },
            );
            Evaluation {
                control: Control::Evaluate { expression: *predicate },
                environment,
                continuation,
            }
        },
        Expression::And { operands } => {
            push_frame(&mut continuation, Frame::And { remaining: operands });
            Evaluation {
                control: Control::Return { value: Expression::True },
                environment,
                continuation,
            }
        },
        Expression::Or { operands } => {
            push_frame(&mut continuation, Frame::Or { remaining: operands });
            Evaluation {
                control: Control::Return { value: Expression::False },
                environment,
                continuation,
            }
        },
        Expression::Begin { sequence } => {
            if sequence.len() == 0 {
                assert(views_of(sequence@).len() == 0);
                assert(expression@ == ExpressionView::Begin { sequence: views_of(sequence@) });
                return fail(
                    "A sequence of expressions in a begin statement cannot be empty",
                    environment,
                    continuation,
                );
            }
            push_frame(&mut continuation, Frame::Sequence { remaining: sequence });
            Evaluation {
                control: Control::Return { value: Expression::EmptyList },
                environment,
                continuation,
            }
        },
        Expression::Cons { first, rest } => {
            push_frame(&mut continuation, Frame::ConsFirst { rest: *rest });
            Evaluation {
                control: Control::Evaluate { expression: *first },
                environment,
                continuation,
            }
        },
        Expression::Application { procedure, arguments } => {
            push_frame(&mut continuation, Frame::Operator { arguments });
            Evaluation {
                control: Control::Evaluate { expression: *procedure },
                environment,
                continuation,
            }
        },
        value => Evaluation { control: Control::Return { value }, environment, continuation },
    }
}

/// One step on a value that `frame` receives, with `continuation` the
/// frames under it.
fn resume(
    frame: Frame,
    value: Expression,
    environment: Environment,
    continuation: Vec<Frame>,
) -> (next: Evaluation)
    ensures
        next@ == resume_model(frame@, value@, environment@, frames_view(continuation@)),
{
    let mut environment = environment;
    let mut continuation = continuation;
    match frame {
        Frame::Sequence { remaining } => {
            let mut remaining = remaining;
            if remaining.len() == 0 {
                return Evaluation { control: Control::Return { value }, environment, continuation };
            }
            let expression = take_first(&mut remaining);
            push_frame(&mut continuation, Frame::Sequence { remaining });
            Evaluation { control: Control::Evaluate { expression }, environment, continuation }
        },
        Frame::Assignment { variable } => {
            environment.define_variable(&variable, &value);
            Evaluation { control: Control::Return { value }, environment, continuation }
        },
        Frame::Definition { variable } => {
            environment.define_variable(&variable, &value);
            Evaluation {
                control: Control::Return { value: Expression::Identifier(variable) },
                environment,
                continuation,
            }
        },
        Frame::If { consequent, alternative } => match value {
            Expression::True => Evaluation {
                control: Control::Evaluate { expression: consequent },
                environment,
                continuation,
            },
            Expression::False => Evaluation {
                control: Control::Evaluate { expression: alternative },
                environment,
                continuation,
            },
            _ => fail(
                "Predicate of an if expression did not evaluate to a boolean value",
                environment,
                continuation,
            ),
        },
        Frame::And { remaining } => match value {
            Expression::True => {
                let mut remaining = remaining;
                if remaining.len() == 0 {
                    return Evaluation {
                        control: Control::Return { value: Expression::True },
                        environment,
                        continuation,
                    };
                }
                let expression = take_first(&mut remaining);
                push_frame(&mut continuation, Frame::And { remaining });
                Evaluation { control: Control::Evaluate { expression }, environment, continuation }
            },
            Expression::False => Evaluation {
                control: Control::Return { value: Expression::False },
                environment,
                continuation,
            },
            _ => fail(
                "Operand of an and expression did not evaluate to a boolean value",
                environment,
                continuation,
            ),
        },
        Frame::Or { remaining } => match value {
            Expression::False => {
                let mut remaining = remaining;
                if remaining.len() == 0 {
                    return Evaluation {
                        control: Control::Return { value: Expression::False },
                        environment,
                        continuation,
                    };
                }
                let expression = take_first(&mut remaining);
                push_frame(&mut continuation, Frame::Or { remaining });
                Evaluation { control: Control::Evaluate { expression }, environment, continuation }
            },
            Expression::True => Evaluation {
                control: Control::Return { value: Expression::True },
                environment,
                continuation,
            },
            _ => fail(
                "Operand of an or expression did not evaluate to a boolean value",
                environment,
                continuation,
            ),
        },
        Frame::ConsFirst { rest } => {
            push_frame(&mut continuation, Frame::ConsRest { first: value });
            Evaluation {
                control: Control::Evaluate { expression: rest },
                environment,
                continuation,
            }
        },
        Frame::ConsRest { first } => Evaluation {
            control: Control::Return {
                value: Expression::Cons { first: Box::new(first), rest: Box::new(value) },
            },
            environment,
            continuation,
        },
        Frame::Operator { arguments } => {
            let evaluated: Vec<Expression> = Vec::new();
            assert(views_of(evaluated@) =~= Seq::<ExpressionView>::empty());
            operands(value, evaluated, arguments, environment, continuation)
        },
        Frame::Operands { procedure, evaluated, remaining } => {
            let mut evaluated = evaluated;
            let ghost before = views_of(evaluated@);
            evaluated.push(value);
            assert(views_of(evaluated@) =~= before.push(value@));
            operands(procedure, evaluated, remaining, environment, continuation)
        },
        Frame::Call { environment: caller } => Evaluation {
            control: Control::Return { value },
            environment: caller,
            continuation,
        },
        Frame::Reduce { operator, remaining } => reduce(
            operator,
            value,
            remaining,
            environment,
            continuation,
        ),
        Frame::Equals { current, remaining } => equals(
            value,
            current,
            remaining,
            environment,
            continuation,
        ),
    }
}

/// The value that an answer of the host stands for, where it answers the
/// request.
fn answer(request: &Request, event: Event) -> (value: Option<Expression>)
    ensures
        match value {
            Some(value) => answer_model(request@, event) == Some(value@),
            None => answer_model(request@, event) is None,
        },
{
    match (request, event) {
        (Request::Convert { .. }, Event::Number { bits }) => Some(
            Expression::Number { value: Number::Binary { bits } },
        ),
        (Request::Arithmetic { .. }, Event::Number { bits }) => Some(
            Expression::Number { value: Number::Binary { bits } },
        ),
        (Request::Compare { .. }, Event::Truth { holds }) => Some(truth_value(holds)),
        _ => None,
    }
}

/// Binds the primitive procedures under their names.
fn setup_primitive_procedures(environment: &mut Environment)
    ensures
        final(environment)@ == setup_primitive_procedures_model(old(environment)@),
{
    environment.define_variable(
        &Identifier { name: String::from_str("+") },
        &Expression::PrimitiveProcedure { procedure: Primitive::Addition },
    );
    environment.define_variable(
        &Identifier { name: String::from_str("-") },
        &Expression::PrimitiveProcedure { procedure: Primitive::Subtraction },
    );
    environment.define_variable(
        &Identifier { name: String::from_str("*") },
        &Expression::PrimitiveProcedure { procedure: Primitive::Multiplication },
    );
    environment.define_variable(
        &Identifier { name: String::from_str("/") },
        &Expression::PrimitiveProcedure { procedure: Primitive::Division },
    );
    environment.define_variable(
        &Identifier { name: String::from_str("remainder") },
        &Expression::PrimitiveProcedure { procedure: Primitive::Remainder },
    );
    environment.define_variable(
        &Identifier { name: String::from_str("=") },
        &Expression::PrimitiveProcedure { procedure: Primitive::Equals },
    );
    environment.define_variable(
        &Identifier { name: String::from_str("<") },
        &Expression::PrimitiveProcedure { procedure: Primitive::LessThan },
    );
    environment.define_variable(
        &Identifier { name: String::from_str("car") },
        &Expression::PrimitiveProcedure { procedure: Primitive::Car },
    );
    environment.define_variable(
        &Identifier { name: String::from_str("cdr") },
        &Expression::PrimitiveProcedure { procedure: Primitive::Cdr },
    );
    environment.define_variable(
        &Identifier { name: String::from_str("empty-list?") },
        &Expression::PrimitiveProcedure { procedure: Primitive::IsEmptyList },
    );
}

/// Starts the evaluation of a program: its expressions are evaluated in
/// order, in one environment in which the primitive procedures are bound.
/// The machine has made no step yet.
pub fn evaluate(expressions: Vec<Expression>) -> (evaluation: Evaluation)
    ensures
        evaluation@ == initial_model(views_of(expressions@)),
{
    let mut environment = Environment::new();
    setup_primitive_procedures(&mut environment);
    let mut continuation: Vec<Frame> = Vec::new();
    continuation.push(Frame::Sequence { remaining: expressions });
    assert(frames_view(continuation@) =~= seq![
        FrameView::Sequence { remaining: views_of(expressions@) },
    ]);
    Evaluation { control: Control::Return { value: Expression::EmptyList }, environment, continuation }
}

impl Evaluation {
    /// What the machine asks of its host in this state.
    pub fn action(&self) -> (action: Action)
        ensures
            action@ == action_model(self@),
    {
        match &self.control {
            Control::Evaluate { .. } => Action::Continue,
            Control::Return { .. } => Action::Continue,
            Control::Await { request } => Action::Ask { request: request.duplicate() },
            Control::Finished { result } => match result {
                Ok(value) => Action::Finish { result: Ok(value.duplicate()) },
                Err(error) => Action::Finish { result: Err(error.duplicate()) },
            },
        }
    }

    /// Makes one step, and says what the new state asks of the host.
    ///
    /// The event counts only while a request stands: an event that answers
    /// it lets the machine go on, any other leaves the request standing.
    pub fn step(self, event: Event) -> (next: (Evaluation, Action))
        ensures
            next.0@ == step_model(self@, event),
            next.1@ == action_model(next.0@),
    {
        let Evaluation { control, environment, continuation } = self;
        let mut continuation = continuation;
        let evaluation = match control {
            Control::Evaluate { expression } => evaluate_expression(
                expression,
                environment,
                continuation,
            ),
            Control::Return { value } => {
                let ghost frames = frames_view(continuation@);
                match continuation.pop() {
                    Some(frame) => {
                        assert(frames_view(continuation@) =~= frames.drop_last());
                        resume(frame, value, environment, continuation)
                    },
                    None => Evaluation {
                        control: Control::Finished { result: Ok(value) },
                        environment,
                        continuation,
                    },
                }
            },
            Control::Await { request } => match answer(&request, event) {
                Some(value) => Evaluation {
                    control: Control::Return { value },
                    environment,
                    continuation,
                },
                None => Evaluation { control: Control::Await { request }, environment, continuation },
            },
            Control::Finished { result } => Evaluation {
                control: Control::Finished { result },
                environment,
                continuation,
            },
        };
        let action = evaluation.action();
        (evaluation, action)
    }
}

} // verus!
