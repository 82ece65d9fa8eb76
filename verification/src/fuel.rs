//! Fuel that suffices once suffices for good: with more of it, an
//! evaluation comes to the same.

use vstd::prelude::*;
use crate::expression::ExpressionView;
use crate::host::{Event, RequestView};
use crate::semantics::{
    application, conjunction, disjunction, evaluation, operands, succession,
};
use crate::token::NumberView;
use crate::transition::call_environment;

verus! {

/// One more unit of fuel changes nothing of what an evaluation comes to.
pub proof fn lemma_evaluation_one_more(
    expression: ExpressionView,
    environment: Map<Seq<char>, ExpressionView>,
    host: spec_fn(RequestView) -> Event,
    fuel: nat,
)
    requires
        evaluation(expression, environment, host, fuel) is Some,
    ensures
        evaluation(expression, environment, host, fuel + 1) == evaluation(
            expression,
            environment,
            host,
            fuel,
        ),
    decreases fuel, 0nat,
{
    let less = (fuel - 1) as nat;
    match expression {
        ExpressionView::Number { value: NumberView::Decimal { .. } } => {},
        ExpressionView::Identifier { .. } => {},
        ExpressionView::Assignment { variable, value } => {
            if environment.contains_key(variable) {
                lemma_evaluation_one_more(*value, environment, host, less);
            }
        },
        ExpressionView::Definition { variable, value } => {
            lemma_evaluation_one_more(*value, environment, host, less);
        },
        ExpressionView::Lambda { .. } => {},
        ExpressionView::If { predicate, consequent, alternative } => {
            lemma_evaluation_one_more(*predicate, environment, host, less);
            let decided = evaluation(*predicate, environment, host, less)->0;
            match decided.result {
                Ok(ExpressionView::True) => {
                    lemma_evaluation_one_more(*consequent, decided.environment, host, less);
                },
                Ok(ExpressionView::False) => {
                    lemma_evaluation_one_more(*alternative, decided.environment, host, less);
                },
                _ => {},
            }
        },
        ExpressionView::And { operands } => {
            lemma_conjunction_one_more(operands, environment, host, less);
        },
        ExpressionView::Or { operands } => {
            lemma_disjunction_one_more(operands, environment, host, less);
        },
        ExpressionView::Begin { sequence } => {
            if sequence.len() > 0 {
                lemma_succession_one_more(
                    ExpressionView::EmptyList,
                    sequence,
                    environment,
                    host,
                    less,
                );
            }
        },
        ExpressionView::Cons { first, rest } => {
            lemma_evaluation_one_more(*first, environment, host, less);
            let head = evaluation(*first, environment, host, less)->0;
            if head.result is Ok {
                lemma_evaluation_one_more(*rest, head.environment, host, less);
            }
        },
        ExpressionView::Application { procedure, arguments } => {
            lemma_evaluation_one_more(*procedure, environment, host, less);
            let operator = evaluation(*procedure, environment, host, less)->0;
            if operator.result is Ok {
                lemma_operands_one_more(
                    operator.result->Ok_0,
                    Seq::empty(),
                    arguments,
                    operator.environment,
                    host,
                    less,
                );
            }
        },
        _ => {},
    }
}

/// One more unit of fuel changes nothing of what an `and` comes to.
pub proof fn lemma_conjunction_one_more(
    remaining: Seq<ExpressionView>,
    environment: Map<Seq<char>, ExpressionView>,
    host: spec_fn(RequestView) -> Event,
    fuel: nat,
)
    requires
        conjunction(remaining, environment, host, fuel) is Some,
    ensures
        conjunction(remaining, environment, host, fuel + 1) == conjunction(
            remaining,
            environment,
            host,
            fuel,
        ),
    decreases fuel, remaining.len() + 1,
{
    if remaining.len() > 0 {
        lemma_evaluation_one_more(remaining[0], environment, host, fuel);
        let operand = evaluation(remaining[0], environment, host, fuel)->0;
        if operand.result == Ok::<ExpressionView, crate::evaluation_errors::LisrEvaluationErrorView>(
            ExpressionView::True,
        ) {
            lemma_conjunction_one_more(remaining.drop_first(), operand.environment, host, fuel);
        }
    }
}

/// One more unit of fuel changes nothing of what an `or` comes to.
pub proof fn lemma_disjunction_one_more(
    remaining: Seq<ExpressionView>,
    environment: Map<Seq<char>, ExpressionView>,
    host: spec_fn(RequestView) -> Event,
    fuel: nat,
)
    requires
        disjunction(remaining, environment, host, fuel) is Some,
    ensures
        disjunction(remaining, environment, host, fuel + 1) == disjunction(
            remaining,
            environment,
            host,
            fuel,
        ),
    decreases fuel, remaining.len() + 1,
{
    if remaining.len() > 0 {
        lemma_evaluation_one_more(remaining[0], environment, host, fuel);
        let operand = evaluation(remaining[0], environment, host, fuel)->0;
        if operand.result == Ok::<ExpressionView, crate::evaluation_errors::LisrEvaluationErrorView>(
            ExpressionView::False,
        ) {
            lemma_disjunction_one_more(remaining.drop_first(), operand.environment, host, fuel);
        }
    }
}

/// One more unit of fuel changes nothing of what a sequence comes to.
pub proof fn lemma_succession_one_more(
    value: ExpressionView,
    remaining: Seq<ExpressionView>,
    environment: Map<Seq<char>, ExpressionView>,
    host: spec_fn(RequestView) -> Event,
    fuel: nat,
)
    requires
        succession(value, remaining, environment, host, fuel) is Some,
    ensures
        succession(value, remaining, environment, host, fuel + 1) == succession(
            value,
            remaining,
            environment,
            host,
            fuel,
        ),
    decreases fuel, remaining.len() + 1,
{
    if remaining.len() > 0 {
        lemma_evaluation_one_more(remaining[0], environment, host, fuel);
        let one = evaluation(remaining[0], environment, host, fuel)->0;
        if one.result is Ok {
            lemma_succession_one_more(
                one.result->Ok_0,
                remaining.drop_first(),
                one.environment,
                host,
                fuel,
            );
        }
    }
}

/// One more unit of fuel changes nothing of what the arguments of an
/// application and the application come to.
pub proof fn lemma_operands_one_more(
    procedure: ExpressionView,
    evaluated: Seq<ExpressionView>,
    remaining: Seq<ExpressionView>,
    environment: Map<Seq<char>, ExpressionView>,
    host: spec_fn(RequestView) -> Event,
    fuel: nat,
)
    requires
        operands(procedure, evaluated, remaining, environment, host, fuel) is Some,
    ensures
        operands(procedure, evaluated, remaining, environment, host, fuel + 1) == operands(
            procedure,
            evaluated,
            remaining,
            environment,
            host,
            fuel,
        ),
    decreases fuel, remaining.len() + 2,
{
    if remaining.len() == 0 {
        lemma_application_one_more(procedure, evaluated, environment, host, fuel);
    } else {
        lemma_evaluation_one_more(remaining[0], environment, host, fuel);
        let argument = evaluation(remaining[0], environment, host, fuel)->0;
        if argument.result is Ok {
            lemma_operands_one_more(
                procedure,
                evaluated.push(argument.result->Ok_0),
                remaining.drop_first(),
                argument.environment,
                host,
                fuel,
            );
        }
    }
}

/// One more unit of fuel changes nothing of what an application comes to.
pub proof fn lemma_application_one_more(
    procedure: ExpressionView,
    arguments: Seq<ExpressionView>,
    environment: Map<Seq<char>, ExpressionView>,
    host: spec_fn(RequestView) -> Event,
    fuel: nat,
)
    requires
        application(procedure, arguments, environment, host, fuel) is Some,
    ensures
        application(procedure, arguments, environment, host, fuel + 1) == application(
            procedure,
            arguments,
            environment,
            host,
            fuel,
        ),
    decreases fuel, 1nat,
{
    match procedure {
        ExpressionView::CompoundProcedure { parameters, body, environment: captured } => {
            if arguments.len() == parameters.len() {
                lemma_evaluation_one_more(
                    *body,
                    call_environment(environment, captured, parameters, arguments),
                    host,
                    fuel,
                );
            }
        },
        _ => {},
    }
}

/// With more fuel, an evaluation comes to the same.
pub proof fn lemma_evaluation_more(
    expression: ExpressionView,
    environment: Map<Seq<char>, ExpressionView>,
    host: spec_fn(RequestView) -> Event,
    fuel: nat,
    more: nat,
)
    requires
        evaluation(expression, environment, host, fuel) is Some,
        fuel <= more,
    ensures
        evaluation(expression, environment, host, more) == evaluation(
            expression,
            environment,
            host,
            fuel,
        ),
    decreases more - fuel,
{
    if fuel < more {
        lemma_evaluation_more(expression, environment, host, fuel, (more - 1) as nat);
        lemma_evaluation_one_more(expression, environment, host, (more - 1) as nat);
    }
}

/// With more fuel, an `and` comes to the same.
pub proof fn lemma_conjunction_more(
    remaining: Seq<ExpressionView>,
    environment: Map<Seq<char>, ExpressionView>,
    host: spec_fn(RequestView) -> Event,
    fuel: nat,
    more: nat,
)
    requires
        conjunction(remaining, environment, host, fuel) is Some,
        fuel <= more,
    ensures
        conjunction(remaining, environment, host, more) == conjunction(
            remaining,
            environment,
            host,
            fuel,
        ),
    decreases more - fuel,
{
    if fuel < more {
        lemma_conjunction_more(remaining, environment, host, fuel, (more - 1) as nat);
        lemma_conjunction_one_more(remaining, environment, host, (more - 1) as nat);
    }
}

/// With more fuel, an `or` comes to the same.
pub proof fn lemma_disjunction_more(
    remaining: Seq<ExpressionView>,
    environment: Map<Seq<char>, ExpressionView>,
    host: spec_fn(RequestView) -> Event,
    fuel: nat,
    more: nat,
)
    requires
        disjunction(remaining, environment, host, fuel) is Some,
        fuel <= more,
    ensures
        disjunction(remaining, environment, host, more) == disjunction(
            remaining,
            environment,
            host,
            fuel,
        ),
    decreases more - fuel,
{
    if fuel < more {
        lemma_disjunction_more(remaining, environment, host, fuel, (more - 1) as nat);
        lemma_disjunction_one_more(remaining, environment, host, (more - 1) as nat);
    }
}

/// With more fuel, a sequence comes to the same.
pub proof fn lemma_succession_more(
    value: ExpressionView,
    remaining: Seq<ExpressionView>,
    environment: Map<Seq<char>, ExpressionView>,
    host: spec_fn(RequestView) -> Event,
    fuel: nat,
    more: nat,
)
    requires
        succession(value, remaining, environment, host, fuel) is Some,
        fuel <= more,
    ensures
        succession(value, remaining, environment, host, more) == succession(
            value,
            remaining,
            environment,
            host,
            fuel,
        ),
    decreases more - fuel,
{
    if fuel < more {
        lemma_succession_more(value, remaining, environment, host, fuel, (more - 1) as nat);
        lemma_succession_one_more(value, remaining, environment, host, (more - 1) as nat);
    }
}

/// With more fuel, the arguments of an application and the application
/// come to the same.
pub proof fn lemma_operands_more(
    procedure: ExpressionView,
    evaluated: Seq<ExpressionView>,
    remaining: Seq<ExpressionView>,
    environment: Map<Seq<char>, ExpressionView>,
    host: spec_fn(RequestView) -> Event,
    fuel: nat,
    more: nat,
)
    requires
        operands(procedure, evaluated, remaining, environment, host, fuel) is Some,
        fuel <= more,
    ensures
        operands(procedure, evaluated, remaining, environment, host, more) == operands(
            procedure,
            evaluated,
            remaining,
            environment,
            host,
            fuel,
        ),
    decreases more - fuel,
{
    if fuel < more {
        lemma_operands_more(
            procedure,
            evaluated,
            remaining,
            environment,
            host,
            fuel,
            (more - 1) as nat,
        );
        lemma_operands_one_more(
            procedure,
            evaluated,
            remaining,
            environment,
            host,
            (more - 1) as nat,
        );
    }
}

} // verus!
