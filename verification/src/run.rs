//! Runs of the machine, and what holds of them all.

use vstd::prelude::*;
use crate::evaluation_errors::LisrEvaluationErrorView;
use crate::expression::ExpressionView;
use crate::host::{Event, RequestView};
use crate::transition::{
    bind_parameters, call_environment, initial_model, returning, step_model, ControlView,
    EvaluationView, FrameView,
};

verus! {

/// The event that the host hands to the machine in `state`: its answer
/// where a request stands.
pub open spec fn event_model(state: EvaluationView, host: spec_fn(RequestView) -> Event) -> Event {
    match state.control {
        ControlView::Await { request } => host(request),
        _ => Event::Resume,
    }
}

/// The state after `steps` steps from `state`, with `host` answering the
/// requests.
pub open spec fn run_model(
    state: EvaluationView,
    host: spec_fn(RequestView) -> Event,
    steps: nat,
) -> EvaluationView
    decreases steps,
{
    if steps == 0 {
        state
    } else {
        run_model(step_model(state, event_model(state, host)), host, (steps - 1) as nat)
    }
}

/// The result of a state in which evaluation is over.
pub open spec fn result_model(state: EvaluationView) -> Option<
    Result<ExpressionView, LisrEvaluationErrorView>,
> {
    match state.control {
        ControlView::Finished { result } => Some(result),
        _ => None,
    }
}

/// Steps add up: going on for `more` steps after `steps` is going
/// `steps + more` steps.
pub proof fn law_run_in_parts(
    state: EvaluationView,
    host: spec_fn(RequestView) -> Event,
    steps: nat,
    more: nat,
)
    ensures
        run_model(run_model(state, host, steps), host, more) == run_model(
            state,
            host,
            steps + more,
        ),
    decreases steps,
{
    if steps > 0 {
        law_run_in_parts(
            step_model(state, event_model(state, host)),
            host,
            (steps - 1) as nat,
            more,
        );
    }
}

/// Once evaluation is over it stays over, with the same result: no event
/// and no further step changes the state.
pub proof fn law_result_is_final(
    state: EvaluationView,
    host: spec_fn(RequestView) -> Event,
    steps: nat,
)
    requires
        result_model(state) is Some,
    ensures
        run_model(state, host, steps) == state,
    decreases steps,
{
    if steps > 0 {
        law_result_is_final(state, host, (steps - 1) as nat);
    }
}

/// Evaluation is deterministic: with the same answers from the host, two
/// runs from the same state that both come to an end come to the same
/// result, however many steps each is given.
pub proof fn law_one_result(
    state: EvaluationView,
    host: spec_fn(RequestView) -> Event,
    first: nat,
    second: nat,
)
    requires
        result_model(run_model(state, host, first)) is Some,
        result_model(run_model(state, host, second)) is Some,
    ensures
        run_model(state, host, first) == run_model(state, host, second),
{
    if first <= second {
        law_run_in_parts(state, host, first, (second - first) as nat);
        law_result_is_final(run_model(state, host, first), host, (second - first) as nat);
    } else {
        law_run_in_parts(state, host, second, (first - second) as nat);
        law_result_is_final(run_model(state, host, second), host, (first - second) as nat);
    }
}

/// A program without expressions evaluates to the empty list, without an
/// error and without a question to the host.
pub proof fn law_empty_program(host: spec_fn(RequestView) -> Event, steps: nat)
    requires
        steps >= 2,
    ensures
        result_model(run_model(initial_model(Seq::empty()), host, steps)) == Some(
            Ok::<ExpressionView, LisrEvaluationErrorView>(ExpressionView::EmptyList),
        ),
{
    let start = initial_model(Seq::empty());
    let first = step_model(start, event_model(start, host));
    let environment = start.environment;
    assert(start.continuation.last() == FrameView::Sequence { remaining: Seq::empty() });
    assert(start.continuation.drop_last() =~= Seq::<FrameView>::empty());
    assert(first == returning(ExpressionView::EmptyList, environment, Seq::empty()));
    let second = step_model(first, event_model(first, host));
    assert(result_model(second) == Some(
        Ok::<ExpressionView, LisrEvaluationErrorView>(ExpressionView::EmptyList),
    ));
    assert(run_model(start, host, 2) == second) by {
        assert(run_model(second, host, 0) == second);
        assert(run_model(first, host, 1) == second);
    }
    law_run_in_parts(start, host, 2, (steps - 2) as nat);
    law_result_is_final(second, host, (steps - 2) as nat);
}

/// A closure goes on seeing what it captured: in the environment in which
/// the body of a compound procedure runs, a name that the procedure captured
/// and that is none of its parameters has the captured value, whatever the
/// caller has bound to it since.
pub proof fn law_captured_bindings_win(
    caller: Map<Seq<char>, ExpressionView>,
    captured: Map<Seq<char>, ExpressionView>,
    parameters: Seq<Seq<char>>,
    arguments: Seq<ExpressionView>,
    name: Seq<char>,
)
    requires
        parameters.len() == arguments.len(),
        captured.contains_key(name),
        !parameters.contains(name),
    ensures
        call_environment(caller, captured, parameters, arguments).contains_key(name),
        call_environment(caller, captured, parameters, arguments)[name] == captured[name],
{
    law_parameters_bind_last(caller.union_prefer_right(captured), parameters, arguments, name);
}

/// A name that the procedure did not capture and that is none of its
/// parameters is seen as the caller has it.
pub proof fn law_caller_bindings_show_through(
    caller: Map<Seq<char>, ExpressionView>,
    captured: Map<Seq<char>, ExpressionView>,
    parameters: Seq<Seq<char>>,
    arguments: Seq<ExpressionView>,
    name: Seq<char>,
)
    requires
        parameters.len() == arguments.len(),
        !captured.contains_key(name),
        !parameters.contains(name),
    ensures
        call_environment(caller, captured, parameters, arguments).contains_key(name)
            == caller.contains_key(name),
        caller.contains_key(name) ==> call_environment(
            caller,
            captured,
            parameters,
            arguments,
        )[name] == caller[name],
{
    law_parameters_bind_last(caller.union_prefer_right(captured), parameters, arguments, name);
}

/// The scope of a call: in the environment in which the body of a compound
/// procedure runs, a name that is none of its parameters is bound where the
/// procedure captured it or the caller has it bound; it has the captured
/// value where there is one, and the caller's else.
pub proof fn law_scope_of_a_call(
    caller: Map<Seq<char>, ExpressionView>,
    captured: Map<Seq<char>, ExpressionView>,
    parameters: Seq<Seq<char>>,
    arguments: Seq<ExpressionView>,
    name: Seq<char>,
)
    requires
        parameters.len() == arguments.len(),
        !parameters.contains(name),
    ensures
        call_environment(caller, captured, parameters, arguments).contains_key(name) == (
        captured.contains_key(name) || caller.contains_key(name)),
        captured.contains_key(name) ==> call_environment(
            caller,
            captured,
            parameters,
            arguments,
        )[name] == captured[name],
        !captured.contains_key(name) && caller.contains_key(name) ==> call_environment(
            caller,
            captured,
            parameters,
            arguments,
        )[name] == caller[name],
{
    if captured.contains_key(name) {
        law_captured_bindings_win(caller, captured, parameters, arguments, name);
    } else {
        law_caller_bindings_show_through(caller, captured, parameters, arguments, name);
    }
}

/// Binding parameters changes the environment at their names only, and
/// binds each parameter to the argument at its last place among them.
pub proof fn law_parameters_bind_last(
    environment: Map<Seq<char>, ExpressionView>,
    parameters: Seq<Seq<char>>,
    arguments: Seq<ExpressionView>,
    name: Seq<char>,
)
    requires
        parameters.len() == arguments.len(),
    ensures
        !parameters.contains(name) ==> (bind_parameters(
            environment,
            parameters,
            arguments,
        ).contains_key(name) == environment.contains_key(name)) && (environment.contains_key(name)
            ==> bind_parameters(environment, parameters, arguments)[name] == environment[name]),
        forall|i: int|
            0 <= i < parameters.len() && parameters[i] == name && (forall|j: int|
                i < j < parameters.len() ==> parameters[j] != name) ==> bind_parameters(
                environment,
                parameters,
                arguments,
            ).contains_key(name) && bind_parameters(environment, parameters, arguments)[name]
                == arguments[i],
    decreases parameters.len(),
{
    if parameters.len() > 0 {
        law_parameters_bind_last(environment, parameters.drop_last(), arguments.drop_last(), name);
        if !parameters.contains(name) {
            assert(parameters.last() != name);
            assert forall|k: int| 0 <= k < parameters.drop_last().len() implies parameters.drop_last()[k]
                != name by {
                assert(parameters[k] == parameters.drop_last()[k]);
            }
        }
        assert forall|i: int|
            0 <= i < parameters.len() && parameters[i] == name && (forall|j: int|
                i < j < parameters.len() ==> parameters[j] != name) implies bind_parameters(
            environment,
            parameters,
            arguments,
        ).contains_key(name) && bind_parameters(environment, parameters, arguments)[name]
            == arguments[i] by {
            if i < parameters.len() - 1 {
                assert(parameters.last() != name);
                assert(parameters.drop_last()[i] == name);
                assert forall|j: int| i < j < parameters.drop_last().len() implies parameters.drop_last()[j]
                    != name by {
                    assert(parameters.drop_last()[j] == parameters[j]);
                }
                assert(arguments.drop_last()[i] == arguments[i]);
            }
        }
    }
}

} // verus!
