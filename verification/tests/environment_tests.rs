use lisr::environment::Environment;
use lisr::evaluate::LisrEvaluationError;
use lisr::expression::{Expression, Identifier};
use lisr::token::Number;

fn number(value: f64) -> Expression {
    Expression::Number { value: Number::Binary { bits: value.to_bits() } }
}

#[test]
fn should_store_a_variable() {
    let mut env = Environment::new();

    let variable = Identifier {
        name: String::from("num"),
    };
    let value = number(42.0);

    env.define_variable(&variable, &value);

    let result = env.lookup_value(&variable);

    assert_eq!(result, Ok(number(42.0)));
}

#[test]
fn should_return_an_error_for_undefined_variable() {
    let env = Environment::new();

    let variable = Identifier {
        name: String::from("undefined"),
    };

    let error = env.lookup_value(&variable).unwrap_err();

    assert_eq!(error, LisrEvaluationError::UndefinedIdentifier);
}

#[test]
fn redefinition_overwrites_the_binding() {
    let mut env = Environment::new();
    let variable = Identifier { name: String::from("x") };

    env.define_variable(&variable, &number(1.0));
    env.define_variable(&variable, &number(2.0));

    assert_eq!(env.lookup_value(&variable), Ok(number(2.0)));
    assert_eq!(env.into_iter().len(), 1);
}

#[test]
fn bindings_of_other_names_stay_as_they_are() {
    let mut env = Environment::new();
    let x = Identifier { name: String::from("x") };
    let y = Identifier { name: String::from("y") };

    env.define_variable(&x, &number(1.0));
    env.define_variable(&y, &Expression::True);
    env.define_variable(&x, &Expression::EmptyList);

    assert_eq!(env.lookup_value(&y), Ok(Expression::True));
    assert_eq!(env.lookup_value(&x), Ok(Expression::EmptyList));
}

#[test]
fn into_iter_hands_out_each_name_once() {
    let mut env = Environment::new();
    let x = Identifier { name: String::from("x") };
    let y = Identifier { name: String::from("y") };

    env.define_variable(&x, &number(1.0));
    env.define_variable(&y, &number(2.0));
    env.define_variable(&x, &number(3.0));

    let mut bindings = env.into_iter();
    bindings.sort_by(|left, right| left.0.name.cmp(&right.0.name));

    assert_eq!(bindings, vec![(x, number(3.0)), (y, number(2.0))]);
}

#[test]
fn a_copy_of_an_environment_is_independent() {
    let mut env = Environment::new();
    let x = Identifier { name: String::from("x") };
    env.define_variable(&x, &number(1.0));

    let copy = env.duplicate();
    env.define_variable(&x, &number(2.0));

    assert_eq!(copy.lookup_value(&x), Ok(number(1.0)));
    assert_eq!(env.lookup_value(&x), Ok(number(2.0)));
}

#[test]
fn a_clone_of_an_expression_equals_it() {
    let mut env = Environment::new();
    env.define_variable(&Identifier { name: String::from("x") }, &number(1.0));
    let closure = Expression::CompoundProcedure {
        parameters: vec![lisr::expression::Parameter { name: String::from("y") }],
        body: Box::new(Expression::And {
            operands: vec![Expression::True, Expression::Identifier(Identifier { name: String::from("y") })],
        }),
        environment: Box::new(env.clone()),
    };

    assert_eq!(closure.clone(), closure);
    assert_eq!(env.clone(), env);
}

fn name(text: &str) -> Identifier {
    Identifier { name: String::from(text) }
}

fn parameter(text: &str) -> lisr::expression::Parameter {
    lisr::expression::Parameter { name: String::from(text) }
}

#[test]
fn the_frame_of_a_call_holds_captured_bindings_over_the_callers() {
    let mut caller = Environment::new();
    caller.define_variable(&name("n"), &number(2.0));
    caller.define_variable(&name("m"), &number(10.0));
    let mut captured = Environment::new();
    captured.define_variable(&name("n"), &number(1.0));

    let frame = lisr::evaluate::call_frame(&caller, captured, &vec![], &vec![]).unwrap();

    // Captured: as it was captured, whatever the caller has since.
    assert_eq!(frame.lookup_value(&name("n")), Ok(number(1.0)));
    // Not captured: as the caller has it.
    assert_eq!(frame.lookup_value(&name("m")), Ok(number(10.0)));
    // Neither: not defined.
    assert_eq!(frame.lookup_value(&name("k")), Err(LisrEvaluationError::UndefinedIdentifier));
    // The caller's own environment is as it was.
    assert_eq!(caller.lookup_value(&name("n")), Ok(number(2.0)));
}

#[test]
fn the_frame_of_a_call_binds_parameters_last() {
    let mut caller = Environment::new();
    caller.define_variable(&name("x"), &number(1.0));
    let mut captured = Environment::new();
    captured.define_variable(&name("x"), &number(2.0));
    captured.define_variable(&name("y"), &number(3.0));

    let frame = lisr::evaluate::call_frame(
        &caller,
        captured,
        &vec![parameter("x"), parameter("z"), parameter("z")],
        &vec![number(4.0), number(5.0), number(6.0)],
    )
    .unwrap();

    assert_eq!(frame.lookup_value(&name("x")), Ok(number(4.0)));
    assert_eq!(frame.lookup_value(&name("y")), Ok(number(3.0)));
    assert_eq!(frame.lookup_value(&name("z")), Ok(number(6.0)));
}

#[test]
fn the_frame_of_a_call_needs_as_many_arguments_as_parameters() {
    let error = LisrEvaluationError::RuntimeError {
        reason: "Function called with a wrong number of arguments",
    };

    assert_eq!(
        lisr::evaluate::call_frame(
            &Environment::new(),
            Environment::new(),
            &vec![parameter("x")],
            &vec![]
        ),
        Err(LisrEvaluationError::RuntimeError {
            reason: "Function called with a wrong number of arguments"
        })
    );
    assert_eq!(
        lisr::evaluate::call_frame(
            &Environment::new(),
            Environment::new(),
            &vec![],
            &vec![number(1.0)]
        ),
        Err(error)
    );
}
