use lisr::evaluate::{
    primitive_arithmetic, primitive_car, primitive_cdr, primitive_equals,
    primitive_is_empty_list, primitive_less_than, primitive_remainder, LisrEvaluationError,
    Outcome,
};
use lisr::expression::Expression;
use lisr::host::{Operator, Relation, Request};
use lisr::token::Number;

fn bits(value: f64) -> Number {
    Number::Binary { bits: value.to_bits() }
}

fn number(value: f64) -> Expression {
    Expression::Number { value: bits(value) }
}

fn string(text: &str) -> Expression {
    Expression::String { value: String::from(text) }
}

fn pair(first: Expression, rest: Expression) -> Expression {
    Expression::Cons { first: Box::new(first), rest: Box::new(rest) }
}

fn runtime_error(reason: &'static str) -> LisrEvaluationError {
    LisrEvaluationError::RuntimeError { reason }
}

fn type_error() -> Outcome {
    Outcome::Error { error: LisrEvaluationError::TypeError }
}

#[test]
fn car_and_cdr_take_one_pair_apart() {
    assert_eq!(primitive_car(vec![pair(number(1.0), string("b"))]), Ok(number(1.0)));
    assert_eq!(primitive_cdr(vec![pair(number(1.0), string("b"))]), Ok(string("b")));
    assert_eq!(
        primitive_car(vec![]),
        Err(runtime_error("'car' requires one 'cons' argument"))
    );
    assert_eq!(
        primitive_cdr(vec![Expression::EmptyList]),
        Err(runtime_error("'cdr' requires one 'cons' argument"))
    );
    assert_eq!(
        primitive_car(vec![pair(number(1.0), number(2.0)), number(3.0)]),
        Err(runtime_error("'car' function requires one 'cons' argument"))
    );
    assert_eq!(
        primitive_cdr(vec![number(3.0), pair(number(1.0), number(2.0))]),
        Err(runtime_error("'cdr' function requires one 'cons' argument"))
    );
}

#[test]
fn empty_list_takes_exactly_one_argument() {
    let shape = "'empty-list?' function requires exactly one argument";
    assert_eq!(primitive_is_empty_list(vec![Expression::EmptyList]), Ok(Expression::True));
    assert_eq!(primitive_is_empty_list(vec![Expression::False]), Ok(Expression::False));
    assert_eq!(
        primitive_is_empty_list(vec![pair(Expression::EmptyList, Expression::EmptyList)]),
        Ok(Expression::False)
    );
    assert_eq!(primitive_is_empty_list(vec![]), Err(runtime_error(shape)));
    assert_eq!(
        primitive_is_empty_list(vec![Expression::EmptyList, Expression::EmptyList]),
        Err(runtime_error(shape))
    );
}

#[test]
fn remainder_asks_for_the_remainder_of_two_numbers() {
    assert_eq!(
        primitive_remainder(vec![number(15.0), number(10.0)]),
        Outcome::Ask {
            request: Request::Arithmetic {
                operator: Operator::Remainder,
                left: bits(15.0),
                right: bits(10.0),
            }
        }
    );
    assert_eq!(primitive_remainder(vec![number(15.0), string("a")]), type_error());
    assert_eq!(primitive_remainder(vec![string("a"), string("b")]), type_error());
    let shape = "Remainder requires two arguments - a dividend and a divisor";
    assert_eq!(
        primitive_remainder(vec![number(1.0)]),
        Outcome::Error { error: runtime_error(shape) }
    );
    assert_eq!(
        primitive_remainder(vec![number(1.0), number(2.0), number(3.0)]),
        Outcome::Error { error: runtime_error(shape) }
    );
}

#[test]
fn less_than_compares_two_numbers_or_two_strings() {
    assert_eq!(
        primitive_less_than(vec![number(3.0), number(4.0)]),
        Outcome::Ask {
            request: Request::Compare { relation: Relation::Less, left: bits(3.0), right: bits(4.0) }
        }
    );
    assert_eq!(
        primitive_less_than(vec![string("a"), string("b")]),
        Outcome::Value { value: Expression::True }
    );
    assert_eq!(
        primitive_less_than(vec![string("b"), string("a")]),
        Outcome::Value { value: Expression::False }
    );
    assert_eq!(primitive_less_than(vec![number(1.0), string("a")]), type_error());
    assert_eq!(primitive_less_than(vec![Expression::True, Expression::False]), type_error());
    let shape = "'Less than' function requires two arguments";
    assert_eq!(primitive_less_than(vec![]), Outcome::Error { error: runtime_error(shape) });
    assert_eq!(
        primitive_less_than(vec![number(1.0), number(2.0), number(3.0)]),
        Outcome::Error { error: runtime_error(shape) }
    );
}

#[test]
fn equals_compares_two_numbers_or_two_strings() {
    assert_eq!(
        primitive_equals(number(1.0), &number(2.0)),
        Outcome::Ask {
            request: Request::Compare { relation: Relation::Equal, left: bits(1.0), right: bits(2.0) }
        }
    );
    assert_eq!(
        primitive_equals(string("a"), &string("a")),
        Outcome::Value { value: Expression::True }
    );
    assert_eq!(
        primitive_equals(string("a"), &string("ab")),
        Outcome::Value { value: Expression::False }
    );
    let kinds = "Equals is only implemented for pairs of strings or numbers";
    assert_eq!(
        primitive_equals(string("a"), &number(1.0)),
        Outcome::Error { error: runtime_error(kinds) }
    );
    assert_eq!(
        primitive_equals(Expression::True, &Expression::True),
        Outcome::Error { error: runtime_error(kinds) }
    );
}

#[test]
fn arithmetic_combines_two_numbers_and_joins_two_strings() {
    for operator in [Operator::Add, Operator::Subtract, Operator::Multiply, Operator::Divide] {
        assert_eq!(
            primitive_arithmetic(operator, number(6.0), number(3.0)),
            Outcome::Ask {
                request: Request::Arithmetic { operator, left: bits(6.0), right: bits(3.0) }
            }
        );
        assert_eq!(primitive_arithmetic(operator, number(6.0), string("a")), type_error());
        assert_eq!(primitive_arithmetic(operator, Expression::True, number(1.0)), type_error());
    }
    assert_eq!(
        primitive_arithmetic(Operator::Add, string("a"), string(" b")),
        Outcome::Value { value: string("a b") }
    );
    for operator in [Operator::Subtract, Operator::Multiply, Operator::Divide] {
        assert_eq!(primitive_arithmetic(operator, string("a"), string("b")), type_error());
    }
}
