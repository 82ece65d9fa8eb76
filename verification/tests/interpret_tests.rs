use lisr::evaluate::{Evaluation, LisrEvaluationError};
use lisr::host::{Action, Event, Operator, Relation, Request};
use lisr::expression::Expression;
use lisr::lisr_error::LisrError;
use lisr::parse::LisrParseError;
use lisr::scan::LisrScanError;
use lisr::token::Number;

fn number(value: f64) -> Expression {
    Expression::Number { value: Number::Binary { bits: value.to_bits() } }
}

fn value_of(number: &Number) -> f64 {
    match number {
        Number::Binary { bits } => f64::from_bits(*bits),
        Number::Decimal { negative, digits } => {
            let value: f64 = digits.parse().unwrap();
            if *negative {
                -1.0 * value
            } else {
                value
            }
        }
    }
}

/// The host of the machine: computes what it asks for.
fn answer(request: &Request) -> Event {
    match request {
        Request::Convert { negative, digits } => {
            let value: f64 = digits.parse().unwrap();
            let value = if *negative { -1.0 * value } else { value };
            Event::Number { bits: value.to_bits() }
        }
        Request::Arithmetic { operator, left, right } => {
            let (left, right) = (value_of(left), value_of(right));
            let value = match operator {
                Operator::Add => left + right,
                Operator::Subtract => left - right,
                Operator::Multiply => left * right,
                Operator::Divide => left / right,
                Operator::Remainder => left % right,
            };
            Event::Number { bits: value.to_bits() }
        }
        Request::Compare { relation, left, right } => {
            let (left, right) = (value_of(left), value_of(right));
            let holds = match relation {
                Relation::Equal => left == right,
                Relation::Less => left < right,
            };
            Event::Truth { holds }
        }
    }
}

fn run(evaluation: Evaluation) -> Result<Expression, LisrEvaluationError> {
    let mut evaluation = evaluation;
    let mut event = Event::Resume;
    loop {
        let (next, action) = evaluation.step(event);
        evaluation = next;
        event = match action {
            Action::Continue => Event::Resume,
            Action::Ask { request } => answer(&request),
            Action::Finish { result } => return result,
        };
    }
}

fn interpret(input: &str) -> Result<Expression, LisrError<'_>> {
    let evaluation = lisr::interpret::interpret(input)?;
    let result = run(evaluation)?;
    Ok(result)
}

#[test]
fn test_primitive_arithmetic_operations() {
    let input = "
        (+ (- 10 5)
           (* 2 2.5)
           (/ 50 10)
           (remainder 15 10)
        )
    ";

    let result = interpret(input).unwrap();

    assert_eq!(result, number(20.0));
}

#[test]
fn test_logical_operations() {
    let input = "
        (and (= 1 1) (< 3 4) (or false true))
    ";

    let result = interpret(input).unwrap();

    assert_eq!(result, Expression::True);
}

#[test]
fn test_string_concatenation() {
    let input = "(+ \"a\" \" long\" \" string\")";

    let result = interpret(input).unwrap();

    assert_eq!(
        result,
        Expression::String {
            value: String::from("a long string")
        }
    );
}

#[test]
fn test_definition() {
    let input = "
        (define x 5)
        x
    ";

    let result = interpret(input).unwrap();

    assert_eq!(result, number(5.0));
}

#[test]
fn test_function_definition() {
    let input = "
        (define (square x) (* x x))
        (square 4)
    ";

    let result = interpret(input).unwrap();

    assert_eq!(result, number(16.0));
}

#[test]
fn test_assignment() {
    let input = "
        (define x 5)
        (set! x 6)
        x
    ";

    let result = interpret(input).unwrap();

    assert_eq!(result, number(6.0));
}

#[test]
fn test_closures() {
    let input = "
        (define (make-adder n) (lambda (x) (+ x n)))
        (define two-plus (make-adder 2))
        (two-plus 3)
    ";

    let result = interpret(input).unwrap();

    assert_eq!(result, number(5.0));
}

#[test]
fn test_if() {
    let input = "(if false 1 (if true 2 3))";

    let result = interpret(input).unwrap();

    assert_eq!(result, number(2.0));
}

#[test]
fn test_begin_block() {
    let input = "
        (define x 0)
        (define y 0)
        (if true
            (begin (set! x 1)
                   (set! y 1)
            )
            ()
        )
        (+ x y)
    ";

    let result = interpret(input).unwrap();

    assert_eq!(result, number(2.0));
}

#[test]
fn test_cons() {
    let input = "
        (define xs (cons 1 2))
        (+ (car xs) (cdr xs))
    ";

    let result = interpret(input).unwrap();

    assert_eq!(result, number(3.0));
}

#[test]
fn test_empty_list() {
    let input = "
        (define one-two-three (cons 1 (cons 2 (cons 3 ()))))
        (empty-list? one-two-three)
    ";

    let result = interpret(input).unwrap();

    assert_eq!(result, Expression::False);
}

#[test]
fn test_recursive_procedure() {
    let input = "
        (define one-two-three (cons 1 (cons 2 (cons 3 ()))))

        (define (last-element xs)
            (if (empty-list? xs)
                ()
                (if (empty-list? (cdr xs))
                    (car xs)
                    (last-element (cdr xs))
                )
            )
        )

        (last-element one-two-three)
    ";

    let result = interpret(input).unwrap();

    assert_eq!(result, number(3.0));
}

// And a couple of fun programs:

#[test]
fn test_gcd() {
    let input = "
        (define (gcd a b)
            (if (= b 0)
                a
                (gcd b (remainder a b))
            )
        )

        (gcd 16 28)
    ";

    let result = interpret(input).unwrap();

    assert_eq!(result, number(4.0));
}

#[test]
fn test_fast_expt() {
    let input = "
    (define (even? n)
        (= (remainder n 2) 0)
    )

    (define (fast-expt-inner b n a)
        (if (= n 0)
            a
            (if (even? n)
                (fast-expt-inner (* b b) (/ n 2) a)
                (fast-expt-inner b (- n 1) (* a b))
            )
        )
    )

    (define (fast-expt b n) (fast-expt-inner b n 1))

    (fast-expt 2 11)
    ";

    let result = interpret(input).unwrap();

    assert_eq!(result, number(2048.0));
}

#[test]
fn test_square_root() {
    let input = "
        (define (square x) (* x x))
        (define (average x y) (/ (+ x y) 2))
        (define (abs x)
            (if (< x 0)
                (- 0 x)
                x
            )
        )

        (define (sqrt x)
            (begin
                (define (good-enough? guess)
                    (<
                        (/
                            (abs (- (square guess) x))
                            x
                        )
                        0.0001
                    )
                )

                (define (improve-guess guess)
                    (average guess (/ x guess))
                )

                (define (sqrt-iter guess)
                    (if (good-enough? guess)
                        guess
                        (sqrt-iter (improve-guess guess))
                    )
                )

                (sqrt-iter 1.0)
            )
        )

        (sqrt 9)
    ";

    let result = interpret(input).unwrap();
    if let Expression::Number { value } = result {
        assert!(f64::abs(value_of(&value) - 3.0) < 0.0001)
    } else {
        panic!("The result of a square root function should be a number.");
    }
}

#[test]
fn test_append() {
    let input = "
        (define (append xs ys)
            (if (empty-list? xs)
                ys
                (cons (car xs) (append (cdr xs) ys))
            )
        )

        (define xs (cons 1 (cons 2 ())))
        (define ys (cons 3 (cons 4 ())))

        (append xs ys)
    ";

    let result = interpret(input).unwrap();

    assert_eq!(
        result,
        Expression::Cons {
            first: Box::new(number(1.0)),
            rest: Box::new(Expression::Cons {
                first: Box::new(number(2.0)),
                rest: Box::new(Expression::Cons {
                    first: Box::new(number(3.0)),
                    rest: Box::new(Expression::Cons {
                        first: Box::new(number(4.0)),
                        rest: Box::new(Expression::EmptyList)
                    })
                })
            })
        }
    );
}

#[test]
fn test_accumulate() {
    let input = "
        (define (accumulate op initial sequence)
            (if (empty-list? sequence)
                initial
                (op (car sequence) (accumulate op initial (cdr sequence)))
            )
        )

        (define (sum xs) (accumulate + 0 xs))

        (define one-two-three (cons 1 (cons 2 (cons 3 ()))))

        (sum one-two-three)
    ";

    let result = interpret(input).unwrap();

    assert_eq!(result, number(6.0));
}

fn runtime_error(reason: &'static str) -> LisrError<'static> {
    LisrError::Evaluation(LisrEvaluationError::RuntimeError { reason })
}

#[test]
fn an_empty_program_is_the_empty_list() {
    assert_eq!(interpret(""), Ok(Expression::EmptyList));
    assert_eq!(interpret("  \n "), Ok(Expression::EmptyList));
}

#[test]
fn the_same_text_comes_to_the_same_result() {
    let input = "
        (define (count n) (if (= n 0) 0 (+ 1 (count (- n 1)))))
        (cons (count 5) (cons \"five\" (undefined)))
    ";

    assert_eq!(interpret(input), interpret(input));
    assert_eq!(interpret(input), Err(LisrError::Evaluation(LisrEvaluationError::UndefinedIdentifier)));
    assert_eq!(interpret("(count"), interpret("(count"));
}

#[test]
fn test_pairs() {
    assert_eq!(interpret("(car (cons 1 2))"), Ok(number(1.0)));
    assert_eq!(interpret("(cdr (cons 1 2))"), Ok(number(2.0)));
    assert_eq!(interpret("(empty-list? ())"), Ok(Expression::True));
    assert_eq!(interpret("(empty-list? (cons 1 ()))"), Ok(Expression::False));
}

#[test]
fn test_error_cases() {
    assert_eq!(
        interpret("(+ )"),
        Err(runtime_error("An arithmetic function cannot be invoked without any arguments"))
    );
    assert_eq!(
        interpret("(+ 1 \"a\")"),
        Err(LisrError::Evaluation(LisrEvaluationError::TypeError))
    );
    assert_eq!(
        interpret("nothing"),
        Err(LisrError::Evaluation(LisrEvaluationError::UndefinedIdentifier))
    );
    assert_eq!(
        interpret("(if 1 2 3)"),
        Err(runtime_error("Predicate of an if expression did not evaluate to a boolean value"))
    );
    assert_eq!(interpret("(+ 1 2"), Err(LisrError::Parse(LisrParseError::UnclosedList)));
    assert_eq!(
        interpret(")"),
        Err(LisrError::Parse(LisrParseError::UnexpectedRightParentheses))
    );
    assert_eq!(interpret("'"), Err(LisrError::Scan(LisrScanError::EmptyQuotation)));
    assert_eq!(
        interpret("(cons 1)"),
        Err(LisrError::Parse(LisrParseError::ConsRequiresTwoArguments))
    );
}

#[test]
fn a_closure_keeps_the_bindings_that_it_captured() {
    // The closure was made while x was 1: it goes on seeing 1.
    let input = "
        (define x 1)
        (define (get) x)
        (define x 2)
        (get)
    ";
    assert_eq!(interpret(input), Ok(number(1.0)));

    let input = "
        (define x 1)
        (define (get) x)
        (set! x 2)
        (cons (get) x)
    ";
    assert_eq!(
        interpret(input),
        Ok(Expression::Cons { first: Box::new(number(1.0)), rest: Box::new(number(2.0)) })
    );
}

#[test]
fn a_procedure_sees_what_its_caller_has_bound_since() {
    // y was bound after the closure was made: the caller's binding is seen.
    let input = "
        (define (get) y)
        (define y 7)
        (get)
    ";
    assert_eq!(interpret(input), Ok(number(7.0)));
}

#[test]
fn a_parameter_hides_the_other_bindings_of_its_name() {
    let input = "
        (define x 1)
        (define (identity x) x)
        (cons (identity 5) x)
    ";
    assert_eq!(
        interpret(input),
        Ok(Expression::Cons { first: Box::new(number(5.0)), rest: Box::new(number(1.0)) })
    );
    assert_eq!(interpret("((lambda (x x) x) 1 2)"), Ok(number(2.0)));
}

#[test]
fn what_a_procedure_defines_stays_in_its_own_frame() {
    let input = "
        (define x 1)
        (define (change) (begin (set! x 2) (define z 3) x))
        (cons (change) x)
    ";
    assert_eq!(
        interpret(input),
        Ok(Expression::Cons { first: Box::new(number(2.0)), rest: Box::new(number(1.0)) })
    );
    let input = "
        (define (make) (define z 3))
        (make)
        z
    ";
    assert_eq!(
        interpret(input),
        Err(LisrError::Evaluation(LisrEvaluationError::UndefinedIdentifier))
    );
}

#[test]
fn a_definition_comes_to_its_identifier_and_an_assignment_to_its_value() {
    assert_eq!(
        interpret("(define x 5)"),
        Ok(Expression::Identifier(lisr::expression::Identifier { name: String::from("x") }))
    );
    assert_eq!(interpret("(define x 5) (set! x (+ x 1))"), Ok(number(6.0)));
    assert_eq!(
        interpret("(set! x 5)"),
        Err(LisrError::Evaluation(LisrEvaluationError::UndefinedIdentifier))
    );
}

#[test]
fn and_and_or_stop_at_the_value_that_decides() {
    assert_eq!(interpret("(and)"), Ok(Expression::True));
    assert_eq!(interpret("(or)"), Ok(Expression::False));
    assert_eq!(interpret("(and true false (undefined))"), Ok(Expression::False));
    assert_eq!(interpret("(or false true (undefined))"), Ok(Expression::True));
    assert_eq!(interpret("(and true true)"), Ok(Expression::True));
    assert_eq!(interpret("(or false false)"), Ok(Expression::False));
    assert_eq!(
        interpret("(and true 1)"),
        Err(runtime_error("Operand of an and expression did not evaluate to a boolean value"))
    );
    assert_eq!(
        interpret("(or false \"no\")"),
        Err(runtime_error("Operand of an or expression did not evaluate to a boolean value"))
    );
}

#[test]
fn if_evaluates_the_chosen_branch_only() {
    assert_eq!(interpret("(if true 1 (undefined))"), Ok(number(1.0)));
    assert_eq!(interpret("(if false (undefined) 2)"), Ok(number(2.0)));
}

#[test]
fn begin_comes_to_its_last_value_and_needs_one() {
    assert_eq!(interpret("(begin 1 2 3)"), Ok(number(3.0)));
    assert_eq!(
        interpret("(begin)"),
        Err(runtime_error("A sequence of expressions in a begin statement cannot be empty"))
    );
}

#[test]
fn evaluation_stops_at_the_first_error() {
    assert_eq!(
        interpret("(define x 1) (car x) (define x 2) x"),
        Err(runtime_error("'car' requires one 'cons' argument"))
    );
    assert_eq!(
        interpret("(begin (undefined) 5)"),
        Err(LisrError::Evaluation(LisrEvaluationError::UndefinedIdentifier))
    );
}

#[test]
fn test_application_errors() {
    assert_eq!(interpret("((cons 1 2) 3)"), Err(runtime_error("Object cannot be invoked")));
    assert_eq!(
        interpret("((lambda (x) x))"),
        Err(runtime_error("Function called with a wrong number of arguments"))
    );
    assert_eq!(
        interpret("((lambda () 1) 2)"),
        Err(runtime_error("Function called with a wrong number of arguments"))
    );
    assert_eq!(interpret("((lambda () 1))"), Ok(number(1.0)));
}

#[test]
fn test_arithmetic_primitives() {
    assert_eq!(interpret("(+ 1 2 3 4)"), Ok(number(10.0)));
    assert_eq!(interpret("(- 10 1 2)"), Ok(number(7.0)));
    assert_eq!(interpret("(* 2 3 4)"), Ok(number(24.0)));
    assert_eq!(interpret("(/ 1 4)"), Ok(number(0.25)));
    assert_eq!(interpret("(/ 1 0)"), Ok(number(f64::INFINITY)));
    assert_eq!(interpret("(- 5)"), Ok(number(5.0)));
    assert_eq!(interpret("(+ -2.5 .5)"), Ok(number(-2.0)));
    assert_eq!(interpret("(+ 0.1 0.2)"), Ok(number(0.1 + 0.2)));
    assert_eq!(interpret("(remainder 15 10)"), Ok(number(5.0)));
    assert_eq!(interpret("(remainder -7 2)"), Ok(number(-1.0)));
    assert_eq!(interpret("(+ true)"), Ok(Expression::True));
    for operator in ["-", "*", "/"] {
        assert_eq!(
            interpret(&format!("({} \"a\" \"b\")", operator)),
            Err(LisrError::Evaluation(LisrEvaluationError::TypeError))
        );
        assert_eq!(
            interpret(&format!("({} )", operator)),
            Err(runtime_error("An arithmetic function cannot be invoked without any arguments"))
        );
    }
    assert_eq!(
        interpret("(+ 1 2 \"a\")"),
        Err(LisrError::Evaluation(LisrEvaluationError::TypeError))
    );
    assert_eq!(
        interpret("(+ \"a\" 1)"),
        Err(LisrError::Evaluation(LisrEvaluationError::TypeError))
    );
}

#[test]
fn a_parenthesis_after_an_operator_closes_the_list() {
    let shape = "An arithmetic function cannot be invoked without any arguments";
    for operator in ["+", "-", "*", "/"] {
        assert_eq!(interpret(&format!("({})", operator)), Err(runtime_error(shape)));
    }
    assert_eq!(
        interpret("(<)"),
        Err(runtime_error("'Less than' function requires two arguments"))
    );
    assert_eq!(interpret("(cons +(+ 1 2))"), interpret("(cons + (+ 1 2))"));
    assert_eq!(interpret("(car (cons (- 3 1)-))"), Ok(number(2.0)));
}

#[test]
fn test_remainder_errors() {
    let shape = "Remainder requires two arguments - a dividend and a divisor";
    assert_eq!(interpret("(remainder 1)"), Err(runtime_error(shape)));
    assert_eq!(interpret("(remainder 1 2 3)"), Err(runtime_error(shape)));
    assert_eq!(
        interpret("(remainder 1 \"a\")"),
        Err(LisrError::Evaluation(LisrEvaluationError::TypeError))
    );
}

#[test]
fn test_equals() {
    assert_eq!(interpret("(= 1 1 1)"), Ok(Expression::True));
    assert_eq!(interpret("(= 1 1 2)"), Ok(Expression::False));
    assert_eq!(interpret("(= 1)"), Ok(Expression::True));
    assert_eq!(interpret("(= \"a\" \"a\")"), Ok(Expression::True));
    assert_eq!(interpret("(= \"a\" \"b\")"), Ok(Expression::False));
    assert_eq!(interpret("(= 1 2 \"a\")"), Ok(Expression::False));
    assert_eq!(interpret("(= 0.5 .5)"), Ok(Expression::True));
    assert_eq!(
        interpret("(= )"),
        Err(runtime_error("Equals cannot be invoked without any arguments"))
    );
    assert_eq!(
        interpret("(= 1 \"a\")"),
        Err(runtime_error("Equals is only implemented for pairs of strings or numbers"))
    );
    assert_eq!(
        interpret("(= true true)"),
        Err(runtime_error("Equals is only implemented for pairs of strings or numbers"))
    );
}

#[test]
fn test_less_than() {
    assert_eq!(interpret("(< 3 4)"), Ok(Expression::True));
    assert_eq!(interpret("(< 4 3)"), Ok(Expression::False));
    assert_eq!(interpret("(< 3 3)"), Ok(Expression::False));
    assert_eq!(interpret("(< -1 0)"), Ok(Expression::True));
    assert_eq!(interpret("(< \"a\" \"b\")"), Ok(Expression::True));
    assert_eq!(interpret("(< \"b\" \"a\")"), Ok(Expression::False));
    assert_eq!(interpret("(< \"a\" \"a\")"), Ok(Expression::False));
    assert_eq!(interpret("(< \"a\" \"ab\")"), Ok(Expression::True));
    assert_eq!(interpret("(< \"ab\" \"a\")"), Ok(Expression::False));
    assert_eq!(interpret("(< \"\" \"a\")"), Ok(Expression::True));
    assert_eq!(interpret("(< \"Z\" \"a\")"), Ok(Expression::True));
    assert_eq!(interpret("(< \"z\" \"é\")"), Ok(Expression::True));
    let shape = "'Less than' function requires two arguments";
    assert_eq!(interpret("(< 1)"), Err(runtime_error(shape)));
    assert_eq!(interpret("(< 1 2 3)"), Err(runtime_error(shape)));
    assert_eq!(
        interpret("(< 1 \"a\")"),
        Err(LisrError::Evaluation(LisrEvaluationError::TypeError))
    );
}

#[test]
fn strings_are_ordered_as_the_standard_library_orders_them() {
    let texts = ["", "a", "ab", "b", "B", "é", "e", "😲", "z😲", "zz", "\u{FFFF}", "\u{10000}"];
    for left in texts {
        for right in texts {
            assert_eq!(lisr::text::precedes(left, right), left < right, "{:?} < {:?}", left, right);
        }
    }
}

#[test]
fn test_car_and_cdr_errors() {
    assert_eq!(
        interpret("(car 1)"),
        Err(runtime_error("'car' requires one 'cons' argument"))
    );
    assert_eq!(interpret("(car)"), Err(runtime_error("'car' requires one 'cons' argument")));
    assert_eq!(
        interpret("(car (cons 1 2) 3)"),
        Err(runtime_error("'car' function requires one 'cons' argument"))
    );
    assert_eq!(
        interpret("(cdr ())"),
        Err(runtime_error("'cdr' requires one 'cons' argument"))
    );
    assert_eq!(
        interpret("(cdr (cons 1 2) 3)"),
        Err(runtime_error("'cdr' function requires one 'cons' argument"))
    );
}

#[test]
fn test_is_empty_list() {
    let shape = "'empty-list?' function requires exactly one argument";
    assert_eq!(interpret("(empty-list? 1)"), Ok(Expression::False));
    assert_eq!(interpret("(empty-list?)"), Err(runtime_error(shape)));
    assert_eq!(interpret("(empty-list? () ())"), Err(runtime_error(shape)));
}

#[test]
fn values_evaluate_to_themselves() {
    assert_eq!(interpret("\"text\""), Ok(Expression::String { value: String::from("text") }));
    assert_eq!(
        interpret("'quoted"),
        Ok(Expression::Quotation { text_of_quotation: String::from("quoted") })
    );
    assert_eq!(interpret("true"), Ok(Expression::True));
    assert_eq!(interpret("()"), Ok(Expression::EmptyList));
    assert_eq!(interpret("-2.5"), Ok(number(-2.5)));
    assert_eq!(
        interpret("(car (cons if 1))"),
        Ok(Expression::LisrInternalObject { name: String::from("if") })
    );
    assert_eq!(
        interpret("car"),
        Ok(Expression::PrimitiveProcedure { procedure: lisr::expression::Primitive::Car })
    );
}

#[test]
fn the_machine_waits_for_the_answer_that_it_asked_for() {
    let evaluation = lisr::interpret::interpret("(< 1 2)").unwrap();
    let mut evaluation = evaluation;
    let mut action = Action::Continue;
    while action == Action::Continue {
        let (next, asked) = evaluation.step(Event::Resume);
        evaluation = next;
        action = asked;
    }
    // The first thing asked for is the value of a numeral.
    let request = Request::Convert { negative: false, digits: String::from("1") };
    assert_eq!(action, Action::Ask { request: Request::Convert { negative: false, digits: String::from("1") } });

    // Events that do not answer the request leave it standing.
    let (evaluation, action) = evaluation.step(Event::Resume);
    assert_eq!(action, Action::Ask { request: request.duplicate() });
    let (evaluation, action) = evaluation.step(Event::Truth { holds: true });
    assert_eq!(action, Action::Ask { request });

    let (evaluation, action) = evaluation.step(Event::Number { bits: 1.0f64.to_bits() });
    assert_eq!(action, Action::Continue);

    // Once over, evaluation stays over.
    let result = run(evaluation);
    assert_eq!(result, Ok(Expression::True));
}

#[test]
fn a_finished_machine_repeats_its_result() {
    let mut evaluation = lisr::interpret::interpret("\"done\"").unwrap();
    let mut action = Action::Continue;
    while action == Action::Continue {
        let (next, asked) = evaluation.step(Event::Resume);
        evaluation = next;
        action = asked;
    }
    let expected = Action::Finish { result: Ok(Expression::String { value: String::from("done") }) };
    assert_eq!(action, expected);
    let (evaluation, action) = evaluation.step(Event::Number { bits: 0 });
    assert_eq!(action, expected);
    assert_eq!(evaluation.action(), expected);
}

#[test]
fn the_machine_asks_for_each_arithmetic_step() {
    let mut evaluation = lisr::interpret::interpret("(- 10 4.5)").unwrap();
    let mut asked: Vec<Request> = Vec::new();
    let mut event = Event::Resume;
    let result = loop {
        let (next, action) = evaluation.step(event);
        evaluation = next;
        event = match action {
            Action::Continue => Event::Resume,
            Action::Ask { request } => {
                let event = answer(&request);
                asked.push(request);
                event
            }
            Action::Finish { result } => break result,
        };
    };

    assert_eq!(result, Ok(number(5.5)));
    assert_eq!(
        asked,
        vec![
            Request::Convert { negative: false, digits: String::from("10") },
            Request::Convert { negative: false, digits: String::from("4.5") },
            Request::Arithmetic {
                operator: Operator::Subtract,
                left: Number::Binary { bits: 10.0f64.to_bits() },
                right: Number::Binary { bits: 4.5f64.to_bits() },
            },
        ]
    );
}

#[test]
fn a_name_in_a_call_is_read_from_the_closure_then_from_the_caller() {
    // Captured and bound by the caller: the captured value.
    assert_eq!(interpret("(define n 1) (define get (lambda () n)) (define n 2) (get)"), Ok(number(1.0)));
    // Not captured, bound by the caller: the caller's value.
    assert_eq!(interpret("(define get (lambda () n)) (define n 2) (get)"), Ok(number(2.0)));
    // Bound by neither.
    assert_eq!(
        interpret("(define get (lambda () n)) (get)"),
        Err(LisrError::Evaluation(LisrEvaluationError::UndefinedIdentifier))
    );
}
