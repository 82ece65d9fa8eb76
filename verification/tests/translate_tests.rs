use std::collections::VecDeque;

use lisr::expression::{Expression, Identifier, Parameter};
use lisr::node::Node;
use lisr::parse::LisrParseError;
use lisr::token::{Number, Token};
use lisr::translate::translate;

fn number(value: f64) -> Number {
    Number::Binary { bits: value.to_bits() }
}


#[test]
fn should_create_application() {
    let application = Node::List {
        elements: VecDeque::from([
            Node::Leaf {
                token: Token::Identifier {
                    name: String::from("square"),
                },
            },
            Node::Leaf {
                token: Token::Number { value: number(10.0) },
            },
        ]),
    };

    let result = translate(vec![application]).unwrap();

    assert_eq!(
        result.get(0),
        Some(&Expression::Application {
            procedure: Box::new(Expression::Identifier(Identifier {
                name: String::from("square")
            })),
            arguments: vec![Expression::Number { value: number(10.0) }]
        })
    );
}

#[test]
fn should_create_application_if_a_list_is_first_in_a_list() {
    let application = Node::List {
        elements: VecDeque::from([
            Node::List {
                elements: VecDeque::from([
                    Node::Leaf {
                        token: Token::Identifier {
                            name: String::from("make-adder"),
                        },
                    },
                    Node::Leaf {
                        token: Token::Number { value: number(5.0) },
                    },
                ]),
            },
            Node::Leaf {
                token: Token::Number { value: number(42.0) },
            },
        ]),
    };

    let result = translate(vec![application]).unwrap();

    assert_eq!(
        result.get(0),
        Some(&Expression::Application {
            procedure: Box::new(Expression::Application {
                procedure: Box::new(Expression::Identifier(Identifier {
                    name: String::from("make-adder")
                })),
                arguments: vec![Expression::Number { value: number(5.0) }]
            }),
            arguments: vec![Expression::Number { value: number(42.0) }]
        })
    );
}

#[test]
fn should_create_assignment() {
    let assignment = Node::List {
        elements: VecDeque::from([
            Node::Leaf { token: Token::SetBang },
            Node::Leaf {
                token: Token::Identifier {
                    name: String::from("x"),
                },
            },
            Node::Leaf {
                token: Token::Number { value: number(42.0) },
            },
        ]),
    };

    let result = translate(vec![assignment]).unwrap();

    assert_eq!(
        result.get(0),
        Some(&Expression::Assignment {
            variable: Identifier {
                name: String::from("x")
            },
            value: Box::new(Expression::Number { value: number(42.0) })
        })
    );
}

#[test]
fn should_create_definition() {
    let definition = Node::List {
        elements: VecDeque::from([
            Node::Leaf {
                token: Token::Define,
            },
            Node::Leaf {
                token: Token::Identifier {
                    name: String::from("x"),
                },
            },
            Node::Leaf {
                token: Token::Number { value: number(42.0) },
            },
        ]),
    };

    let result = translate(vec![definition]).unwrap();

    assert_eq!(
        result.get(0),
        Some(&Expression::Definition {
            variable: Identifier {
                name: String::from("x")
            },
            value: Box::new(Expression::Number { value: number(42.0) })
        })
    );
}

#[test]
fn should_create_if() {
    let if_statement = Node::List {
        elements: VecDeque::from([
            Node::Leaf { token: Token::If },
            Node::Leaf { token: Token::True },
            Node::Leaf {
                token: Token::Number { value: number(1.0) },
            },
            Node::Leaf {
                token: Token::Number { value: number(0.0) },
            },
        ]),
    };

    let result = translate(vec![if_statement]).unwrap();

    assert_eq!(
        result.get(0),
        Some(&Expression::If {
            predicate: Box::new(Expression::True),
            consequent: Box::new(Expression::Number { value: number(1.0) }),
            alternative: Box::new(Expression::Number { value: number(0.0) })
        })
    );
}

#[test]
fn should_create_and() {
    let and = Node::List {
        elements: VecDeque::from([
            Node::Leaf { token: Token::And },
            Node::Leaf { token: Token::True },
            Node::Leaf {
                token: Token::False,
            },
        ]),
    };

    let result = translate(vec![and]).unwrap();

    assert_eq!(
        result.get(0),
        Some(&Expression::And {
            operands: vec![Expression::True, Expression::False]
        })
    );
}

#[test]
fn should_create_or() {
    let or = Node::List {
        elements: VecDeque::from([
            Node::Leaf { token: Token::Or },
            Node::Leaf {
                token: Token::False,
            },
            Node::Leaf { token: Token::True },
        ]),
    };

    let result = translate(vec![or]).unwrap();

    assert_eq!(
        result.get(0),
        Some(&Expression::Or {
            operands: vec![Expression::False, Expression::True]
        })
    );
}

#[test]
fn should_create_lambda() {
    let lambda = Node::List {
        elements: VecDeque::from([
            Node::Leaf {
                token: Token::Lambda,
            },
            Node::List {
                elements: VecDeque::from([
                    Node::Leaf {
                        token: Token::Identifier {
                            name: String::from("x"),
                        },
                    },
                    Node::Leaf {
                        token: Token::Identifier {
                            name: String::from("y"),
                        },
                    },
                ]),
            },
            Node::List {
                elements: VecDeque::from([
                    Node::Leaf {
                        token: Token::Identifier {
                            name: String::from("+"),
                        },
                    },
                    Node::Leaf {
                        token: Token::Identifier {
                            name: String::from("x"),
                        },
                    },
                    Node::Leaf {
                        token: Token::Identifier {
                            name: String::from("y"),
                        },
                    },
                ]),
            },
        ]),
    };

    let result = translate(vec![lambda]).unwrap();

    assert_eq!(
        result.get(0),
        Some(&Expression::Lambda {
            parameters: vec![
                Parameter {
                    name: String::from("x")
                },
                Parameter {
                    name: String::from("y")
                }
            ],
            body: Box::new(Expression::Application {
                procedure: Box::new(Expression::Identifier(Identifier {
                    name: String::from("+")
                })),
                arguments: vec![
                    Expression::Identifier(Identifier {
                        name: String::from("x")
                    }),
                    Expression::Identifier(Identifier {
                        name: String::from("y")
                    })
                ]
            })
        })
    );
}

#[test]
fn should_create_begin() {
    let begin = Node::List {
        elements: VecDeque::from([
            Node::Leaf {
                token: Token::Begin,
            },
            Node::Leaf {
                token: Token::Number { value: number(1.0) },
            },
        ]),
    };

    let result = translate(vec![begin]).unwrap();

    assert_eq!(
        result.get(0),
        Some(&Expression::Begin {
            sequence: vec![Expression::Number { value: number(1.0) }]
        })
    );
}

#[test]
fn should_create_cons() {
    let cons = Node::List {
        elements: VecDeque::from([
            Node::Leaf { token: Token::Cons },
            Node::Leaf {
                token: Token::Number { value: number(1.0) },
            },
            Node::List {
                elements: VecDeque::new(),
            },
        ]),
    };

    let result = translate(vec![cons]).unwrap();

    assert_eq!(
        result.get(0),
        Some(&Expression::Cons {
            first: Box::new(Expression::Number { value: number(1.0) }),
            rest: Box::new(Expression::EmptyList)
        })
    );
}

#[test]
fn should_return_an_error_for_non_invokable_objects() {
        let ast = Node::List {
        elements: VecDeque::from([
            Node::Leaf {
                token: Token::String {
                    value: String::from("add"),
                },
            },
            Node::Leaf {
                token: Token::Number { value: number(1.0) },
            },
            Node::Leaf {
                token: Token::Number { value: number(2.0) },
            },
        ]),
    };

    let error = translate(vec![ast]).unwrap_err();

    assert_eq!(error, LisrParseError::ObjectNotInvokable);
}

#[test]
fn lambda_should_require_parameters_and_body() {
    let ast = Node::List {
        elements: VecDeque::from([Node::Leaf {
            token: Token::Lambda,
        }]),
    };

    let error = translate(vec![ast]).unwrap_err();

    assert_eq!(error, LisrParseError::LambdaRequiresParameterListAndBody);
}

#[test]
fn assignment_should_require_a_variable_and_a_value() {
    let ast = Node::List {
        elements: VecDeque::from([
            Node::Leaf { token: Token::SetBang },
            Node::Leaf {
                token: Token::Identifier {
                    name: String::from("variable"),
                },
            },
        ]),
    };

    let error = translate(vec![ast]).unwrap_err();

    assert_eq!(
        error,
        LisrParseError::AssignmentRequiresOneVariableAndOneValue
    );
}

#[test]
fn should_require_a_variable_in_definition() {
    let ast = Node::List {
        elements: VecDeque::from([
            Node::Leaf {
                token: Token::Define,
            },
            Node::Leaf { token: Token::True },
            Node::Leaf {
                token: Token::False,
            },
        ]),
    };

    let error = translate(vec![ast]).unwrap_err();

    assert_eq!(error, LisrParseError::VariableRequiredInThisContext);
}

#[test]
fn should_require_a_variable_in_function_definition() {
    let ast = Node::List {
        elements: VecDeque::from([
            Node::Leaf {
                token: Token::Define,
            },
            Node::List {
                elements: VecDeque::from([
                    Node::Leaf {
                        token: Token::Number { value: number(1.0) },
                    },
                    Node::Leaf {
                        token: Token::Number { value: number(2.0) },
                    },
                ]),
            },
            Node::Leaf {
                token: Token::Number { value: number(3.0) },
            },
        ]),
    };

    let error = translate(vec![ast]).unwrap_err();

    assert_eq!(error, LisrParseError::VariableRequiredInThisContext);
}

#[test]
fn should_require_two_arguments_for_cons() {
    let ast = Node::List {
        elements: VecDeque::from([
            Node::Leaf { token: Token::Cons },
            Node::Leaf {
                token: Token::Number { value: number(1.0) },
            },
        ]),
    };

    let error = translate(vec![ast]).unwrap_err();

    assert_eq!(error, LisrParseError::ConsRequiresTwoArguments);
}

#[test]
fn should_convert_function_definition_to_a_lambda() {
    let ast = Node::List {
        elements: VecDeque::from([
            Node::Leaf {
                token: Token::Define,
            },
            Node::List {
                elements: VecDeque::from([
                    Node::Leaf {
                        token: Token::Identifier {
                            name: String::from("square"),
                        },
                    },
                    Node::Leaf {
                        token: Token::Identifier {
                            name: String::from("x"),
                        },
                    },
                ]),
            },
            Node::List {
                elements: VecDeque::from([
                    Node::Leaf {
                        token: Token::Identifier {
                            name: String::from("*"),
                        },
                    },
                    Node::Leaf {
                        token: Token::Identifier {
                            name: String::from("x"),
                        },
                    },
                    Node::Leaf {
                        token: Token::Identifier {
                            name: String::from("x"),
                        },
                    },
                ]),
            },
        ]),
    };

    let result = translate(vec![ast]).unwrap();

    assert_eq!(
        result.get(0),
        Some(&Expression::Definition {
            variable: Identifier {
                name: String::from("square")
            },
            value: Box::new(Expression::Lambda {
                parameters: vec![Parameter {
                    name: String::from("x")
                }],
                body: Box::new(Expression::Application {
                    procedure: Box::new(Expression::Identifier(Identifier {
                        name: String::from("*")
                    })),
                    arguments: vec![
                        Expression::Identifier(Identifier {
                            name: String::from("x")
                        }),
                        Expression::Identifier(Identifier {
                            name: String::from("x")
                        })
                    ]
                })
            })
        })
    );
}

fn leaf(token: Token) -> Node {
    Node::Leaf { token }
}

fn identifier(name: &str) -> Node {
    Node::Leaf { token: Token::Identifier { name: String::from(name) } }
}

fn list(elements: Vec<Node>) -> Node {
    Node::List { elements: VecDeque::from(elements) }
}

#[test]
fn should_translate_an_empty_list_to_itself() {
    let result = translate(vec![list(vec![])]).unwrap();

    assert_eq!(result, vec![Expression::EmptyList]);
}

#[test]
fn should_translate_no_nodes_to_no_expressions() {
    assert_eq!(translate(Vec::new()), Ok(Vec::new()));
}

#[test]
fn should_translate_leaves() {
    let result = translate(vec![
        leaf(Token::String { value: String::from("text") }),
        leaf(Token::Number { value: Number::Decimal { negative: true, digits: String::from("2.5") } }),
        leaf(Token::Quotation { text_of_quotation: String::from("quoted") }),
        identifier("name"),
        leaf(Token::True),
        leaf(Token::False),
    ])
    .unwrap();

    assert_eq!(
        result,
        vec![
            Expression::String { value: String::from("text") },
            Expression::Number {
                value: Number::Decimal { negative: true, digits: String::from("2.5") }
            },
            Expression::Quotation { text_of_quotation: String::from("quoted") },
            Expression::Identifier(Identifier { name: String::from("name") }),
            Expression::True,
            Expression::False,
        ]
    );
}

#[test]
fn should_translate_a_keyword_that_heads_no_list_to_an_internal_object() {
    let keywords = vec![
        (Token::SetBang, "set!"),
        (Token::Define, "define"),
        (Token::If, "if"),
        (Token::And, "and"),
        (Token::Or, "or"),
        (Token::Lambda, "lambda"),
        (Token::Begin, "begin"),
        (Token::Cons, "cons"),
    ];

    for (token, name) in keywords {
        let result = translate(vec![leaf(token)]).unwrap();

        assert_eq!(result, vec![Expression::LisrInternalObject { name: String::from(name) }]);
    }
}

#[test]
fn should_not_invoke_literals() {
    let heads = vec![
        Token::String { value: String::from("f") },
        Token::Number { value: number(1.0) },
        Token::Quotation { text_of_quotation: String::from("f") },
        Token::True,
        Token::False,
    ];

    for head in heads {
        let error = translate(vec![list(vec![leaf(head), identifier("x")])]).unwrap_err();

        assert_eq!(error, LisrParseError::ObjectNotInvokable);
    }
}

#[test]
fn assignment_should_require_an_identifier_in_the_first_place() {
    let ast = list(vec![leaf(Token::SetBang), leaf(Token::True), leaf(Token::False)]);

    let error = translate(vec![ast]).unwrap_err();

    assert_eq!(error, LisrParseError::AssignmentRequiresOneVariableAndOneValue);
}

#[test]
fn assignment_should_not_take_more_than_a_variable_and_a_value() {
    let ast = list(vec![
        leaf(Token::SetBang),
        identifier("x"),
        leaf(Token::True),
        leaf(Token::False),
    ]);

    let error = translate(vec![ast]).unwrap_err();

    assert_eq!(error, LisrParseError::AssignmentRequiresOneVariableAndOneValue);
}

#[test]
fn definition_should_require_a_variable_and_a_body() {
    let ast = list(vec![leaf(Token::Define), identifier("x")]);

    let error = translate(vec![ast]).unwrap_err();

    assert_eq!(error, LisrParseError::DefinitionRequiresVariableAndBody);
}

#[test]
fn definition_of_a_function_should_require_a_name() {
    let ast = list(vec![leaf(Token::Define), list(vec![]), leaf(Token::True)]);

    let error = translate(vec![ast]).unwrap_err();

    assert_eq!(error, LisrParseError::VariableRequiredInThisContext);
}

#[test]
fn if_should_require_exactly_three_operands() {
    let two = list(vec![leaf(Token::If), leaf(Token::True), leaf(Token::False)]);
    let four = list(vec![
        leaf(Token::If),
        leaf(Token::True),
        leaf(Token::False),
        leaf(Token::True),
        leaf(Token::False),
    ]);

    assert_eq!(
        translate(vec![two]),
        Err(LisrParseError::IfRequiresPredicateConsequentAndAlternative)
    );
    assert_eq!(
        translate(vec![four]),
        Err(LisrParseError::IfRequiresPredicateConsequentAndAlternative)
    );
}

#[test]
fn lambda_should_require_a_list_of_parameters() {
    let ast = list(vec![leaf(Token::Lambda), identifier("x"), identifier("x")]);

    let error = translate(vec![ast]).unwrap_err();

    assert_eq!(error, LisrParseError::LambdaRequiresParameterListAndBody);
}

#[test]
fn lambda_should_require_identifiers_as_parameters() {
    let ast = list(vec![
        leaf(Token::Lambda),
        list(vec![identifier("x"), leaf(Token::True)]),
        identifier("x"),
    ]);

    let error = translate(vec![ast]).unwrap_err();

    assert_eq!(error, LisrParseError::UnexpectedExpressionForLambdaParameter);
}

#[test]
fn parameters_of_a_defined_function_should_be_identifiers() {
    let ast = list(vec![
        leaf(Token::Define),
        list(vec![identifier("f"), leaf(Token::Number { value: number(1.0) })]),
        identifier("x"),
    ]);

    let error = translate(vec![ast]).unwrap_err();

    assert_eq!(error, LisrParseError::UnexpectedExpressionForLambdaParameter);
}

#[test]
fn cons_should_not_take_more_than_two_operands() {
    let ast = list(vec![
        leaf(Token::Cons),
        leaf(Token::True),
        leaf(Token::False),
        leaf(Token::True),
    ]);

    let error = translate(vec![ast]).unwrap_err();

    assert_eq!(error, LisrParseError::ConsRequiresTwoArguments);
}

#[test]
fn and_and_or_and_begin_take_any_number_of_operands() {
    let result = translate(vec![
        list(vec![leaf(Token::And)]),
        list(vec![leaf(Token::Or)]),
        list(vec![leaf(Token::Begin)]),
    ])
    .unwrap();

    assert_eq!(
        result,
        vec![
            Expression::And { operands: vec![] },
            Expression::Or { operands: vec![] },
            Expression::Begin { sequence: vec![] },
        ]
    );
}

#[test]
fn the_first_error_in_order_is_reported() {
    let result = translate(vec![
        identifier("fine"),
        list(vec![leaf(Token::Cons)]),
        list(vec![leaf(Token::If)]),
    ]);

    assert_eq!(result, Err(LisrParseError::ConsRequiresTwoArguments));
}

#[test]
fn an_error_in_an_operand_is_reported() {
    let ast = list(vec![
        identifier("f"),
        list(vec![leaf(Token::If), leaf(Token::True)]),
    ]);

    let error = translate(vec![ast]).unwrap_err();

    assert_eq!(error, LisrParseError::IfRequiresPredicateConsequentAndAlternative);
}
