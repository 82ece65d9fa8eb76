use std::collections::VecDeque;

use lisr::node::Node;
use lisr::parse::{parse, LisrParseError};
use lisr::token::{Number, Token};

fn number(value: f64) -> Number {
    Number::Binary { bits: value.to_bits() }
}

#[test]
fn should_parse_a_leaf() {
    let tokens = vec![Token::Number { value: number(42.0) }];

    let nodes = parse(tokens).unwrap();

    assert_eq!(
        nodes.get(0),
        Some(&Node::Leaf {
            token: Token::Number { value: number(42.0) }
        })
    );
}

#[test]
fn should_parse_a_list() {
    let tokens = vec![
        Token::LeftParen,
        Token::Identifier {
            name: String::from("+"),
        },
        Token::Number { value: number(1.0) },
        Token::Number { value: number(2.0) },
        Token::RightParen,
    ];

    let nodes = parse(tokens).unwrap();

    assert_eq!(
        nodes.get(0),
        Some(&Node::List {
            elements: VecDeque::from([
                Node::Leaf {
                    token: Token::Identifier {
                        name: String::from("+")
                    }
                },
                Node::Leaf {
                    token: Token::Number { value: number(1.0) }
                },
                Node::Leaf {
                    token: Token::Number { value: number(2.0) }
                }
            ])
        })
    );
}

#[test]
fn should_parse_an_empty_list() {
    let tokens = vec![Token::LeftParen, Token::RightParen];

    let nodes = parse(tokens).unwrap();

    assert_eq!(
        nodes.get(0),
        Some(&Node::List {
            elements: VecDeque::new()
        })
    );
}

#[test]
fn should_return_error_on_unexpected_right_parentheses() {
    let tokens = vec![Token::RightParen];

    let error = parse(tokens).unwrap_err();

    assert_eq!(error, LisrParseError::UnexpectedRightParentheses);
}

#[test]
fn should_not_allow_unclosed_lists() {
    let tokens = vec![
        Token::LeftParen,
        Token::Identifier {
            name: String::from("+"),
        },
        Token::Number { value: number(2.0) },
        Token::Number { value: number(2.0) },
    ];

    let error = parse(tokens).unwrap_err();

    assert_eq!(error, LisrParseError::UnclosedList);
}

#[test]
fn should_parse_no_tokens_into_no_nodes() {
    let nodes = parse(Vec::new()).unwrap();

    assert_eq!(nodes, Vec::new());
}

#[test]
fn should_parse_nested_lists_and_what_follows_them() {
    let tokens = vec![
        Token::LeftParen,
        Token::LeftParen,
        Token::True,
        Token::RightParen,
        Token::False,
        Token::RightParen,
        Token::If,
    ];

    let nodes = parse(tokens).unwrap();

    assert_eq!(
        nodes,
        vec![
            Node::List {
                elements: VecDeque::from([
                    Node::List {
                        elements: VecDeque::from([Node::Leaf { token: Token::True }])
                    },
                    Node::Leaf { token: Token::False },
                ])
            },
            Node::Leaf { token: Token::If },
        ]
    );
}

#[test]
fn should_report_a_right_parenthesis_after_a_closed_list() {
    let tokens = vec![Token::LeftParen, Token::RightParen, Token::RightParen];

    let error = parse(tokens).unwrap_err();

    assert_eq!(error, LisrParseError::UnexpectedRightParentheses);
}

#[test]
fn should_report_an_inner_list_that_is_not_closed() {
    let tokens = vec![Token::LeftParen, Token::LeftParen, Token::RightParen];

    let error = parse(tokens).unwrap_err();

    assert_eq!(error, LisrParseError::UnclosedList);
}

#[test]
fn nodes_that_the_parser_builds_are_well_formed() {
    let tokens = vec![
        Token::LeftParen,
        Token::Identifier { name: String::from("f") },
        Token::LeftParen,
        Token::RightParen,
        Token::RightParen,
        Token::True,
    ];

    let nodes = parse(tokens).unwrap();

    assert!(lisr::node::are_well_formed(&nodes));
    assert!(nodes[0].is_well_formed());
}

#[test]
fn a_leaf_that_holds_a_parenthesis_is_not_well_formed() {
    let leaf = Node::Leaf { token: Token::RightParen };
    let list = Node::List {
        elements: VecDeque::from([
            Node::Leaf { token: Token::True },
            Node::List { elements: VecDeque::from([Node::Leaf { token: Token::LeftParen }]) },
        ]),
    };

    assert!(!leaf.is_well_formed());
    assert!(!list.is_well_formed());
    assert!(!lisr::node::are_well_formed(&vec![Node::Leaf { token: Token::If }, list]));
    assert!(lisr::node::are_well_formed(&Vec::new()));
}

/// The tokens that spell a node.
fn spelled(node: &Node, tokens: &mut Vec<Token>) {
    match node {
        Node::Leaf { token } => tokens.push(token.clone()),
        Node::List { elements } => {
            tokens.push(Token::LeftParen);
            for element in elements {
                spelled(element, tokens);
            }
            tokens.push(Token::RightParen);
        }
    }
}

#[test]
fn the_nodes_of_a_program_spell_its_tokens() {
    let tokens = lisr::scan::scan("(define (f x) (if (< x 0) () (cons x (f (- x 1))))) (f 3) 'q \"s\"")
        .unwrap();

    let nodes = parse(tokens.clone()).unwrap();

    let mut again = Vec::new();
    for node in &nodes {
        spelled(node, &mut again);
    }
    assert_eq!(again, tokens);
    assert_eq!(nodes.len(), 4);
}

#[test]
fn parsing_fails_where_the_parentheses_do_not_match() {
    let cases = vec![
        ("", None),
        ("a b", None),
        ("(a (b) ()) c", None),
        (")", Some(LisrParseError::UnexpectedRightParentheses)),
        ("a ) (", Some(LisrParseError::UnexpectedRightParentheses)),
        ("(a)) ((", Some(LisrParseError::UnexpectedRightParentheses)),
        ("(", Some(LisrParseError::UnclosedList)),
        ("(a (b)", Some(LisrParseError::UnclosedList)),
        ("() (()", Some(LisrParseError::UnclosedList)),
    ];

    for (text, error) in cases {
        let tokens = lisr::scan::scan(text).unwrap();
        let mut depth = 0i64;
        let mut below = false;
        for token in &tokens {
            match token {
                Token::LeftParen => depth += 1,
                Token::RightParen => depth -= 1,
                _ => {}
            }
            below = below || depth < 0;
        }
        let expected = if below {
            Some(LisrParseError::UnexpectedRightParentheses)
        } else if depth > 0 {
            Some(LisrParseError::UnclosedList)
        } else {
            None
        };

        assert_eq!(error, expected, "{:?}", text);
        assert_eq!(parse(tokens).err(), error, "{:?}", text);
    }
}
