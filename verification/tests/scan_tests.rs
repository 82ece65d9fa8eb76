use lisr::scan::{scan, should_finish_scanning, LisrScanError};
use lisr::text::{is_digit, is_whitespace};
use lisr::token::{Number, Token};

/// The value of a numeral as the scanner hands it out.
fn value_of(token: Option<&Token>) -> Option<f64> {
    match token {
        Some(Token::Number { value: Number::Decimal { negative, digits } }) => {
            let value: f64 = digits.parse().unwrap();
            Some(if *negative { -1.0 * value } else { value })
        }
        _ => None,
    }
}

#[test]
fn should_scan_left_and_right_parentheses() {
    let input = "()";

    let tokens = scan(input).unwrap();

    assert_eq!(tokens, vec![Token::LeftParen, Token::RightParen]);
}

#[test]
fn should_scan_numbers() {
    let input = "(+ 2.5 3.5)";

    let tokens = scan(input).unwrap();

    assert_eq!(value_of(tokens.get(2)), Some(2.5));
    assert_eq!(value_of(tokens.get(3)), Some(3.5));
}

#[test]
fn should_scan_unicode_identifiers() {
    let input = "(😲 🍟)";

    let tokens = scan(input).unwrap();

    assert_eq!(
        tokens.get(1),
        Some(&Token::Identifier {
            name: String::from("😲")
        })
    );
    assert_eq!(
        tokens.get(2),
        Some(&Token::Identifier {
            name: String::from("🍟")
        })
    );
}

#[test]
fn should_scan_dash_as_identifier() {
    let input = "(- 2 1)";

    let tokens = scan(input).unwrap();

    assert_eq!(
        tokens.get(1),
        Some(&Token::Identifier {
            name: String::from("-")
        })
    );
}

#[test]
fn should_scan_dash_as_a_part_of_a_negative_number() {
    let input = "(- 5 -2.5)";

    let tokens = scan(input).unwrap();

    assert_eq!(value_of(tokens.get(3)), Some(-2.5));
}

#[test]
fn should_scan_dash_when_it_is_the_last_character() {
    let input = "-";

    let tokens = scan(input).unwrap();

    assert_eq!(
        tokens.get(0),
        Some(&Token::Identifier {
            name: String::from("-")
        })
    );
}

#[test]
fn should_scan_primitive_operators_as_identifiers() {
    let operators = vec!["+", "*", "/", "<", ">"];

    for operator in operators.iter() {
        let input = format!("({} 2 1", operator);

        let tokens = scan(&input).unwrap();

        let actual_token_for_operator = tokens.get(1);
        let expected_token = Token::Identifier {
            name: String::from(*operator),
        };

        assert_eq!(actual_token_for_operator, Some(&expected_token));
    }
}

#[test]
fn should_scan_quotation() {
    let input = "(concat 'one 'two)";

    let tokens = scan(input).unwrap();

    assert_eq!(
        tokens.get(2),
        Some(&Token::Quotation {
            text_of_quotation: String::from("one")
        })
    );
    assert_eq!(
        tokens.get(3),
        Some(&Token::Quotation {
            text_of_quotation: String::from("two")
        })
    );
}

#[test]
fn should_scan_strings() {
    let input = "\"a very\nlong string\"";

    let tokens = scan(input).unwrap();

    assert_eq!(
        tokens.get(0),
        Some(&Token::String {
            value: String::from("a very\nlong string")
        })
    );
}

#[test]
fn should_match_keywords() {
    let keyword_to_expected_token = vec![
        ("set!", Token::SetBang),
        ("define", Token::Define),
        ("true", Token::True),
        ("false", Token::False),
        ("if", Token::If),
        ("and", Token::And),
        ("or", Token::Or),
        ("lambda", Token::Lambda),
        ("begin", Token::Begin),
        ("cons", Token::Cons),
    ];

    for (keyword, expected_token) in keyword_to_expected_token.iter() {
        let tokens = scan(keyword).unwrap();

        assert_eq!(tokens.get(0), Some(expected_token));
    }
}

#[test]
fn should_reject_identifiers_that_start_with_primitive_operator() {
    let input = "(define <3 'heart)";

    let error = scan(input).unwrap_err();

    assert_eq!(
        error,
        LisrScanError::InvalidIdentifier {
            reason: "Identifier cannot start with an operator."
        }
    );
}

#[test]
fn should_not_allow_empty_quotation() {
    let input = "(concat ' 'abc)";

    let error = scan(input).unwrap_err();

    assert_eq!(error, LisrScanError::EmptyQuotation);
}

#[test]
fn should_return_an_error_when_string_is_not_closed() {
    let input = "\"Oops, an unclosed string";

    let error = scan(input).unwrap_err();

    assert_eq!(error, LisrScanError::UnclosedString);
}

#[test]
fn should_reject_numbers_with_more_than_one_decimal_point() {
    let input = "123.456.78";

    let error = scan(input).unwrap_err();

    assert_eq!(
        error,
        LisrScanError::InvalidNumber {
            reason: "A number cannot have more than one decimal point."
        }
    );
}

#[test]
fn should_reject_numbers_that_do_not_contain_digits_only() {
    let input = "0x123";

    let error = scan(input).unwrap_err();

    assert_eq!(
        error,
        LisrScanError::InvalidNumber {
            reason: "Numbers can contain digits only."
        }
    );
}

#[test]
fn should_reject_identifiers_that_start_with_a_digit() {
    let input = "(define (5plus x) (+ 5 x))";

    let error = scan(input).unwrap_err();

    assert_eq!(
        error,
        LisrScanError::InvalidNumber {
            reason: "Numbers can contain digits only."
        }
    );
}

#[test]
fn should_scan_a_numeral_as_it_is_written() {
    let tokens = scan("(f 007.50 -3 .5 5.)").unwrap();

    assert_eq!(
        tokens,
        vec![
            Token::LeftParen,
            Token::Identifier { name: String::from("f") },
            Token::Number { value: Number::Decimal { negative: false, digits: String::from("007.50") } },
            Token::Number { value: Number::Decimal { negative: true, digits: String::from("3") } },
            Token::Number { value: Number::Decimal { negative: false, digits: String::from(".5") } },
            Token::Number { value: Number::Decimal { negative: false, digits: String::from("5.") } },
            Token::RightParen,
        ]
    );
}

#[test]
fn should_reject_a_numeral_without_digits() {
    let reason = "Could not parse the number. Only 64-bit floats represented in decimal system are allowed.";

    assert_eq!(scan("."), Err(LisrScanError::InvalidNumber { reason }));
    assert_eq!(scan("(+ 1 -.)"), Err(LisrScanError::InvalidNumber { reason }));
}

#[test]
fn every_numeral_that_scans_has_a_value() {
    for input in ["0", "12", "3.25", ".5", "5.", "-0", "-12.5", "-.5", "00012", "123456789012345678901234567890.5"] {
        let tokens = scan(input).unwrap();

        assert_eq!(tokens.len(), 1);
        let expected: f64 = input.parse().unwrap();
        assert_eq!(value_of(tokens.get(0)), Some(expected));
    }
}

#[test]
fn should_scan_empty_and_blank_text_into_no_tokens() {
    assert_eq!(scan(""), Ok(Vec::new()));
    assert_eq!(scan(" \n\t  "), Ok(Vec::new()));
}

#[test]
fn should_leave_what_ends_the_lexeme_of_an_operator() {
    // The character after an operator or a lone minus sign ends its lexeme
    // and is scanned by itself: a parenthesis there is a token of its own.
    assert_eq!(
        scan("(+)"),
        Ok(vec![
            Token::LeftParen,
            Token::Identifier { name: String::from("+") },
            Token::RightParen,
        ])
    );
    assert_eq!(
        scan("(-)1"),
        Ok(vec![
            Token::LeftParen,
            Token::Identifier { name: String::from("-") },
            Token::RightParen,
            Token::Number { value: Number::Decimal { negative: false, digits: String::from("1") } },
        ])
    );
    for operator in ["+", "-", "*", "/", "<", ">"] {
        let name = || Token::Identifier { name: String::from(operator) };
        assert_eq!(
            scan(&format!("({})", operator)),
            Ok(vec![Token::LeftParen, name(), Token::RightParen])
        );
        assert_eq!(
            scan(&format!("({}(", operator)),
            Ok(vec![Token::LeftParen, name(), Token::LeftParen])
        );
        assert_eq!(scan(&format!("{}\n{}", operator, operator)), Ok(vec![name(), name()]));
        assert_eq!(scan(operator), Ok(vec![name()]));
    }
}

#[test]
fn should_scan_a_negative_number_that_does_not_hold_digits_only() {
    assert_eq!(
        scan("-abc"),
        Err(LisrScanError::InvalidNumber { reason: "Numbers can contain digits only." })
    );
    assert_eq!(
        scan("-1.2.3"),
        Err(LisrScanError::InvalidNumber {
            reason: "A number cannot have more than one decimal point."
        })
    );
}

#[test]
fn should_take_any_character_into_an_identifier_after_its_first() {
    assert_eq!(
        scan("a-b+1 x\"y 'q'r"),
        Ok(vec![
            Token::Identifier { name: String::from("a-b+1") },
            Token::Identifier { name: String::from("x\"y") },
            Token::Quotation { text_of_quotation: String::from("q'r") },
        ])
    );
}

#[test]
fn should_end_a_string_at_the_first_double_quote() {
    assert_eq!(
        scan("\"a (b) c\"\"\""),
        Ok(vec![
            Token::String { value: String::from("a (b) c") },
            Token::String { value: String::new() },
        ])
    );
    assert_eq!(scan("\"a\" \"b"), Err(LisrScanError::UnclosedString));
}

#[test]
fn should_end_a_quotation_at_the_end_of_the_text() {
    assert_eq!(
        scan("'abc"),
        Ok(vec![Token::Quotation { text_of_quotation: String::from("abc") }])
    );
    assert_eq!(scan("'"), Err(LisrScanError::EmptyQuotation));
    assert_eq!(scan("')"), Err(LisrScanError::EmptyQuotation));
}

#[test]
fn keywords_are_whole_lexemes_only() {
    assert_eq!(
        scan("iff define! lambda"),
        Ok(vec![
            Token::Identifier { name: String::from("iff") },
            Token::Identifier { name: String::from("define!") },
            Token::Lambda,
        ])
    );
}

#[test]
fn white_space_is_what_the_standard_library_holds_for_it() {
    for code in 0..=0x10FFFFu32 {
        if let Some(c) = char::from_u32(code) {
            assert_eq!(is_whitespace(c), c.is_whitespace(), "at code point {:#x}", code);
            assert_eq!(is_digit(c), c.is_digit(10), "at code point {:#x}", code);
            assert_eq!(
                should_finish_scanning(c),
                c.is_whitespace() || c == '(' || c == ')',
                "at code point {:#x}",
                code
            );
        }
    }
}

#[test]
fn should_end_a_lexeme_at_white_space_that_is_not_ascii() {
    assert_eq!(
        scan("a\u{00A0}b\u{3000}c"),
        Ok(vec![
            Token::Identifier { name: String::from("a") },
            Token::Identifier { name: String::from("b") },
            Token::Identifier { name: String::from("c") },
        ])
    );
}
