//! The scanner: from program text to tokens.

use vstd::prelude::*;
use crate::text::{
    characters, is_digit, is_digit_model, is_whitespace, is_whitespace_model, text_between,
};
use crate::token::{tokens_view, Number, NumberView, Token, TokenView};

verus! {

/// What can be wrong with the characters of a program.
#[derive(Debug, PartialEq)]
pub enum LisrScanError<'a> {
    /// A quotation mark with nothing quoted after it.
    EmptyQuotation,
    UnclosedString,
    InvalidNumber { reason: &'a str },
    InvalidIdentifier { reason: &'a str },
}

/// The mathematical model of a [`LisrScanError`].
pub enum LisrScanErrorView {
    EmptyQuotation,
    UnclosedString,
    InvalidNumber { reason: Seq<char> },
    InvalidIdentifier { reason: Seq<char> },
}

impl<'a> View for LisrScanError<'a> {
    type V = LisrScanErrorView;

    open spec fn view(&self) -> LisrScanErrorView {
        match *self {
            LisrScanError::EmptyQuotation => LisrScanErrorView::EmptyQuotation,
            LisrScanError::UnclosedString => LisrScanErrorView::UnclosedString,
            LisrScanError::InvalidNumber { reason } => LisrScanErrorView::InvalidNumber {
                reason: reason@,
            },
            LisrScanError::InvalidIdentifier { reason } => LisrScanErrorView::InvalidIdentifier {
                reason: reason@,
            },
        }
    }
}

/// Whether `c` ends a lexeme: white space and parentheses do.
pub open spec fn should_finish_scanning_model(c: char) -> bool {
    is_whitespace_model(c) || c == '(' || c == ')'
}

/// Whether `c` is one of the operators that are identifiers by themselves
/// and begin no longer lexeme.
pub open spec fn is_operator(c: char) -> bool {
    c == '+' || c == '*' || c == '/' || c == '<' || c == '>'
}

/// Where the lexeme that holds the character at `from` ends: the place of
/// the first character at or after `from` that ends a lexeme, or the end of
/// the input.
pub open spec fn lexeme_end(input: Seq<char>, from: int) -> int
    decreases input.len() - from,
{
    if !(0 <= from < input.len()) || should_finish_scanning_model(input[from]) {
        from
    } else {
        lexeme_end(input, from + 1)
    }
}

/// The place of the first double quote at or after `from`, or the end of
/// the input.
pub open spec fn string_end(input: Seq<char>, from: int) -> int
    decreases input.len() - from,
{
    if !(0 <= from < input.len()) || input[from] == '"' {
        from
    } else {
        string_end(input, from + 1)
    }
}

/// Where the numeral that holds the character at `from` ends, `seen_point`
/// saying whether a decimal point came before `from`; or what is wrong with
/// the first character that cannot stand in it.
pub open spec fn number_end(input: Seq<char>, from: int, seen_point: bool) -> Result<
    int,
    LisrScanErrorView,
>
    decreases input.len() - from,
{
    if !(0 <= from < input.len()) {
        Ok(from)
    } else if input[from] == '.' {
        if seen_point {
            Err(
                LisrScanErrorView::InvalidNumber {
                    reason: "A number cannot have more than one decimal point."@,
                },
            )
        } else {
            number_end(input, from + 1, true)
        }
    } else if should_finish_scanning_model(input[from]) {
        Ok(from)
    } else if !is_digit_model(input[from]) {
        Err(LisrScanErrorView::InvalidNumber { reason: "Numbers can contain digits only."@ })
    } else {
        number_end(input, from + 1, seen_point)
    }
}

/// Whether a digit occurs in `text`.
pub open spec fn any_digit(text: Seq<char>) -> bool
    decreases text.len(),
{
    text.len() > 0 && (is_digit_model(text.last()) || any_digit(text.drop_last()))
}

/// The keyword that `lexeme` spells, or else the identifier of that name.
pub open spec fn match_keyword_or_identifier_model(lexeme: Seq<char>) -> TokenView {
    if lexeme == "set!"@ {
        TokenView::SetBang
    } else if lexeme == "define"@ {
        TokenView::Define
    } else if lexeme == "true"@ {
        TokenView::True
    } else if lexeme == "false"@ {
        TokenView::False
    } else if lexeme == "if"@ {
        TokenView::If
    } else if lexeme == "and"@ {
        TokenView::And
    } else if lexeme == "or"@ {
        TokenView::Or
    } else if lexeme == "lambda"@ {
        TokenView::Lambda
    } else if lexeme == "begin"@ {
        TokenView::Begin
    } else if lexeme == "cons"@ {
        TokenView::Cons
    } else {
        TokenView::Identifier { name: lexeme }
    }
}

/// A quotation whose text starts at `from`: the token and where scanning
/// goes on.
pub open spec fn scan_quotation_model(input: Seq<char>, from: int) -> Result<
    (TokenView, int),
    LisrScanErrorView,
> {
    let end = lexeme_end(input, from);
    if end == from {
        Err(LisrScanErrorView::EmptyQuotation)
    } else {
        Ok((TokenView::Quotation { text_of_quotation: input.subrange(from, end) }, end))
    }
}

/// A string whose text starts at `from`, after its opening quote: the
/// token and where scanning goes on, after the closing quote.
pub open spec fn scan_string_model(input: Seq<char>, from: int) -> Result<
    (TokenView, int),
    LisrScanErrorView,
> {
    let end = string_end(input, from);
    if 0 <= end < input.len() {
        Ok((TokenView::String { value: input.subrange(from, end) }, end + 1))
    } else {
        Err(LisrScanErrorView::UnclosedString)
    }
}

/// A numeral that starts at `from`, after a minus sign where `negative`
/// is set: the token and where scanning goes on.
pub open spec fn scan_number_model(input: Seq<char>, from: int, negative: bool) -> Result<
    (TokenView, int),
    LisrScanErrorView,
> {
    match number_end(input, from, false) {
        Err(error) => Err(error),
        Ok(end) => {
            let digits = input.subrange(from, end);
            if any_digit(digits) {
                Ok((TokenView::Number { value: NumberView::Decimal { negative, digits } }, end))
            } else {
                Err(
                    LisrScanErrorView::InvalidNumber {
                        reason: "Could not parse the number. Only 64-bit floats represented in decimal system are allowed."@,
                    },
                )
            }
        },
    }
}

/// A keyword or an identifier that starts at `from`: the token and where
/// scanning goes on.
pub open spec fn scan_identifier_model(input: Seq<char>, from: int) -> Result<
    (TokenView, int),
    LisrScanErrorView,
>
    recommends
        0 <= from < input.len(),
{
    if is_digit_model(input[from]) {
        Err(
            LisrScanErrorView::InvalidIdentifier {
                reason: "Identifier cannot start with a digit."@,
            },
        )
    } else {
        let end = lexeme_end(input, from + 1);
        Ok((match_keyword_or_identifier_model(input.subrange(from, end)), end))
    }
}

/// The quotation, string, number, keyword or identifier that starts at
/// `from`: the token and where scanning goes on.
pub open spec fn scan_literal_model(input: Seq<char>, from: int) -> Result<
    (TokenView, int),
    LisrScanErrorView,
>
    recommends
        0 <= from < input.len(),
{
    if input[from] == '\'' {
        scan_quotation_model(input, from + 1)
    } else if input[from] == '"' {
        scan_string_model(input, from + 1)
    } else if is_digit_model(input[from]) || input[from] == '.' {
        scan_number_model(input, from, false)
    } else {
        scan_identifier_model(input, from)
    }
}

/// `tokens`, and then what `rest` holds.
pub open spec fn prefixed(
    tokens: Seq<TokenView>,
    rest: Result<Seq<TokenView>, LisrScanErrorView>,
) -> Result<Seq<TokenView>, LisrScanErrorView> {
    match rest {
        Ok(others) => Ok(tokens + others),
        Err(error) => Err(error),
    }
}

/// The tokens of `input` from `from` on, or the first error.
///
/// A minus sign or an operator is an identifier by itself where the text
/// ends after it or a character that ends a lexeme follows it; that character
/// stays where it is and is scanned next, so that a parenthesis after an
/// operator is a token of its own. A minus sign before anything else starts a
/// negative numeral; an operator before anything else is an error.
pub open spec fn scan_model(input: Seq<char>, from: int) -> Result<
    Seq<TokenView>,
    LisrScanErrorView,
>
    decreases input.len() - from,
{
    if !(0 <= from < input.len()) {
        Ok(Seq::empty())
    } else if input[from] == '(' {
        prefixed(seq![TokenView::LeftParen], scan_model(input, from + 1))
    } else if input[from] == ')' {
        prefixed(seq![TokenView::RightParen], scan_model(input, from + 1))
    } else if input[from] == '-' {
        if from + 1 == input.len() || should_finish_scanning_model(input[from + 1]) {
            prefixed(seq![TokenView::Identifier { name: seq!['-'] }], scan_model(input, from + 1))
        } else {
            match scan_number_model(input, from + 1, true) {
                Ok((token, next)) => {
                    proof {
                        lemma_number_end(input, from + 1, false);
                    }
                    prefixed(seq![token], scan_model(input, next))
                },
                Err(error) => Err(error),
            }
        }
    } else if is_operator(input[from]) {
        if from + 1 == input.len() || should_finish_scanning_model(input[from + 1]) {
            prefixed(
                seq![TokenView::Identifier { name: seq![input[from]] }],
                scan_model(input, from + 1),
            )
        } else {
            Err(
                LisrScanErrorView::InvalidIdentifier {
                    reason: "Identifier cannot start with an operator."@,
                },
            )
        }
    } else if is_whitespace_model(input[from]) {
        scan_model(input, from + 1)
    } else {
        match scan_literal_model(input, from) {
            Ok((token, next)) => {
                proof {
                    lemma_scan_literal_advances(input, from);
                }
                prefixed(seq![token], scan_model(input, next))
            },
            Err(error) => Err(error),
        }
    }
}

/// A lexeme ends at or after its start, within the input.
pub proof fn lemma_lexeme_end(input: Seq<char>, from: int)
    requires
        0 <= from <= input.len(),
    ensures
        from <= lexeme_end(input, from) <= input.len(),
        forall|i: int| from <= i < lexeme_end(input, from) ==> !should_finish_scanning_model(input[i]),
        lexeme_end(input, from) < input.len() ==> should_finish_scanning_model(
            input[lexeme_end(input, from)],
        ),
    decreases input.len() - from,
{
    if from < input.len() && !should_finish_scanning_model(input[from]) {
        lemma_lexeme_end(input, from + 1);
    }
}

/// A string ends at or after its start, within the input.
pub proof fn lemma_string_end(input: Seq<char>, from: int)
    requires
        0 <= from <= input.len(),
    ensures
        from <= string_end(input, from) <= input.len(),
        forall|i: int| from <= i < string_end(input, from) ==> input[i] != '"',
        string_end(input, from) < input.len() ==> input[string_end(input, from)] == '"',
    decreases input.len() - from,
{
    if from < input.len() && input[from] != '"' {
        lemma_string_end(input, from + 1);
    }
}

/// A numeral ends at or after its start, within the input.
pub proof fn lemma_number_end(input: Seq<char>, from: int, seen_point: bool)
    requires
        0 <= from <= input.len(),
    ensures
        number_end(input, from, seen_point) is Ok ==> from <= number_end(
            input,
            from,
            seen_point,
        )->Ok_0 <= input.len(),
    decreases input.len() - from,
{
    if from < input.len() {
        if input[from] == '.' {
            if !seen_point {
                lemma_number_end(input, from + 1, true);
            }
        } else if !should_finish_scanning_model(input[from]) && is_digit_model(input[from]) {
            lemma_number_end(input, from + 1, seen_point);
        }
    }
}

/// Scanning goes on after the place where a literal started.
pub proof fn lemma_scan_literal_advances(input: Seq<char>, from: int)
    requires
        0 <= from < input.len(),
    ensures
        scan_literal_model(input, from) is Ok ==> from < scan_literal_model(input, from)->Ok_0.1
            <= input.len(),
{
    lemma_lexeme_end(input, from + 1);
    lemma_string_end(input, from + 1);
    lemma_number_end(input, from, false);
    if is_digit_model(input[from]) || input[from] == '.' {
        if number_end(input, from, false) is Ok {
            let end = number_end(input, from, false)->Ok_0;
            if end == from {
                assert(input.subrange(from, end).len() == 0);
            }
        }
    }
}

/// The model of what scanning one token comes to.
pub open spec fn scanned_view<'a>(result: Result<(Token, usize), LisrScanError<'a>>) -> Result<
    (TokenView, int),
    LisrScanErrorView,
> {
    match result {
        Ok((token, next)) => Ok((token@, next as int)),
        Err(error) => Err(error@),
    }
}

/// The model of what scanning comes to.
pub open spec fn scan_result_view<'a>(result: Result<Vec<Token>, LisrScanError<'a>>) -> Result<
    Seq<TokenView>,
    LisrScanErrorView,
> {
    match result {
        Ok(tokens) => Ok(tokens_view(tokens@)),
        Err(error) => Err(error@),
    }
}

/// Whether `c` ends a lexeme.
pub fn should_finish_scanning(c: char) -> (finish: bool)
    ensures
        finish == should_finish_scanning_model(c),
{
    is_whitespace(c) || c == '(' || c == ')'
}

/// Whether `lexeme` is spelled `word`.
fn spells(lexeme: &String, word: &str) -> (same: bool)
    ensures
        same == (lexeme@ == word@),
{
    let other = String::from_str(word);
    *lexeme == other
}

fn match_keyword_or_identifier(lexeme: String) -> (token: Token)
    ensures
        token@ == match_keyword_or_identifier_model(lexeme@),
{
    if spells(&lexeme, "set!") {
        Token::SetBang
    } else if spells(&lexeme, "define") {
        Token::Define
    } else if spells(&lexeme, "true") {
        Token::True
    } else if spells(&lexeme, "false") {
        Token::False
    } else if spells(&lexeme, "if") {
        Token::If
    } else if spells(&lexeme, "and") {
        Token::And
    } else if spells(&lexeme, "or") {
        Token::Or
    } else if spells(&lexeme, "lambda") {
        Token::Lambda
    } else if spells(&lexeme, "begin") {
        Token::Begin
    } else if spells(&lexeme, "cons") {
        Token::Cons
    } else {
        Token::Identifier { name: lexeme }
    }
}

/// Where the lexeme that holds the character at `from` ends.
fn find_lexeme_end(input: &Vec<char>, from: usize) -> (end: usize)
    requires
        from <= input.len(),
    ensures
        end == lexeme_end(input@, from as int),
        from <= end <= input.len(),
{
    let mut end: usize = from;
    while end < input.len() && !should_finish_scanning(input[end])
        invariant
            from <= end <= input.len(),
            lexeme_end(input@, from as int) == lexeme_end(input@, end as int),
        decreases input.len() - end,
    {
        end = end + 1;
    }
    end
}

fn scan_quotation(input: &Vec<char>, from: usize) -> (result: Result<
    (Token, usize),
    LisrScanError<'static>,
>)
    requires
        from <= input.len(),
    ensures
        scanned_view(result) == scan_quotation_model(input@, from as int),
{
    let end = find_lexeme_end(input, from);
    if end == from {
        Err(LisrScanError::EmptyQuotation)
    } else {
        Ok((Token::Quotation { text_of_quotation: text_between(input, from, end) }, end))
    }
}

fn scan_string(input: &Vec<char>, from: usize) -> (result: Result<
    (Token, usize),
    LisrScanError<'static>,
>)
    requires
        from <= input.len(),
    ensures
        scanned_view(result) == scan_string_model(input@, from as int),
{
    let mut end: usize = from;
    while end < input.len() && input[end] != '"'
        invariant
            from <= end <= input.len(),
            string_end(input@, from as int) == string_end(input@, end as int),
        decreases input.len() - end,
    {
        end = end + 1;
    }
    if end < input.len() {
        Ok((Token::String { value: text_between(input, from, end) }, end + 1))
    } else {
        Err(LisrScanError::UnclosedString)
    }
}

fn scan_number(input: &Vec<char>, from: usize, negative: bool) -> (result: Result<
    (Token, usize),
    LisrScanError<'static>,
>)
    requires
        from <= input.len(),
    ensures
        scanned_view(result) == scan_number_model(input@, from as int, negative),
{
    let mut end: usize = from;
    let mut is_decimal = false;
    let mut has_digit = false;
    proof {
        assert(input@.subrange(from as int, end as int).len() == 0);
    }
    while end < input.len()
        invariant
            from <= end <= input.len(),
            number_end(input@, from as int, false) == number_end(input@, end as int, is_decimal),
            has_digit == any_digit(input@.subrange(from as int, end as int)),
        ensures
            from <= end <= input.len(),
            number_end(input@, from as int, false) == Ok::<int, LisrScanErrorView>(end as int),
            has_digit == any_digit(input@.subrange(from as int, end as int)),
        decreases input.len() - end,
    {
        let c: char = input[end];
        proof {
            let next = input@.subrange(from as int, end + 1);
            assert(next.drop_last() == input@.subrange(from as int, end as int));
            assert(next.last() == c);
        }
        if c == '.' {
            if is_decimal {
                return Err(
                    LisrScanError::InvalidNumber {
                        reason: "A number cannot have more than one decimal point.",
                    },
                );
            }
            is_decimal = true;
        } else if should_finish_scanning(c) {
            break ;
        } else if !is_digit(c) {
            return Err(
                LisrScanError::InvalidNumber { reason: "Numbers can contain digits only." },
            );
        } else {
            has_digit = true;
        }
        end = end + 1;
    }
    if has_digit {
        let digits = text_between(input, from, end);
        Ok((Token::Number { value: Number::Decimal { negative, digits } }, end))
    } else {
        Err(
            LisrScanError::InvalidNumber {
                reason: "Could not parse the number. Only 64-bit floats represented in decimal system are allowed.",
            },
        )
    }
}

fn scan_identifier(input: &Vec<char>, from: usize) -> (result: Result<
    (Token, usize),
    LisrScanError<'static>,
>)
    requires
        from < input.len(),
    ensures
        scanned_view(result) == scan_identifier_model(input@, from as int),
{
    if is_digit(input[from]) {
        return Err(
            LisrScanError::InvalidIdentifier { reason: "Identifier cannot start with a digit." },
        );
    }
    let end = find_lexeme_end(input, from + 1);
    Ok((match_keyword_or_identifier(text_between(input, from, end)), end))
}

fn scan_literal(input: &Vec<char>, from: usize) -> (result: Result<
    (Token, usize),
    LisrScanError<'static>,
>)
    requires
        from < input.len(),
    ensures
        scanned_view(result) == scan_literal_model(input@, from as int),
{
    let c: char = input[from];
    if c == '\'' {
        scan_quotation(input, from + 1)
    } else if c == '"' {
        scan_string(input, from + 1)
    } else if is_digit(c) || c == '.' {
        scan_number(input, from, false)
    } else {
        scan_identifier(input, from)
    }
}

/// The identifier that is spelled with the one character `c`.
fn single_character_identifier(c: char) -> (token: Token)
    ensures
        token@ == (TokenView::Identifier { name: seq![c] }),
{
    let mut name = String::new();
    name.push(c);
    assert(name@ =~= seq![c]);
    Token::Identifier { name }
}

/// Scans program text into its tokens.
pub fn scan(input: &str) -> (result: Result<Vec<Token>, LisrScanError<'_>>)
    ensures
        scan_result_view(result) == scan_model(input@, 0),
        result is Ok ==> numbers_are_numerals(tokens_view(result->Ok_0@)),
{
    proof {
        if scan_model(input@, 0) is Ok {
            law_scanned_numbers_are_numerals(input@, 0);
        }
    }
    let chars = characters(input);
    let mut tokens: Vec<Token> = Vec::new();
    let mut position: usize = 0;
    proof {
        assert(tokens_view(tokens@) + scan_model(chars@, 0)->Ok_0 =~= scan_model(chars@, 0)->Ok_0);
    }
    while position < chars.len()
        invariant
            chars@ == input@,
            position <= chars.len(),
            scan_model(chars@, 0) == prefixed(
                tokens_view(tokens@),
                scan_model(chars@, position as int),
            ),
        decreases chars.len() - position,
    {
        let c: char = chars[position];
        let ghost before = tokens_view(tokens@);
        let token: Option<Token>;
        let next: usize;
        if c == '(' {
            token = Some(Token::LeftParen);
            next = position + 1;
        } else if c == ')' {
            token = Some(Token::RightParen);
            next = position + 1;
        } else if c == '-' {
            if position + 1 == chars.len() || should_finish_scanning(chars[position + 1]) {
                // What ends the lexeme stays, and is scanned next.
                token = Some(single_character_identifier(c));
                next = position + 1;
            } else {
                proof {
                    lemma_number_end(chars@, position + 1, false);
                }
                match scan_number(&chars, position + 1, true) {
                    Ok((number, end)) => {
                        token = Some(number);
                        next = end;
                    },
                    Err(error) => {
                        return Err(error);
                    },
                }
            }
        } else if c == '+' || c == '*' || c == '/' || c == '<' || c == '>' {
            if position + 1 == chars.len() || should_finish_scanning(chars[position + 1]) {
                // What ends the lexeme stays, and is scanned next.
                token = Some(single_character_identifier(c));
                next = position + 1;
            } else {
                return Err(
                    LisrScanError::InvalidIdentifier {
                        reason: "Identifier cannot start with an operator.",
                    },
                );
            }
        } else if is_whitespace(c) {
            token = None;
            next = position + 1;
        } else {
            proof {
                lemma_scan_literal_advances(chars@, position as int);
            }
            match scan_literal(&chars, position) {
                Ok((literal, end)) => {
                    token = Some(literal);
                    next = end;
                },
                Err(error) => {
                    return Err(error);
                },
            }
        }
        match token {
            Some(token) => {
                tokens.push(token);
                proof {
                    assert(tokens_view(tokens@) =~= before + seq![token@]);
                    let rest = scan_model(chars@, next as int);
                    if rest is Ok {
                        assert(before + (seq![token@] + rest->Ok_0) =~= (before + seq![token@])
                            + rest->Ok_0);
                    }
                }
            },
            None => {},
        }
        position = next;
    }
    proof {
        assert(tokens_view(tokens@) + Seq::<TokenView>::empty() =~= tokens_view(tokens@));
    }
    Ok(tokens)
}

/// Whether `text` is a numeral: decimal digits, one of them at least, with
/// at most one decimal point among them.
pub open spec fn is_numeral(text: Seq<char>) -> bool {
    &&& any_digit(text)
    &&& forall|i: int| 0 <= i < text.len() ==> is_digit_model(#[trigger] text[i]) || text[i] == '.'
    &&& forall|i: int, j: int| 0 <= i < j < text.len() && text[i] == '.' ==> text[j] != '.'
}

/// What lies before the end of a numeral is digits, with at most one
/// decimal point, and none where one came before.
proof fn lemma_number_end_text(input: Seq<char>, from: int, seen_point: bool)
    requires
        0 <= from <= input.len(),
        number_end(input, from, seen_point) is Ok,
    ensures
        from <= number_end(input, from, seen_point)->Ok_0 <= input.len(),
        forall|i: int|
            from <= i < number_end(input, from, seen_point)->Ok_0 ==> is_digit_model(
                #[trigger] input[i],
            ) || input[i] == '.',
        forall|i: int, j: int|
            from <= i < j < number_end(input, from, seen_point)->Ok_0 && input[i] == '.'
                ==> input[j] != '.',
        seen_point ==> forall|i: int|
            from <= i < number_end(input, from, seen_point)->Ok_0 ==> input[i] != '.',
    decreases input.len() - from,
{
    if from < input.len() {
        if input[from] == '.' {
            lemma_number_end_text(input, from + 1, true);
        } else if !should_finish_scanning_model(input[from]) {
            lemma_number_end_text(input, from + 1, seen_point);
        }
    }
}

/// The number that a numeral was scanned into holds a numeral.
pub proof fn law_scanned_number_is_numeral(input: Seq<char>, from: int, negative: bool)
    requires
        0 <= from <= input.len(),
        scan_number_model(input, from, negative) is Ok,
    ensures
        scan_number_model(input, from, negative)->Ok_0.0 is Number,
        scan_number_model(input, from, negative)->Ok_0.0->Number_value is Decimal,
        is_numeral(scan_number_model(input, from, negative)->Ok_0.0->Number_value->digits),
{
    lemma_number_end_text(input, from, false);
}

/// Whether each number among `tokens` is written as a numeral.
pub open spec fn numbers_are_numerals(tokens: Seq<TokenView>) -> bool {
    forall|i: int|
        0 <= i < tokens.len() ==> (#[trigger] tokens[i] matches TokenView::Number { value }
            ==> value matches NumberView::Decimal { digits, .. } && is_numeral(digits))
}

/// Every number among the tokens of a text is written as a numeral: its
/// value can be computed.
pub proof fn law_scanned_numbers_are_numerals(input: Seq<char>, from: int)
    requires
        0 <= from,
        scan_model(input, from) is Ok,
    ensures
        numbers_are_numerals(scan_model(input, from)->Ok_0),
    decreases input.len() - from,
{
    if from < input.len() {
        let c = input[from];
        if c == '(' || c == ')' {
            law_scanned_numbers_are_numerals(input, from + 1);
            lemma_prefixed_numerals(
                if c == '(' {
                    TokenView::LeftParen
                } else {
                    TokenView::RightParen
                },
                scan_model(input, from + 1)->Ok_0,
            );
        } else if c == '-' {
            if from + 1 == input.len() || should_finish_scanning_model(input[from + 1]) {
                law_scanned_numbers_are_numerals(input, from + 1);
                lemma_prefixed_numerals(
                    TokenView::Identifier { name: seq!['-'] },
                    scan_model(input, from + 1)->Ok_0,
                );
            } else {
                let (token, next) = scan_number_model(input, from + 1, true)->Ok_0;
                lemma_number_end(input, from + 1, false);
                law_scanned_number_is_numeral(input, from + 1, true);
                law_scanned_numbers_are_numerals(input, next);
                lemma_prefixed_numerals(token, scan_model(input, next)->Ok_0);
            }
        } else if is_operator(c) {
            law_scanned_numbers_are_numerals(input, from + 1);
            lemma_prefixed_numerals(
                TokenView::Identifier { name: seq![c] },
                scan_model(input, from + 1)->Ok_0,
            );
        } else if is_whitespace_model(c) {
            law_scanned_numbers_are_numerals(input, from + 1);
        } else {
            let (token, next) = scan_literal_model(input, from)->Ok_0;
            lemma_scan_literal_advances(input, from);
            if is_digit_model(c) || c == '.' {
                law_scanned_number_is_numeral(input, from, false);
            }
            law_scanned_numbers_are_numerals(input, next);
            lemma_prefixed_numerals(token, scan_model(input, next)->Ok_0);
        }
    }
}

/// A token that is no number, or a number written as a numeral, may come
/// before tokens whose numbers are numerals.
proof fn lemma_prefixed_numerals(token: TokenView, others: Seq<TokenView>)
    requires
        numbers_are_numerals(others),
        token matches TokenView::Number { value } ==> value matches NumberView::Decimal {
            digits,
            ..
        } && is_numeral(digits),
    ensures
        numbers_are_numerals(seq![token] + others),
{
    let all = seq![token] + others;
    assert forall|i: int| 0 <= i < all.len() implies (#[trigger] all[i] matches TokenView::Number {
        value,
    } ==> value matches NumberView::Decimal { digits, .. } && is_numeral(digits)) by {
        if i > 0 {
            assert(all[i] == others[i - 1]);
        }
    }
}

} // verus!
