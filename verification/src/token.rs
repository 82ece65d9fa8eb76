//! Tokens, the scanner's output.

use vstd::prelude::*;

verus! {

/// A number of the language.
///
/// Program text writes numbers in decimal. A computed number is a binary64
/// value, held by its bit pattern.
#[derive(Debug, Clone, PartialEq)]
pub enum Number {
    /// A numeral as written: digits with at most one decimal point, and
    /// whether a minus sign stood before them.
    Decimal { negative: bool, digits: String },
    /// The IEEE 754 binary64 bit pattern of a value.
    Binary { bits: u64 },
}

/// The mathematical model of a [`Number`].
pub enum NumberView {
    Decimal { negative: bool, digits: Seq<char> },
    Binary { bits: u64 },
}

impl View for Number {
    type V = NumberView;

    open spec fn view(&self) -> NumberView {
        match *self {
            Number::Decimal { negative, digits } => NumberView::Decimal { negative, digits: digits@ },
            Number::Binary { bits } => NumberView::Binary { bits },
        }
    }
}

impl Number {
    /// An independent copy of the number.
    pub fn duplicate(&self) -> (copy: Number)
        ensures
            copy@ == self@,
    {
        match self {
            Number::Decimal { negative, digits } => Number::Decimal {
                negative: *negative,
                digits: digits.clone(),
            },
            Number::Binary { bits } => Number::Binary { bits: *bits },
        }
    }
}

/// A token of program text.
#[derive(Debug, PartialEq, Clone)]
pub enum Token {
    LeftParen,
    RightParen,
    /// A string, without the double quotes around it.
    String { value: String },
    Number { value: Number },
    /// A quotation, without the quote before it.
    Quotation { text_of_quotation: String },
    Identifier { name: String },
    /// The keyword `set!`.
    SetBang,
    Define,
    True,
    False,
    If,
    And,
    Or,
    Lambda,
    Begin,
    Cons,
}

/// The mathematical model of a [`Token`].
pub enum TokenView {
    LeftParen,
    RightParen,
    String { value: Seq<char> },
    Number { value: NumberView },
    Quotation { text_of_quotation: Seq<char> },
    Identifier { name: Seq<char> },
    SetBang,
    Define,
    True,
    False,
    If,
    And,
    Or,
    Lambda,
    Begin,
    Cons,
}

impl View for Token {
    type V = TokenView;

    open spec fn view(&self) -> TokenView {
        match *self {
            Token::LeftParen => TokenView::LeftParen,
            Token::RightParen => TokenView::RightParen,
            Token::String { value } => TokenView::String { value: value@ },
            Token::Number { value } => TokenView::Number { value: value@ },
            Token::Quotation { text_of_quotation } => TokenView::Quotation {
                text_of_quotation: text_of_quotation@,
            },
            Token::Identifier { name } => TokenView::Identifier { name: name@ },
            Token::SetBang => TokenView::SetBang,
            Token::Define => TokenView::Define,
            Token::True => TokenView::True,
            Token::False => TokenView::False,
            Token::If => TokenView::If,
            Token::And => TokenView::And,
            Token::Or => TokenView::Or,
            Token::Lambda => TokenView::Lambda,
            Token::Begin => TokenView::Begin,
            Token::Cons => TokenView::Cons,
        }
    }
}

impl Token {
    /// An independent copy of the token.
    pub fn duplicate(&self) -> (copy: Token)
        ensures
            copy@ == self@,
    {
        match self {
            Token::LeftParen => Token::LeftParen,
            Token::RightParen => Token::RightParen,
            Token::String { value } => Token::String { value: value.clone() },
            Token::Number { value } => Token::Number { value: value.duplicate() },
            Token::Quotation { text_of_quotation } => Token::Quotation {
                text_of_quotation: text_of_quotation.clone(),
            },
            Token::Identifier { name } => Token::Identifier { name: name.clone() },
            Token::SetBang => Token::SetBang,
            Token::Define => Token::Define,
            Token::True => Token::True,
            Token::False => Token::False,
            Token::If => Token::If,
            Token::And => Token::And,
            Token::Or => Token::Or,
            Token::Lambda => Token::Lambda,
            Token::Begin => Token::Begin,
            Token::Cons => Token::Cons,
        }
    }
}

/// The models of the tokens of a sequence, in order.
pub open spec fn tokens_view(tokens: Seq<Token>) -> Seq<TokenView> {
    Seq::new(tokens.len(), |i: int| tokens[i]@)
}

} // verus!
