//! What the machine and its host say to each other.
//!
//! The machine computes nothing on binary64 numbers. It asks its host for
//! each such computation with a [`Request`], and the host answers with an
//! [`Event`].

use vstd::prelude::*;
use crate::evaluation_errors::{LisrEvaluationError, LisrEvaluationErrorView};
use crate::expression::{Expression, ExpressionView};
use crate::token::{Number, NumberView};

verus! {

/// An operation of binary64 arithmetic on two numbers that yields a
/// number.
#[derive(Debug, Clone, Copy, PartialEq, Eq)]
pub enum Operator {
    Add,
    Subtract,
    Multiply,
    Divide,
    /// The remainder of the division whose quotient is rounded towards
    /// zero: it has the sign of the dividend.
    Remainder,
}

/// A relation of binary64 arithmetic between two numbers.
#[derive(Debug, Clone, Copy, PartialEq, Eq)]
pub enum Relation {
    Equal,
    Less,
}

/// A computation that the machine asks of its host.
///
/// A number among the operands is a bit pattern or, where a numeral came
/// this far as it was written, a numeral: the host takes either for its
/// value.
#[derive(Debug, PartialEq)]
pub enum Request {
    /// The binary64 value nearest to a numeral, times minus one where
    /// `negative` is set. Answered by [`Event::Number`].
    Convert { negative: bool, digits: String },
    /// `left operator right`. Answered by [`Event::Number`].
    Arithmetic { operator: Operator, left: Number, right: Number },
    /// Whether `left relation right` holds. Answered by [`Event::Truth`].
    Compare { relation: Relation, left: Number, right: Number },
}

/// The mathematical model of a [`Request`].
pub enum RequestView {
    Convert { negative: bool, digits: Seq<char> },
    Arithmetic { operator: Operator, left: NumberView, right: NumberView },
    Compare { relation: Relation, left: NumberView, right: NumberView },
}

impl View for Request {
    type V = RequestView;

    open spec fn view(&self) -> RequestView {
        match *self {
            Request::Convert { negative, digits } => RequestView::Convert {
                negative,
                digits: digits@,
            },
            Request::Arithmetic { operator, left, right } => RequestView::Arithmetic {
                operator,
                left: left@,
                right: right@,
            },
            Request::Compare { relation, left, right } => RequestView::Compare {
                relation,
                left: left@,
                right: right@,
            },
        }
    }
}

/// What the host tells the machine when it makes it step.
#[derive(Debug, Clone, Copy, PartialEq, Eq)]
pub enum Event {
    /// Nothing: go on.
    Resume,
    /// The bit pattern of the number that was asked for.
    Number { bits: u64 },
    /// Whether the relation that was asked about holds.
    Truth { holds: bool },
}

/// What the machine tells its host after a step.
#[derive(Debug, PartialEq)]
pub enum Action {
    /// Nothing is needed: step again.
    Continue,
    /// Compute this and step again with the answer.
    Ask { request: Request },
    /// Evaluation is over, with this result.
    Finish { result: Result<Expression, LisrEvaluationError> },
}

/// The mathematical model of an [`Action`].
pub enum ActionView {
    Continue,
    Ask { request: RequestView },
    Finish { result: Result<ExpressionView, LisrEvaluationErrorView> },
}

/// The model of a result of evaluation.
pub open spec fn result_view(result: Result<Expression, LisrEvaluationError>) -> Result<
    ExpressionView,
    LisrEvaluationErrorView,
> {
    match result {
        Ok(value) => Ok(value@),
        Err(error) => Err(error@),
    }
}

impl View for Action {
    type V = ActionView;

    open spec fn view(&self) -> ActionView {
        match *self {
            Action::Continue => ActionView::Continue,
            Action::Ask { request } => ActionView::Ask { request: request@ },
            Action::Finish { result } => ActionView::Finish { result: result_view(result) },
        }
    }
}

impl Request {
    /// An independent copy of the request.
    pub fn duplicate(&self) -> (copy: Request)
        ensures
            copy@ == self@,
    {
        match self {
            Request::Convert { negative, digits } => Request::Convert {
                negative: *negative,
                digits: digits.clone(),
            },
            Request::Arithmetic { operator, left, right } => Request::Arithmetic {
                operator: *operator,
                left: left.duplicate(),
                right: right.duplicate(),
            },
            Request::Compare { relation, left, right } => Request::Compare {
                relation: *relation,
                left: left.duplicate(),
                right: right.duplicate(),
            },
        }
    }
}

} // verus!
