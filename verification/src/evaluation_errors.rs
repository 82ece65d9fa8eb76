//! The errors of evaluation.

use vstd::prelude::*;

verus! {

/// What can go wrong while a program is evaluated.
#[derive(Debug, PartialEq)]
pub enum LisrEvaluationError {
    RuntimeError { reason: &'static str },
    TypeError,
    UndefinedIdentifier,
}

/// The mathematical model of a [`LisrEvaluationError`].
pub enum LisrEvaluationErrorView {
    RuntimeError { reason: Seq<char> },
    TypeError,
    UndefinedIdentifier,
}

impl View for LisrEvaluationError {
    type V = LisrEvaluationErrorView;

    open spec fn view(&self) -> LisrEvaluationErrorView {
        match *self {
            LisrEvaluationError::RuntimeError { reason } => LisrEvaluationErrorView::RuntimeError {
                reason: reason@,
            },
            LisrEvaluationError::TypeError => LisrEvaluationErrorView::TypeError,
            LisrEvaluationError::UndefinedIdentifier => LisrEvaluationErrorView::UndefinedIdentifier,
        }
    }
}

impl LisrEvaluationError {
    /// A copy of the error.
    pub fn duplicate(&self) -> (copy: LisrEvaluationError)
        ensures
            copy@ == self@,
    {
        match self {
            LisrEvaluationError::RuntimeError { reason } => LisrEvaluationError::RuntimeError {
                reason: *reason,
            },
            LisrEvaluationError::TypeError => LisrEvaluationError::TypeError,
            LisrEvaluationError::UndefinedIdentifier => LisrEvaluationError::UndefinedIdentifier,
        }
    }
}

} // verus!
