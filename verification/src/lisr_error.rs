//! The errors of all stages, under one type.

use vstd::prelude::*;
use vstd::std_specs::convert::FromSpecImpl;
use crate::evaluation_errors::{LisrEvaluationError, LisrEvaluationErrorView};
use crate::parse::LisrParseError;
use crate::scan::{LisrScanError, LisrScanErrorView};

verus! {

/// An error of any stage.
#[derive(Debug, PartialEq)]
pub enum LisrError<'a> {
    Scan(LisrScanError<'a>),
    Parse(LisrParseError),
    Evaluation(LisrEvaluationError),
}

/// The mathematical model of a [`LisrError`].
pub enum LisrErrorView {
    Scan(LisrScanErrorView),
    Parse(LisrParseError),
    Evaluation(LisrEvaluationErrorView),
}

impl<'a> View for LisrError<'a> {
    type V = LisrErrorView;

    open spec fn view(&self) -> LisrErrorView {
        match *self {
            LisrError::Scan(error) => LisrErrorView::Scan(error@),
            LisrError::Parse(error) => LisrErrorView::Parse(error),
            LisrError::Evaluation(error) => LisrErrorView::Evaluation(error@),
        }
    }
}

impl<'a> From<LisrScanError<'a>> for LisrError<'a> {
    fn from(error: LisrScanError<'a>) -> (wrapped: Self)
        ensures
            wrapped == LisrError::Scan(error),
    {
        LisrError::Scan(error)
    }
}

impl<'a> FromSpecImpl<LisrScanError<'a>> for LisrError<'a> {
    open spec fn obeys_from_spec() -> bool {
        true
    }

    open spec fn from_spec(error: LisrScanError<'a>) -> Self {
        LisrError::Scan(error)
    }
}

impl From<LisrParseError> for LisrError<'_> {
    fn from(error: LisrParseError) -> (wrapped: Self)
        ensures
            wrapped == LisrError::Parse(error),
    {
        LisrError::Parse(error)
    }
}

impl FromSpecImpl<LisrParseError> for LisrError<'_> {
    open spec fn obeys_from_spec() -> bool {
        true
    }

    open spec fn from_spec(error: LisrParseError) -> Self {
        LisrError::Parse(error)
    }
}

impl From<LisrEvaluationError> for LisrError<'_> {
    fn from(error: LisrEvaluationError) -> (wrapped: Self)
        ensures
            wrapped == LisrError::Evaluation(error),
    {
        LisrError::Evaluation(error)
    }
}

impl FromSpecImpl<LisrEvaluationError> for LisrError<'_> {
    open spec fn obeys_from_spec() -> bool {
        true
    }

    open spec fn from_spec(error: LisrEvaluationError) -> Self {
        LisrError::Evaluation(error)
    }
}

} // verus!
