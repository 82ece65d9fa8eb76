//! A tree-walking interpreter for a small Lisp dialect.
//!
//! Program text is scanned into tokens, parsed into nodes, translated into
//! expressions and evaluated by a step machine:
//!
//! - [`scan`], [`parse`] and [`translate`] are the three stages before
//!   evaluation; [`interpret`] runs them and starts the machine.
//! - [`evaluate`] holds the machine, [`transition`] says as mathematics
//!   which state follows which, and [`host`] what the machine and its host
//!   say to each other: the machine never computes with binary floating
//!   point itself, it hands each such computation to its host and goes on
//!   with the answer.
//! - [`semantics`] says what expressions evaluate to by recursion on
//!   their structure, and proves that the machine computes just that;
//!   [`completeness`] proves that the semantics says so of whatever the
//!   machine comes to, with the help of [`fuel`]; [`run`] holds what is true
//!   of every run.

pub mod completeness;
pub mod environment;
pub mod evaluate;
pub mod evaluation_errors;
pub mod expression;
pub mod fuel;
pub mod host;
pub mod interpret;
pub mod lisr_error;
pub mod node;
pub mod parse;
pub mod run;
pub mod scan;
pub mod semantics;
pub mod text;
pub mod token;
pub mod transition;
pub mod translate;
