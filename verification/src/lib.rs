//! A source-to-source transformer for fail-fast blocks.
//!
//! An invocation site hands the transformer a statement sequence, optionally
//! annotated with a human-readable reason. The transformer emits an expression
//! that evaluates the statements inside an isolated fallible scope and turns
//! any failure into an immediate, loud termination carrying a diagnostic; on
//! success the expression is the success value itself. A second entry point
//! applies the same rewriting to the body of a declared function.
//!
//! The crate is laid out in four parts: `directive` holds the parsed form of
//! one invocation and the recognizer that extracts the optional reason;
//! `emit` generates the wrapped expression; `run` models what the generated
//! expression does at runtime and states the laws of the transformation; and
//! `tokens` ties the recognizer and the generators to the host syntax layer.

pub mod directive;
pub mod emit;
pub mod run;
pub mod tokens;

pub use directive::{Annotation, Directive, MetaArg};
pub use run::{Outcome, ScopeResult, Step};
pub use tokens::{fatal, fatal_fn, TransformError};
