//! A GraphQL executable-document validation engine.
//!
//! Given a parsed executable document and a validated schema, the validator
//! computes the set of specification-defined validation errors in a single
//! ordered pass, with shared derivations (fragment lookup, fragment closures,
//! field groups for merging, variable usages) available to every rule.

pub mod arguments;
pub mod document_rules;
pub mod error;
pub mod executable;
pub mod fragments;
pub mod laws;
pub mod merging;
pub mod input_coercion;
pub mod schema;
pub mod seqs;
pub mod span;
pub mod span_bounds;
pub mod traversal;
pub mod types;
pub mod validation_error;
pub mod validator;
pub mod value;
pub mod variables;

pub use error::Error;
pub use span::Span;
pub use validation_error::ValidationError;
pub use validator::{validate, Cache, RulesValidator};
