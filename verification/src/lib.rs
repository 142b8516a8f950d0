//! Core of a small interactive shell: an insertion-ordered alias table,
//! a quote-aware tokenizer, home-directory substitution, and the pipeline
//! builder that splits a line into stages, dispatches built-ins, expands
//! aliases and decides how each stage's standard streams are wired.

pub mod aliases;
pub mod pipeline;
pub mod prompt;
pub mod substitute;
pub mod text;
pub mod tokenize;
