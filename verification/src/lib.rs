//! A JSON Schema engine: compiles schema documents into validator trees
//! and runs them against instances, collecting structured results.
//!
//! `value` holds the engine's own JSON representation and its model;
//! `keywords` the pluggable keyword registry; `schema` the compiler that
//! dispatches a document's keys through the registry; `validators` the
//! compiled tree and the validation run; `scope` the registry of compiled
//! schemas that `$ref` validators resolve through; `error` the two error
//! taxonomies; and `laws` the engine's global laws, proved once for every
//! input.

pub mod error;
pub mod keywords;
pub mod laws;
pub mod schema;
pub mod hashes;
pub mod scope;
pub mod validators;
pub mod value;

pub use value::JsonValue;
