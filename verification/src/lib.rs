//! A validation library: values are checked against schema documents and every
//! failure is reported as a structured error with an exact location path.
//!
//! The pieces, leaves first:
//!
//! - [`span`]: hierarchical location identifiers ([`span::Keys`]) and their
//!   combination rules.
//! - [`value`]: the concrete tree of values the library validates.
//! - [`schema`]: the in-memory schema document tree.
//! - [`strings`]: decimal renderings of integers.
//! - [`errors`]: the structured failure kinds and the error aggregate.
//! - [`pattern`]: the regular-expression boundary.
//! - [`model`]: the mathematical semantics every engine function is proved
//!   against.
//! - [`engine`]: the validator that drives a value through a schema.
//! - [`selfcheck`]: the schema document's own integrity check.
//! - [`traverse`]: the traversal protocol that assigns locations to values,
//!   and the entry points that judge a value against a whole document.
//! - [`laws`]: proved statements relating the pieces above.
//! - [`render`]: canonical one-line diagnostic text for every failure.

pub mod span;
pub mod value;
pub mod schema;
pub mod strings;
pub mod errors;
pub mod pattern;
pub mod model;
pub mod engine;
pub mod selfcheck;
pub mod traverse;
pub mod laws;
pub mod render;

