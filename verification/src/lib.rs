//! Declarative checks on JSON documents, with messages that point at the
//! offending node.
//!
//! A document is a [`Value`]; a rule is anything that implements [`Validator`].
//! `validate` answers with `Ok(())` or with the first [`Error`] it meets. An
//! error names the place of the offending node by its path from the root of
//! the document, the index of a child at each step, so that two equal nodes at
//! two places are never taken for one another. [`format_error`] prints the
//! document, finds the bytes that the node takes in the printed text, and
//! renders a message that underlines them.
//!
//! The modules:
//! - [`value`]: the document, its mathematical view, paths;
//! - [`validity`]: which documents are well formed;
//! - [`convert`]: plain Rust values as documents;
//! - [`text`], [`compact`], [`layout`]: the texts that the library writes;
//! - [`error`]: the kinds of failure and their sentences;
//! - [`plain`]: texts without an escape character;
//! - [`validator`]: what a validator is, and chaining;
//! - [`validators`]: the validators that come with the library;
//! - [`serializer`]: the printed document with the span of every node;
//! - [`diagnostic`]: the rendered message.

pub mod compact;
pub mod convert;
pub mod diagnostic;
pub mod error;
pub mod layout;
pub mod plain;
pub mod serializer;
pub mod text;
pub mod validator;
pub mod validators;
pub mod validity;
pub mod value;

pub use diagnostic::format_error;
pub use error::{Error, Failure, Verdict};
pub use serializer::SpanSerializer;
pub use validator::{And, Chain, Validator};
pub use value::{Json, Kind, Member, Num, Number, Value};
