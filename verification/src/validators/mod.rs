//! The validators that come with the library.

pub mod array;
pub mod object;
pub mod primitive;

pub use array::{
    array, array_contains, array_empty, array_for_each, array_size, ArrayForEachValidator,
    ArraySizeValidator, ArrayValidator, UnorderedArrayValidator,
};
pub use object::{object, object_empty, object_strict, ObjectValidator};
pub use primitive::{
    bool, bool_false, bool_true, i64, null, string, u64, BoolValidator, NullValidator, Primitive,
    PrimitiveValidator,
};

use crate::compact::compact;
use crate::error::{Error, Failure, Verdict};
use crate::validator::Validator;
use crate::value::{Json, Value};
use vstd::prelude::*;
use vstd::string::StringExecFns;

verus! {

/// Accepts every node.
pub struct AnyValidator {}

impl Validator for AnyValidator {
    open spec fn verdict(&self, doc: Json) -> Verdict {
        Ok(())
    }

    fn validate(&self, value: &Value) -> (result: Result<(), Error>) {
        Ok(())
    }
}

/// Accepts every node.
pub fn any() -> (validator: AnyValidator)
    ensures
        forall|doc: Json| #[trigger] validator.verdict(doc) is Ok,
{
    AnyValidator {  }
}

/// `s` as the `Debug` implementation of `str` writes it: between double
/// quotes, with the quote, the backslash and the characters that cannot be
/// printed escaped as Rust source escapes them.
pub uninterp spec fn debug_quoted(s: Seq<char>) -> Seq<char>;

/// `s` as the `Debug` implementation of `str` in the standard library writes
/// it, reached through `format!` with `{:?}`. The text depends on `s` alone.
#[verifier::external_body]
fn quote_debug(s: &str) -> (text: String)
    ensures
        text@ == debug_quoted(s@),
{
    format!("{:?}", s)
}

/// How a message names the value that was expected: a string as Rust source
/// would write it, anything else as JSON text on one line.
pub open spec fn description(expected: Json) -> Seq<char> {
    match expected {
        Json::Text(s) => debug_quoted(s),
        _ => compact(expected),
    }
}

/// Accepts the nodes that equal one document.
pub struct EqValidator {
    pub expected: Value,
}

impl Validator for EqValidator {
    open spec fn verdict(&self, doc: Json) -> Verdict {
        if doc.kind() != self.expected@.kind() {
            Err(Failure::InvalidType(Seq::empty(), self.expected@.kind_name()))
        } else if doc == self.expected@ {
            Ok(())
        } else {
            Err(Failure::InvalidValue(Seq::empty(), description(self.expected@)))
        }
    }

    fn validate(&self, value: &Value) -> (result: Result<(), Error>) {
        if value.kind() != self.expected.kind() {
            return Err(
                Error::InvalidType(Vec::new(), String::from_str(self.expected.kind_name())),
            );
        }
        if value.same(&self.expected) {
            Ok(())
        } else {
            let described = match &self.expected {
                Value::String(s) => quote_debug(s.as_str()),
                _ => self.expected.compact_text(),
            };
            Err(Error::InvalidValue(Vec::new(), described))
        }
    }
}

/// Accepts the nodes that equal `expected`. A node of another kind fails with
/// `InvalidType`, one of the same kind and another value with `InvalidValue`.
pub fn eq<T>(expected: T) -> (validator: EqValidator) where Value: From<T>
    ensures
        call_ensures(<Value as From<T>>::from, (expected,), validator.expected),
{
    EqValidator { expected: Value::from(expected) }
}

/// What `eq` answers: a node equal to the expected document is accepted, a
/// node of another kind fails with `InvalidType`, and a node of the same kind
/// that is not equal fails with `InvalidValue`.
pub proof fn lemma_eq_verdict(validator: EqValidator, doc: Json)
    ensures
        doc == validator.expected@ ==> validator.verdict(doc) is Ok,
        doc.kind() != validator.expected@.kind() ==> validator.verdict(doc) matches Err(
            Failure::InvalidType(_, _),
        ),
        doc.kind() == validator.expected@.kind() && doc != validator.expected@
            ==> validator.verdict(doc) matches Err(Failure::InvalidValue(_, _)),
{
}

} // verus!
