//! What a validator is, and how two are chained.

use crate::error::{points_into, verdict_of, Error, Verdict};
use crate::value::{Json, Value};
use vstd::prelude::*;

verus! {

/// A rule that a document meets or fails.
///
/// `verdict` is the rule as mathematics: the answer for each document.
/// `validate` computes it. The answer depends on nothing but the validator and
/// the document, so that validating twice gives the same result twice; an
/// error that it returns points at a node of the document that was handed in.
pub trait Validator {
    /// The answer that this validator gives for `doc`. Every validator states
    /// its own; where one states none, nothing is known of its answers.
    open spec fn verdict(&self, doc: Json) -> Verdict {
        (arbitrary::<spec_fn(&Self, Json) -> Verdict>())(self, doc)
    }

    /// Checks `value` and returns the first failure, if there is one.
    fn validate(&self, value: &Value) -> (result: Result<(), Error>)
        ensures
            verdict_of(result) == self.verdict(value@),
            points_into(result, value@),
    ;
}

/// Validation is a function of the validator and the document: two results of
/// `validate` on the same document are the same answer, the same kind of
/// failure at the same place with the same payload.
pub proof fn lemma_validate_is_a_function<V: Validator>(
    validator: &V,
    value: &Value,
    first: Result<(), Error>,
    second: Result<(), Error>,
)
    requires
        call_ensures(V::validate, (validator, value), first),
        call_ensures(V::validate, (validator, value), second),
    ensures
        verdict_of(first) == verdict_of(second),
{
}

/// Two validators in a row: the second is asked only where the first accepts.
pub struct And<T, U> {
    pub first: T,
    pub second: U,
}

/// Chaining, which every validator offers.
pub trait Chain: Validator + Sized {
    /// The validator that accepts what both `self` and `validator` accept:
    /// `validator` is asked only where `self` accepts.
    fn and<T: Validator>(self, validator: T) -> (both: And<Self, T>)
        ensures
            both.first == self,
            both.second == validator,
    ;
}

impl<V: Validator> Chain for V {
    fn and<T: Validator>(self, validator: T) -> (both: And<Self, T>) {
        And { first: self, second: validator }
    }
}

impl<T: Validator, U: Validator> Validator for And<T, U> {
    open spec fn verdict(&self, doc: Json) -> Verdict {
        match self.first.verdict(doc) {
            Ok(_) => self.second.verdict(doc),
            Err(failure) => Err(failure),
        }
    }

    fn validate(&self, value: &Value) -> (result: Result<(), Error>) {
        match self.first.validate(value) {
            Ok(_) => self.second.validate(value),
            Err(error) => Err(error),
        }
    }
}

} // verus!
