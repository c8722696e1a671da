//! What a failed validation reports: the kind of failure, the place of the
//! offending node, and what was expected there.

use crate::compact::compact;
use crate::text::{decimal, decimal_text};
use crate::value::{Json, Value};
use vstd::prelude::*;
use vstd::string::StringExecFns;

verus! {

/// The mathematical value of an [`Error`]: the kind of failure, the path from
/// the root of the validated document to the offending node, and the payload.
pub enum Failure {
    InvalidType(Seq<usize>, Seq<char>),
    InvalidValue(Seq<usize>, Seq<char>),
    MissingObjectKey(Seq<usize>, Seq<char>),
    UnexpectedObjectKey(Seq<usize>, Seq<char>),
    UnmatchedValidator(Seq<usize>, usize),
}

/// The answer of a validator in mathematical form.
pub type Verdict = Result<(), Failure>;

impl Failure {
    /// The path from the root of the validated document to the offending node.
    pub open spec fn location(self) -> Seq<usize> {
        match self {
            Failure::InvalidType(path, _) => path,
            Failure::InvalidValue(path, _) => path,
            Failure::MissingObjectKey(path, _) => path,
            Failure::UnexpectedObjectKey(path, _) => path,
            Failure::UnmatchedValidator(path, _) => path,
        }
    }

    /// The same failure with another path.
    pub open spec fn relocated(self, path: Seq<usize>) -> Failure {
        match self {
            Failure::InvalidType(_, expected) => Failure::InvalidType(path, expected),
            Failure::InvalidValue(_, expected) => Failure::InvalidValue(path, expected),
            Failure::MissingObjectKey(_, key) => Failure::MissingObjectKey(path, key),
            Failure::UnexpectedObjectKey(_, key) => Failure::UnexpectedObjectKey(path, key),
            Failure::UnmatchedValidator(_, index) => Failure::UnmatchedValidator(path, index),
        }
    }

    /// The failure of child `index` as its parent reports it: the path starts
    /// with one step more, down to that child.
    pub open spec fn under(self, index: usize) -> Failure {
        self.relocated(seq![index] + self.location())
    }

    /// Whether the message quotes the offending node, so that the node has to
    /// be found in the document.
    pub open spec fn reads_node(self) -> bool {
        self is InvalidType || self is InvalidValue
    }

    /// The sentence that reports the failure, `root` being the document that
    /// was validated. What the offending node is, is taken from the document at
    /// the time the message is made.
    pub open spec fn message(self, root: Json) -> Seq<char>
        recommends
            self.reads_node() ==> root.has(self.location()),
    {
        match self {
            Failure::InvalidType(path, expected) => "Invalid type. Expected "@ + expected
                + " but got "@ + root.at(path)->Some_0.kind_name() + "."@,
            Failure::InvalidValue(path, expected) => "Invalid value. Expected "@ + expected
                + " but got "@ + compact(root.at(path)->Some_0) + "."@,
            Failure::MissingObjectKey(_, key) => "Missing key '"@ + key + "' in object"@,
            Failure::UnexpectedObjectKey(_, key) => "Key '"@ + key + "' is not expected in object"@,
            Failure::UnmatchedValidator(_, index) => "No match for expected array element "@
                + decimal(index as nat),
        }
    }
}

/// A validation error.
///
/// The first field of every variant is the path from the root of the validated
/// document to the offending node: the index of a child at each step. The
/// second is the name of the expected type, a description of the expected
/// value, the key that is missing or not expected, or the index of the
/// validator that found no element.
#[derive(Debug, PartialEq)]
pub enum Error {
    InvalidType(Vec<usize>, String),
    InvalidValue(Vec<usize>, String),
    MissingObjectKey(Vec<usize>, String),
    UnexpectedObjectKey(Vec<usize>, String),
    UnmatchedValidator(Vec<usize>, usize),
}

impl View for Error {
    type V = Failure;

    open spec fn view(&self) -> Failure {
        match self {
            Error::InvalidType(path, expected) => Failure::InvalidType(path@, expected@),
            Error::InvalidValue(path, expected) => Failure::InvalidValue(path@, expected@),
            Error::MissingObjectKey(path, key) => Failure::MissingObjectKey(path@, key@),
            Error::UnexpectedObjectKey(path, key) => Failure::UnexpectedObjectKey(path@, key@),
            Error::UnmatchedValidator(path, index) => Failure::UnmatchedValidator(path@, *index),
        }
    }
}

/// The mathematical form of the result of a validation.
pub open spec fn verdict_of(result: Result<(), Error>) -> Verdict {
    match result {
        Ok(_) => Ok(()),
        Err(error) => Err(error@),
    }
}

/// Whether the result of a validation, where it is an error, points at a node of
/// `doc`.
pub open spec fn points_into(result: Result<(), Error>, doc: Json) -> bool {
    result matches Err(error) ==> doc.has(error@.location())
}

impl Error {
    /// The path from the root of the validated document to the offending node.
    pub fn location(&self) -> (path: &Vec<usize>)
        ensures
            path@ == self@.location(),
    {
        match self {
            Error::InvalidType(path, _) => path,
            Error::InvalidValue(path, _) => path,
            Error::MissingObjectKey(path, _) => path,
            Error::UnexpectedObjectKey(path, _) => path,
            Error::UnmatchedValidator(path, _) => path,
        }
    }

    /// The sentence that reports the error, `root` being the document that was
    /// validated.
    pub fn message(&self, root: &Value) -> (text: String)
        requires
            self@.reads_node() ==> root@.has(self@.location()),
        ensures
            text@ == self@.message(root@),
    {
        match self {
            Error::InvalidType(path, expected) => {
                let mut text = String::from_str("Invalid type. Expected ");
                text.append(expected.as_str());
                text.append(" but got ");
                match root.at(path) {
                    Some(node) => {
                        text.append(node.kind_name());
                    },
                    None => {},
                }
                text.append(".");
                text
            },
            Error::InvalidValue(path, expected) => {
                let mut text = String::from_str("Invalid value. Expected ");
                text.append(expected.as_str());
                text.append(" but got ");
                match root.at(path) {
                    Some(node) => {
                        let quoted = node.compact_text();
                        text.append(quoted.as_str());
                    },
                    None => {},
                }
                text.append(".");
                text
            },
            Error::MissingObjectKey(_, key) => {
                let mut text = String::from_str("Missing key '");
                text.append(key.as_str());
                text.append("' in object");
                text
            },
            Error::UnexpectedObjectKey(_, key) => {
                let mut text = String::from_str("Key '");
                text.append(key.as_str());
                text.append("' is not expected in object");
                text
            },
            Error::UnmatchedValidator(_, index) => {
                let mut text = String::from_str("No match for expected array element ");
                let number = decimal_text(*index);
                text.append(number.as_str());
                text
            },
        }
    }

    /// The error of child `index` as its parent reports it.
    pub fn under(self, index: usize) -> (error: Error)
        ensures
            error@ == self@.under(index),
    {
        match self {
            Error::InvalidType(path, expected) => Error::InvalidType(
                prepended(index, path),
                expected,
            ),
            Error::InvalidValue(path, expected) => Error::InvalidValue(
                prepended(index, path),
                expected,
            ),
            Error::MissingObjectKey(path, key) => Error::MissingObjectKey(
                prepended(index, path),
                key,
            ),
            Error::UnexpectedObjectKey(path, key) => Error::UnexpectedObjectKey(
                prepended(index, path),
                key,
            ),
            Error::UnmatchedValidator(path, at) => Error::UnmatchedValidator(
                prepended(index, path),
                at,
            ),
        }
    }
}

/// `path` with `index` put before it.
fn prepended(index: usize, path: Vec<usize>) -> (longer: Vec<usize>)
    ensures
        longer@ == seq![index] + path@,
{
    let mut longer: Vec<usize> = Vec::new();
    longer.push(index);
    let mut k: usize = 0;
    while k < path.len()
        invariant
            0 <= k <= path.len(),
            longer@ == seq![index] + path@.take(k as int),
        decreases path.len() - k,
    {
        longer.push(path[k]);
        assert(path@.take(k as int + 1) =~= path@.take(k as int).push(path@[k as int]));
        assert(longer@ =~= seq![index] + path@.take(k as int + 1));
        k += 1;
    }
    assert(path@.take(k as int) =~= path@);
    longer
}

/// A path that leads to a node of child `index` leads, with the step to that
/// child before it, to the same node from the parent.
pub proof fn lemma_has_under(doc: Json, index: usize, path: Seq<usize>)
    requires
        index < doc.child_count(),
        doc.child(index as int).has(path),
    ensures
        doc.has(seq![index] + path),
        doc.at(seq![index] + path) == doc.child(index as int).at(path),
{
    let longer = seq![index] + path;
    assert(longer[0] == index);
    assert(longer.drop_first() =~= path);
}

} // verus!
