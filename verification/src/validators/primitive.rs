//! Validators for scalars: the node must be of one type, and a predicate of the
//! caller's decides on its value.

use crate::error::{verdict_of, Error, Failure, Verdict};
use crate::validator::Validator;
use crate::value::{Json, Num, Number, Value};
use std::marker::PhantomData;
use vstd::prelude::*;
use vstd::string::StringExecFns;

verus! {

/// A scalar type that a node can hold.
pub trait Primitive: Sized + View {
    /// The name of the type, as an error gives it.
    spec fn label() -> Seq<char>;

    /// The value of this type that `doc` holds, if it holds one.
    spec fn extracted(doc: Json) -> Option<Self::V>;

    /// The name of the type.
    fn label_text() -> (name: String)
        ensures
            name@ == Self::label(),
    ;

    /// The value of this type that `value` holds, if it holds one.
    fn extract(value: &Value) -> (found: Option<Self>)
        ensures
            found is Some <==> Self::extracted(value@) is Some,
            found matches Some(x) ==> Self::extracted(value@) == Some(x@),
    ;
}

impl Primitive for bool {
    open spec fn label() -> Seq<char> {
        "bool"@
    }

    open spec fn extracted(doc: Json) -> Option<bool> {
        match doc {
            Json::Bool(b) => Some(b),
            _ => None,
        }
    }

    fn label_text() -> (name: String) {
        String::from_str("bool")
    }

    fn extract(value: &Value) -> (found: Option<bool>) {
        match value {
            Value::Bool(b) => Some(*b),
            _ => None,
        }
    }
}

impl Primitive for String {
    open spec fn label() -> Seq<char> {
        "string"@
    }

    open spec fn extracted(doc: Json) -> Option<Seq<char>> {
        match doc {
            Json::Text(s) => Some(s),
            _ => None,
        }
    }

    fn label_text() -> (name: String) {
        String::from_str("string")
    }

    fn extract(value: &Value) -> (found: Option<String>) {
        match value {
            Value::String(s) => Some(s.clone()),
            _ => None,
        }
    }
}

impl Primitive for i64 {
    open spec fn label() -> Seq<char> {
        "i64"@
    }

    open spec fn extracted(doc: Json) -> Option<i64> {
        match doc {
            Json::Number(Num::Int(i)) => if i64::MIN <= i <= i64::MAX {
                Some(i as i64)
            } else {
                None
            },
            _ => None,
        }
    }

    fn label_text() -> (name: String) {
        String::from_str("i64")
    }

    fn extract(value: &Value) -> (found: Option<i64>) {
        match value {
            Value::Number(Number::PosInt(n)) => {
                if *n <= i64::MAX as u64 {
                    Some(*n as i64)
                } else {
                    None
                }
            },
            Value::Number(Number::NegInt(n)) => Some(*n),
            _ => None,
        }
    }
}

impl Primitive for u64 {
    open spec fn label() -> Seq<char> {
        "u64"@
    }

    open spec fn extracted(doc: Json) -> Option<u64> {
        match doc {
            Json::Number(Num::Int(i)) => if 0 <= i <= u64::MAX {
                Some(i as u64)
            } else {
                None
            },
            _ => None,
        }
    }

    fn label_text() -> (name: String) {
        String::from_str("u64")
    }

    fn extract(value: &Value) -> (found: Option<u64>) {
        match value {
            Value::Number(Number::PosInt(n)) => Some(*n),
            Value::Number(Number::NegInt(n)) => {
                if *n >= 0 {
                    Some(*n as u64)
                } else {
                    None
                }
            },
            _ => None,
        }
    }
}

/// The answer of a predicate in mathematical form.
pub open spec fn answer_of(out: Result<(), String>) -> Result<(), Seq<char>> {
    match out {
        Ok(_) => Ok(()),
        Err(message) => Err(message@),
    }
}

/// Whether `predicate` can be called on every value and answers alike on values
/// that are alike: whether it is a function.
pub open spec fn is_function<T: View, F: Fn(&T) -> Result<(), String>>(predicate: F) -> bool {
    &&& forall|x: T| call_requires(predicate, (&x,))
    &&& forall|x: T, y: T, a: Result<(), String>, b: Result<(), String>|
        x@ == y@ && #[trigger] call_ensures(predicate, (&x,), a) && #[trigger] call_ensures(
            predicate,
            (&y,),
            b,
        ) ==> answer_of(a) == answer_of(b)
}

/// Whether `answer` is what `predicate` says of a value whose view is `v`.
pub open spec fn answers<T: View, F: Fn(&T) -> Result<(), String>>(
    predicate: F,
    v: T::V,
    answer: Result<(), Seq<char>>,
) -> bool {
    exists|x: T, out: Result<(), String>|
        x@ == v && #[trigger] call_ensures(predicate, (&x,), out) && answer_of(out) == answer
}

/// What `predicate` says of a value whose view is `v`.
pub open spec fn answer<T: View, F: Fn(&T) -> Result<(), String>>(predicate: F, v: T::V) -> Result<
    (),
    Seq<char>,
> {
    choose|answer: Result<(), Seq<char>>| answers::<T, F>(predicate, v, answer)
}

/// The verdict on a node of the right type, given the answer of the predicate.
pub open spec fn verdict_for(answer: Result<(), Seq<char>>) -> Verdict {
    match answer {
        Ok(_) => Ok(()),
        Err(message) => Err(Failure::InvalidValue(Seq::empty(), message)),
    }
}

/// Accepts a node that holds a `T` of which the predicate approves.
pub struct PrimitiveValidator<T: Primitive, F: Fn(&T) -> Result<(), String>> {
    predicate: F,
    marker: PhantomData<T>,
}

impl<T: Primitive, F: Fn(&T) -> Result<(), String>> PrimitiveValidator<T, F> {
    #[verifier::type_invariant]
    spec fn well_formed(&self) -> bool {
        is_function::<T, F>(self.predicate)
    }

    /// The predicate that decides on the value.
    pub closed spec fn predicate(&self) -> F {
        self.predicate
    }

    /// A validator for nodes of type `T` with this predicate.
    pub fn new(predicate: F) -> (validator: Self)
        requires
            is_function::<T, F>(predicate),
        ensures
            validator.predicate() == predicate,
    {
        PrimitiveValidator { predicate, marker: PhantomData }
    }
}

impl<T: Primitive, F: Fn(&T) -> Result<(), String>> Validator for PrimitiveValidator<T, F> {
    open spec fn verdict(&self, doc: Json) -> Verdict {
        match T::extracted(doc) {
            None => Err(Failure::InvalidType(Seq::empty(), T::label())),
            Some(v) => verdict_for(answer::<T, F>(self.predicate(), v)),
        }
    }

    /// Besides what every validator promises: a node of another type fails
    /// with `InvalidType` and the name of `T`, and the verdict on a node of
    /// type `T` goes by an answer that the predicate gave for its value.
    fn validate(&self, value: &Value) -> (result: Result<(), Error>)
        ensures
            T::extracted(value@) is None ==> verdict_of(result) == Err::<(), Failure>(
                Failure::InvalidType(Seq::empty(), T::label()),
            ),
            T::extracted(value@) matches Some(v) ==> exists|answer: Result<(), Seq<char>>|
                #[trigger] answers::<T, F>(self.predicate(), v, answer) && verdict_of(result)
                    == verdict_for(answer),
    {
        proof {
            use_type_invariant(self);
        }
        match T::extract(value) {
            None => Err(Error::InvalidType(Vec::new(), T::label_text())),
            Some(x) => {
                let out = (self.predicate)(&x);
                proof {
                    assert(answers::<T, F>(self.predicate, x@, answer_of(out)));
                }
                match out {
                    Ok(_) => Ok(()),
                    Err(message) => Err(Error::InvalidValue(Vec::new(), message)),
                }
            },
        }
    }
}

/// Accepts a string of which `predicate` approves.
pub fn string<F: Fn(&String) -> Result<(), String>>(predicate: F) -> (validator: PrimitiveValidator<
    String,
    F,
>)
    requires
        is_function::<String, F>(predicate),
    ensures
        validator.predicate() == predicate,
{
    PrimitiveValidator::new(predicate)
}

/// Accepts a boolean of which `predicate` approves.
pub fn bool<F: Fn(&bool) -> Result<(), String>>(predicate: F) -> (validator: PrimitiveValidator<
    bool,
    F,
>)
    requires
        is_function::<bool, F>(predicate),
    ensures
        validator.predicate() == predicate,
{
    PrimitiveValidator::new(predicate)
}

/// Accepts an integer that fits a signed 64-bit integer and of which
/// `predicate` approves.
pub fn i64<F: Fn(&i64) -> Result<(), String>>(predicate: F) -> (validator: PrimitiveValidator<
    i64,
    F,
>)
    requires
        is_function::<i64, F>(predicate),
    ensures
        validator.predicate() == predicate,
{
    PrimitiveValidator::new(predicate)
}

/// Accepts an integer that fits an unsigned 64-bit integer and of which
/// `predicate` approves.
pub fn u64<F: Fn(&u64) -> Result<(), String>>(predicate: F) -> (validator: PrimitiveValidator<
    u64,
    F,
>)
    requires
        is_function::<u64, F>(predicate),
    ensures
        validator.predicate() == predicate,
{
    PrimitiveValidator::new(predicate)
}

/// Accepts `null` and nothing else.
pub struct NullValidator {}

impl Validator for NullValidator {
    open spec fn verdict(&self, doc: Json) -> Verdict {
        match doc {
            Json::Null => Ok(()),
            _ => Err(Failure::InvalidType(Seq::empty(), "null"@)),
        }
    }

    fn validate(&self, value: &Value) -> (result: Result<(), Error>) {
        match value {
            Value::Null => Ok(()),
            _ => Err(Error::InvalidType(Vec::new(), String::from_str("null"))),
        }
    }
}

/// Accepts `null`; any other node fails with `InvalidType` and the name `null`.
pub fn null() -> (validator: NullValidator)
    ensures
        forall|doc: Json| #[trigger] validator.verdict(doc) is Ok <==> doc == Json::Null,
        forall|doc: Json|
            doc != Json::Null ==> #[trigger] validator.verdict(doc) == Err::<(), Failure>(
                Failure::InvalidType(Seq::empty(), "null"@),
            ),
{
    NullValidator {  }
}

/// Accepts one of the two booleans.
pub struct BoolValidator {
    pub wanted: bool,
}

impl BoolValidator {
    /// What the validator says of the other boolean.
    pub open spec fn complaint(&self) -> Seq<char> {
        if self.wanted {
            "value not true"@
        } else {
            "value not false"@
        }
    }
}

impl Validator for BoolValidator {
    open spec fn verdict(&self, doc: Json) -> Verdict {
        match doc {
            Json::Bool(b) => if b == self.wanted {
                Ok(())
            } else {
                Err(Failure::InvalidValue(Seq::empty(), self.complaint()))
            },
            _ => Err(Failure::InvalidType(Seq::empty(), "bool"@)),
        }
    }

    fn validate(&self, value: &Value) -> (result: Result<(), Error>) {
        match value {
            Value::Bool(b) => {
                if *b == self.wanted {
                    Ok(())
                } else if self.wanted {
                    Err(Error::InvalidValue(Vec::new(), String::from_str("value not true")))
                } else {
                    Err(Error::InvalidValue(Vec::new(), String::from_str("value not false")))
                }
            },
            _ => Err(Error::InvalidType(Vec::new(), String::from_str("bool"))),
        }
    }
}

/// Accepts `true` and nothing else.
pub fn bool_true() -> (validator: BoolValidator)
    ensures
        validator.wanted,
{
    BoolValidator { wanted: true }
}

/// Accepts `false` and nothing else.
pub fn bool_false() -> (validator: BoolValidator)
    ensures
        !validator.wanted,
{
    BoolValidator { wanted: false }
}

} // verus!
