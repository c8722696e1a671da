//! Plain Rust values as documents.

use crate::value::{Json, Number, Value};
use vstd::prelude::*;
use vstd::std_specs::convert::FromSpecImpl;
use vstd::string::StringExecFns;

verus! {

impl From<bool> for Value {
    fn from(v: bool) -> (value: Value) {
        Value::Bool(v)
    }
}

impl FromSpecImpl<bool> for Value {
    open spec fn obeys_from_spec() -> bool {
        true
    }

    open spec fn from_spec(v: bool) -> Value {
        Value::Bool(v)
    }
}

impl From<String> for Value {
    fn from(v: String) -> (value: Value) {
        Value::String(v)
    }
}

impl FromSpecImpl<String> for Value {
    open spec fn obeys_from_spec() -> bool {
        true
    }

    open spec fn from_spec(v: String) -> Value {
        Value::String(v)
    }
}

impl From<u64> for Value {
    fn from(v: u64) -> (value: Value) {
        Value::Number(Number::PosInt(v))
    }
}

impl FromSpecImpl<u64> for Value {
    open spec fn obeys_from_spec() -> bool {
        true
    }

    open spec fn from_spec(v: u64) -> Value {
        Value::Number(Number::PosInt(v))
    }
}

impl From<i64> for Value {
    fn from(v: i64) -> (value: Value) {
        if v < 0 {
            Value::Number(Number::NegInt(v))
        } else {
            Value::Number(Number::PosInt(v as u64))
        }
    }
}

impl FromSpecImpl<i64> for Value {
    open spec fn obeys_from_spec() -> bool {
        true
    }

    open spec fn from_spec(v: i64) -> Value {
        if v < 0 {
            Value::Number(Number::NegInt(v))
        } else {
            Value::Number(Number::PosInt(v as u64))
        }
    }
}

impl<'a> From<&'a str> for Value {
    fn from(v: &'a str) -> (value: Value)
        ensures
            value@ == Json::Text(v@),
    {
        Value::String(String::from_str(v))
    }
}

impl<'a> FromSpecImpl<&'a str> for Value {
    /// The string that `from` makes has the characters of `v`; which string
    /// it is cannot be said in a specification.
    open spec fn obeys_from_spec() -> bool {
        false
    }

    open spec fn from_spec(v: &'a str) -> Value {
        Value::Null
    }
}

impl From<u8> for Value {
    fn from(v: u8) -> (value: Value) {
        Value::Number(Number::PosInt(v as u64))
    }
}

impl FromSpecImpl<u8> for Value {
    open spec fn obeys_from_spec() -> bool {
        true
    }

    open spec fn from_spec(v: u8) -> Value {
        Value::Number(Number::PosInt(v as u64))
    }
}

impl From<u16> for Value {
    fn from(v: u16) -> (value: Value) {
        Value::Number(Number::PosInt(v as u64))
    }
}

impl FromSpecImpl<u16> for Value {
    open spec fn obeys_from_spec() -> bool {
        true
    }

    open spec fn from_spec(v: u16) -> Value {
        Value::Number(Number::PosInt(v as u64))
    }
}

impl From<u32> for Value {
    fn from(v: u32) -> (value: Value) {
        Value::Number(Number::PosInt(v as u64))
    }
}

impl FromSpecImpl<u32> for Value {
    open spec fn obeys_from_spec() -> bool {
        true
    }

    open spec fn from_spec(v: u32) -> Value {
        Value::Number(Number::PosInt(v as u64))
    }
}

impl From<usize> for Value {
    fn from(v: usize) -> (value: Value) {
        Value::Number(Number::PosInt(v as u64))
    }
}

impl FromSpecImpl<usize> for Value {
    open spec fn obeys_from_spec() -> bool {
        true
    }

    open spec fn from_spec(v: usize) -> Value {
        Value::Number(Number::PosInt(v as u64))
    }
}

impl From<i8> for Value {
    fn from(v: i8) -> (value: Value) {
        if v < 0 {
            Value::Number(Number::NegInt(v as i64))
        } else {
            Value::Number(Number::PosInt(v as u64))
        }
    }
}

impl FromSpecImpl<i8> for Value {
    open spec fn obeys_from_spec() -> bool {
        true
    }

    open spec fn from_spec(v: i8) -> Value {
        if v < 0 {
            Value::Number(Number::NegInt(v as i64))
        } else {
            Value::Number(Number::PosInt(v as u64))
        }
    }
}

impl From<i16> for Value {
    fn from(v: i16) -> (value: Value) {
        if v < 0 {
            Value::Number(Number::NegInt(v as i64))
        } else {
            Value::Number(Number::PosInt(v as u64))
        }
    }
}

impl FromSpecImpl<i16> for Value {
    open spec fn obeys_from_spec() -> bool {
        true
    }

    open spec fn from_spec(v: i16) -> Value {
        if v < 0 {
            Value::Number(Number::NegInt(v as i64))
        } else {
            Value::Number(Number::PosInt(v as u64))
        }
    }
}

impl From<i32> for Value {
    fn from(v: i32) -> (value: Value) {
        if v < 0 {
            Value::Number(Number::NegInt(v as i64))
        } else {
            Value::Number(Number::PosInt(v as u64))
        }
    }
}

impl FromSpecImpl<i32> for Value {
    open spec fn obeys_from_spec() -> bool {
        true
    }

    open spec fn from_spec(v: i32) -> Value {
        if v < 0 {
            Value::Number(Number::NegInt(v as i64))
        } else {
            Value::Number(Number::PosInt(v as u64))
        }
    }
}

impl From<isize> for Value {
    fn from(v: isize) -> (value: Value) {
        if v < 0 {
            Value::Number(Number::NegInt(v as i64))
        } else {
            Value::Number(Number::PosInt(v as u64))
        }
    }
}

impl FromSpecImpl<isize> for Value {
    open spec fn obeys_from_spec() -> bool {
        true
    }

    open spec fn from_spec(v: isize) -> Value {
        if v < 0 {
            Value::Number(Number::NegInt(v as i64))
        } else {
            Value::Number(Number::PosInt(v as u64))
        }
    }
}

} // verus!
