//! Which documents are well formed: a number that is no integer is written as
//! a JSON number with a fraction or an exponent, and no object has a key
//! twice.

use crate::value::{Json, Member, Num, Number, Value};
use vstd::prelude::*;
use vstd::string::StrSliceExecFns;

verus! {

/// Whether `c` is a decimal digit.
pub open spec fn is_digit(c: char) -> bool {
    '0' <= c <= '9'
}

/// The index at which the run of digits that starts at `from` ends.
pub open spec fn digits_end(s: Seq<char>, from: int) -> int
    decreases s.len() - from,
{
    if 0 <= from < s.len() && is_digit(s[from]) {
        digits_end(s, from + 1)
    } else {
        from
    }
}

/// Whether `s` is a JSON number with a fraction or an exponent: an optional
/// minus sign; an integer part without a leading zero; then a point and
/// digits, or `e` or `E`, an optional sign and digits, or both in that order.
pub open spec fn is_float_literal(s: Seq<char>) -> bool {
    let int_start: int = if s.len() > 0 && s[0] == '-' {
        1
    } else {
        0
    };
    let int_end = digits_end(s, int_start);
    let has_fraction = int_end < s.len() && s[int_end] == '.';
    let fraction_end = if has_fraction {
        digits_end(s, int_end + 1)
    } else {
        int_end
    };
    let has_exponent = fraction_end < s.len() && (s[fraction_end] == 'e' || s[fraction_end]
        == 'E');
    let exponent_start = if fraction_end + 1 < s.len() && (s[fraction_end + 1] == '+' || s[fraction_end
        + 1] == '-') {
        fraction_end + 2
    } else {
        fraction_end + 1
    };
    let end = if has_exponent {
        digits_end(s, exponent_start)
    } else {
        fraction_end
    };
    &&& int_end > int_start
    &&& s[int_start] == '0' ==> int_end == int_start + 1
    &&& has_fraction ==> fraction_end > int_end + 1
    &&& has_exponent ==> end > exponent_start
    &&& has_fraction || has_exponent
    &&& end == s.len()
}

/// Whether no two of the entries have the same key.
pub open spec fn distinct_keys(entries: Seq<Member>) -> bool {
    forall|i: int, j: int|
        0 <= i < j < entries.len() ==> (#[trigger] entries[i]).key != (#[trigger] entries[j]).key
}

impl Num {
    /// Whether the number is well formed: an integer always is, another
    /// number where its literal is a JSON number with a fraction or an
    /// exponent.
    pub open spec fn valid(self) -> bool {
        match self {
            Num::Int(_) => true,
            Num::Float(literal) => is_float_literal(literal),
        }
    }
}

impl Json {
    /// Whether the document is well formed: every number in it is, and no
    /// object in it has a key twice.
    pub open spec fn valid(self) -> bool
        decreases self,
    {
        match self {
            Json::Number(n) => n.valid(),
            Json::Array(items) => forall|i: int|
                0 <= i < items.len() ==> (#[trigger] items[i]).valid(),
            Json::Object(entries) => distinct_keys(entries) && forall|i: int|
                0 <= i < entries.len() ==> (#[trigger] entries[i]).value.valid(),
            _ => true,
        }
    }
}

/// The index at which the run of digits that starts at `from` ends.
fn scan_digits(s: &str, from: usize) -> (end: usize)
    requires
        from <= s@.len(),
    ensures
        end == digits_end(s@, from as int),
        from <= end <= s@.len(),
{
    let len = s.unicode_len();
    let mut k = from;
    while k < len
        invariant
            from <= k <= len,
            len == s@.len(),
            digits_end(s@, from as int) == digits_end(s@, k as int),
        decreases len - k,
    {
        let c = s.get_char(k);
        if !('0' <= c && c <= '9') {
            return k;
        }
        k += 1;
    }
    k
}

/// Whether `s` is a JSON number with a fraction or an exponent.
pub fn check_float_literal(s: &str) -> (valid: bool)
    ensures
        valid == is_float_literal(s@),
{
    let len = s.unicode_len();
    let int_start: usize = if len > 0 && s.get_char(0) == '-' {
        1
    } else {
        0
    };
    let int_end = scan_digits(s, int_start);
    if int_end == int_start {
        return false;
    }
    if s.get_char(int_start) == '0' && int_end != int_start + 1 {
        return false;
    }
    let has_fraction = int_end < len && s.get_char(int_end) == '.';
    let fraction_end = if has_fraction {
        scan_digits(s, int_end + 1)
    } else {
        int_end
    };
    if has_fraction && fraction_end == int_end + 1 {
        return false;
    }
    let has_exponent = fraction_end < len && (s.get_char(fraction_end) == 'e' || s.get_char(
        fraction_end,
    ) == 'E');
    if !has_exponent {
        return has_fraction && fraction_end == len;
    }
    let exponent_start = if fraction_end + 1 < len && (s.get_char(fraction_end + 1) == '+'
        || s.get_char(fraction_end + 1) == '-') {
        fraction_end + 2
    } else {
        fraction_end + 1
    };
    let end = scan_digits(s, exponent_start);
    end > exponent_start && end == len
}

impl Number {
    /// Whether the number is well formed.
    pub fn is_valid(&self) -> (valid: bool)
        ensures
            valid == self@.valid(),
    {
        match self {
            Number::Float(literal) => check_float_literal(literal.as_str()),
            _ => true,
        }
    }
}

/// Whether no two of the entries have the same key.
fn check_distinct_keys(entries: &Vec<(String, Value)>) -> (distinct: bool)
    ensures
        distinct == distinct_keys(Value::Object(*entries)@->Object_0),
{
    let ghost members = Value::Object(*entries)@->Object_0;
    let mut j: usize = 0;
    while j < entries.len()
        invariant
            0 <= j <= entries.len(),
            members == Value::Object(*entries)@->Object_0,
            forall|a: int, b: int|
                0 <= a < b < j ==> (#[trigger] members[a]).key != (#[trigger] members[b]).key,
        decreases entries.len() - j,
    {
        let mut i: usize = 0;
        while i < j
            invariant
                0 <= i <= j < entries.len(),
                members == Value::Object(*entries)@->Object_0,
                forall|a: int| 0 <= a < i ==> (#[trigger] members[a]).key != members[j as int].key,
            decreases j - i,
        {
            assert(members[i as int].key == entries@[i as int].0@);
            assert(members[j as int].key == entries@[j as int].0@);
            if entries[i].0 == entries[j].0 {
                return false;
            }
            i += 1;
        }
        j += 1;
    }
    true
}

impl Value {
    /// Whether the document is well formed: every number that is no integer
    /// is written as a JSON number with a fraction or an exponent, and no
    /// object has a key twice.
    pub fn is_valid(&self) -> (valid: bool)
        ensures
            valid == self@.valid(),
        decreases self,
    {
        match self {
            Value::Number(n) => n.is_valid(),
            Value::Array(items) => {
                let mut k: usize = 0;
                while k < items.len()
                    invariant
                        0 <= k <= items.len(),
                        self == Value::Array(*items),
                        forall|i: int| 0 <= i < k ==> (#[trigger] self@->Array_0[i]).valid(),
                    decreases items.len() - k,
                {
                    assert(decreases_to!(self => self->Array_0));
                    assert(self@->Array_0[k as int] == items@[k as int]@);
                    if !items[k].is_valid() {
                        return false;
                    }
                    k += 1;
                }
                true
            },
            Value::Object(entries) => {
                if !check_distinct_keys(entries) {
                    return false;
                }
                let mut k: usize = 0;
                while k < entries.len()
                    invariant
                        0 <= k <= entries.len(),
                        self == Value::Object(*entries),
                        distinct_keys(self@->Object_0),
                        forall|i: int|
                            0 <= i < k ==> (#[trigger] self@->Object_0[i]).value.valid(),
                    decreases entries.len() - k,
                {
                    assert(decreases_to!(self => self->Object_0));
                    assert(self@->Object_0[k as int].value == entries@[k as int].1@);
                    if !entries[k].1.is_valid() {
                        return false;
                    }
                    k += 1;
                }
                true
            },
            _ => true,
        }
    }
}

} // verus!
