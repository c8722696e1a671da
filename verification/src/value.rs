//! The document model: a JSON value, its mathematical view, and how a node is
//! reached from the root.

use vstd::prelude::*;
use vstd::std_specs::cmp::PartialEqSpecImpl;

verus! {

/// The mathematical value of a JSON number.
pub enum Num {
    /// An integer, whatever the width it was written in.
    Int(int),
    /// A number that is no integer, as its decimal literal.
    Float(Seq<char>),
}

/// One entry of an object: a key and the value under it.
pub struct Member {
    pub key: Seq<char>,
    pub value: Json,
}

/// The mathematical value of a JSON document.
pub enum Json {
    Null,
    Bool(bool),
    Number(Num),
    Text(Seq<char>),
    Array(Seq<Json>),
    /// The entries of an object, in the order in which they were inserted.
    Object(Seq<Member>),
}

/// The kinds of node.
#[derive(Debug, Clone, Copy, PartialEq, Eq, Structural)]
pub enum Kind {
    Null,
    Bool,
    Number,
    String,
    Array,
    Object,
}

impl Kind {
    /// The name of the kind, as error messages give it.
    pub open spec fn name(self) -> Seq<char> {
        match self {
            Kind::Null => "null"@,
            Kind::Bool => "bool"@,
            Kind::Number => "number"@,
            Kind::String => "string"@,
            Kind::Array => "array"@,
            Kind::Object => "object"@,
        }
    }

    /// The name of the kind: `null`, `bool`, `number`, `string`, `array` or
    /// `object`.
    pub fn label(&self) -> (name: &'static str)
        ensures
            name@ == self.name(),
    {
        match self {
            Kind::Null => "null",
            Kind::Bool => "bool",
            Kind::Number => "number",
            Kind::String => "string",
            Kind::Array => "array",
            Kind::Object => "object",
        }
    }
}

/// A JSON number.
///
/// Integers are held as integers, so that `5` is the same number in every
/// width. A number that is no integer is held as its decimal literal, and is
/// well formed where that literal is a JSON number with a fraction or an
/// exponent; `is_valid` tells.
#[derive(Debug)]
pub enum Number {
    PosInt(u64),
    NegInt(i64),
    Float(String),
}

/// A JSON document, or a node of one.
///
/// A document is well formed where its numbers are and no object in it has a
/// key twice; `is_valid` tells. Every function of the library takes any
/// document and says what it does with it; what holds of well-formed
/// documents only is stated with that condition.
#[derive(Debug)]
pub enum Value {
    Null,
    Bool(bool),
    Number(Number),
    String(String),
    Array(Vec<Value>),
    /// The entries in insertion order. Where a key stands twice, the first
    /// entry with it is the one that is looked up.
    Object(Vec<(String, Value)>),
}

impl View for Number {
    type V = Num;

    open spec fn view(&self) -> Num {
        match self {
            Number::PosInt(n) => Num::Int(*n as int),
            Number::NegInt(n) => Num::Int(*n as int),
            Number::Float(literal) => Num::Float(literal@),
        }
    }
}

impl View for Value {
    type V = Json;

    open spec fn view(&self) -> Json
        decreases self,
    {
        match self {
            Value::Null => Json::Null,
            Value::Bool(b) => Json::Bool(*b),
            Value::Number(n) => Json::Number(n@),
            Value::String(s) => Json::Text(s@),
            Value::Array(items) => Json::Array(
                Seq::new(
                    items@.len(),
                    |i: int|
                        if 0 <= i < items@.len() {
                            items@[i].view()
                        } else {
                            Json::Null
                        },
                ),
            ),
            Value::Object(entries) => Json::Object(
                Seq::new(
                    entries@.len(),
                    |i: int|
                        if 0 <= i < entries@.len() {
                            Member { key: entries@[i].0@, value: entries@[i].1.view() }
                        } else {
                            Member { key: Seq::empty(), value: Json::Null }
                        },
                ),
            ),
        }
    }
}

impl Json {
    /// The kind of the node.
    pub open spec fn kind(self) -> Kind {
        match self {
            Json::Null => Kind::Null,
            Json::Bool(_) => Kind::Bool,
            Json::Number(_) => Kind::Number,
            Json::Text(_) => Kind::String,
            Json::Array(_) => Kind::Array,
            Json::Object(_) => Kind::Object,
        }
    }

    /// The name of the node's kind, as error messages give it.
    pub open spec fn kind_name(self) -> Seq<char> {
        self.kind().name()
    }

    /// How many children the node has: the elements of an array, the values of
    /// an object, none for a scalar.
    pub open spec fn child_count(self) -> nat {
        match self {
            Json::Array(items) => items.len(),
            Json::Object(entries) => entries.len(),
            _ => 0,
        }
    }

    /// The `i`-th child: an array's element, or the value of an object's `i`-th
    /// entry.
    pub open spec fn child(self, i: int) -> Json
        recommends
            0 <= i < self.child_count(),
    {
        match self {
            Json::Array(items) => items[i],
            Json::Object(entries) => entries[i].value,
            _ => Json::Null,
        }
    }

    /// The node that `path` leads to, each step being the index of a child.
    pub open spec fn at(self, path: Seq<usize>) -> Option<Json>
        decreases path.len(),
    {
        if path.len() == 0 {
            Some(self)
        } else if path[0] < self.child_count() {
            self.child(path[0] as int).at(path.drop_first())
        } else {
            None
        }
    }

    /// Whether `path` leads to a node of this document.
    pub open spec fn has(self, path: Seq<usize>) -> bool {
        self.at(path) is Some
    }
}

impl PartialEq for Number {
    fn eq(&self, other: &Number) -> (equal: bool) {
        self.same(other)
    }
}

impl PartialEqSpecImpl for Number {
    open spec fn obeys_eq_spec() -> bool {
        true
    }

    open spec fn eq_spec(&self, other: &Number) -> bool {
        self@ == other@
    }
}

impl PartialEq for Value {
    fn eq(&self, other: &Value) -> (equal: bool) {
        self.same(other)
    }
}

impl PartialEqSpecImpl for Value {
    open spec fn obeys_eq_spec() -> bool {
        true
    }

    open spec fn eq_spec(&self, other: &Value) -> bool {
        self@ == other@
    }
}

impl Clone for Number {
    /// A copy that is the same number.
    fn clone(&self) -> (copy: Number)
        ensures
            copy@ == self@,
    {
        match self {
            Number::PosInt(n) => Number::PosInt(*n),
            Number::NegInt(n) => Number::NegInt(*n),
            Number::Float(literal) => Number::Float(literal.clone()),
        }
    }
}

impl Clone for Value {
    /// A copy that holds the same document.
    fn clone(&self) -> (copy: Value)
        ensures
            copy@ == self@,
    {
        self.duplicate()
    }
}

impl Value {
    /// A copy that holds the same document.
    fn duplicate(&self) -> (copy: Value)
        ensures
            copy@ == self@,
        decreases self,
    {
        match self {
            Value::Null => Value::Null,
            Value::Bool(b) => Value::Bool(*b),
            Value::Number(n) => Value::Number(n.clone()),
            Value::String(s) => Value::String(s.clone()),
            Value::Array(items) => {
                let mut copies: Vec<Value> = Vec::new();
                let mut k: usize = 0;
                while k < items.len()
                    invariant
                        0 <= k <= items.len(),
                        self == Value::Array(*items),
                        copies@.len() == k,
                        forall|j: int| 0 <= j < k ==> (#[trigger] copies@[j])@ == items@[j]@,
                    decreases items.len() - k,
                {
                    assert(decreases_to!(self => self->Array_0));
                    let item = items[k].duplicate();
                    copies.push(item);
                    k += 1;
                }
                let copy = Value::Array(copies);
                assert(copy@->Array_0 =~= self@->Array_0);
                copy
            },
            Value::Object(entries) => {
                let mut copies: Vec<(String, Value)> = Vec::new();
                let mut k: usize = 0;
                while k < entries.len()
                    invariant
                        0 <= k <= entries.len(),
                        self == Value::Object(*entries),
                        copies@.len() == k,
                        forall|j: int|
                            0 <= j < k ==> (#[trigger] copies@[j]).0@ == entries@[j].0@
                                && copies@[j].1@ == entries@[j].1@,
                    decreases entries.len() - k,
                {
                    assert(decreases_to!(self => self->Object_0));
                    let value = entries[k].1.duplicate();
                    copies.push((entries[k].0.clone(), value));
                    k += 1;
                }
                let copy = Value::Object(copies);
                assert(copy@->Object_0 =~= self@->Object_0);
                copy
            },
        }
    }
}

impl Number {
    /// Whether two numbers are the same: the same integer, written in whatever
    /// width, or the same literal.
    pub fn same(&self, other: &Number) -> (equal: bool)
        ensures
            equal == (self@ == other@),
    {
        match (self, other) {
            (Number::PosInt(a), Number::PosInt(b)) => *a == *b,
            (Number::NegInt(a), Number::NegInt(b)) => *a == *b,
            (Number::PosInt(a), Number::NegInt(b)) => *b >= 0 && *a == *b as u64,
            (Number::NegInt(a), Number::PosInt(b)) => *a >= 0 && *a as u64 == *b,
            (Number::Float(a), Number::Float(b)) => *a == *b,
            _ => false,
        }
    }
}

impl Value {
    /// The kind of the node.
    pub fn kind(&self) -> (kind: Kind)
        ensures
            kind == self@.kind(),
    {
        match self {
            Value::Null => Kind::Null,
            Value::Bool(_) => Kind::Bool,
            Value::Number(_) => Kind::Number,
            Value::String(_) => Kind::String,
            Value::Array(_) => Kind::Array,
            Value::Object(_) => Kind::Object,
        }
    }

    /// The name of the node's kind: `null`, `bool`, `number`, `string`, `array`
    /// or `object`.
    pub fn kind_name(&self) -> (name: &'static str)
        ensures
            name@ == self@.kind_name(),
    {
        self.kind().label()
    }

    /// Whether two nodes hold the same document: the same scalar, the same
    /// elements in the same order, the same entries in the same order.
    pub fn same(&self, other: &Value) -> (equal: bool)
        ensures
            equal == (self@ == other@),
        decreases self,
    {
        match (self, other) {
            (Value::Null, Value::Null) => true,
            (Value::Bool(a), Value::Bool(b)) => *a == *b,
            (Value::Number(a), Value::Number(b)) => a.same(b),
            (Value::String(a), Value::String(b)) => *a == *b,
            (Value::Array(a), Value::Array(b)) => {
                if a.len() != b.len() {
                    assert(self@->Array_0.len() != other@->Array_0.len());
                    return false;
                }
                let mut k: usize = 0;
                while k < a.len()
                    invariant
                        0 <= k <= a.len(),
                        a.len() == b.len(),
                        self == Value::Array(*a),
                        other == Value::Array(*b),
                        forall|j: int| 0 <= j < k ==> (#[trigger] a@[j])@ == b@[j]@,
                    decreases a.len() - k,
                {
                    if !a[k].same(&b[k]) {
                        assert(self@->Array_0[k as int] != other@->Array_0[k as int]);
                        return false;
                    }
                    k += 1;
                }
                assert(self@->Array_0 =~= other@->Array_0);
                true
            },
            (Value::Object(a), Value::Object(b)) => {
                if a.len() != b.len() {
                    assert(self@->Object_0.len() != other@->Object_0.len());
                    return false;
                }
                let mut k: usize = 0;
                while k < a.len()
                    invariant
                        0 <= k <= a.len(),
                        a.len() == b.len(),
                        self == Value::Object(*a),
                        other == Value::Object(*b),
                        forall|j: int|
                            0 <= j < k ==> (#[trigger] a@[j]).0@ == b@[j].0@ && a@[j].1@ == b@[j].1@,
                    decreases a.len() - k,
                {
                    if !(a[k].0 == b[k].0) || !a[k].1.same(&b[k].1) {
                        assert(self@->Object_0[k as int] != other@->Object_0[k as int]);
                        return false;
                    }
                    k += 1;
                }
                assert(self@->Object_0 =~= other@->Object_0);
                true
            },
            _ => false,
        }
    }

    /// The child at index `i`, if there is one.
    pub fn child(&self, i: usize) -> (c: Option<&Value>)
        ensures
            i < self@.child_count() <==> c is Some,
            c matches Some(v) ==> v@ == self@.child(i as int),
    {
        match self {
            Value::Array(items) => {
                if i < items.len() {
                    Some(&items[i])
                } else {
                    None
                }
            },
            Value::Object(entries) => {
                if i < entries.len() {
                    Some(&entries[i].1)
                } else {
                    None
                }
            },
            _ => None,
        }
    }

    /// The node that `path` leads to, or `None` where the path leaves the
    /// document.
    pub fn at(&self, path: &Vec<usize>) -> (node: Option<&Value>)
        ensures
            node is Some <==> self@.has(path@),
            node matches Some(v) ==> self@.at(path@) == Some(v@),
    {
        let mut current: &Value = self;
        let mut k: usize = 0;
        assert(path@.skip(0) =~= path@);
        while k < path.len()
            invariant
                0 <= k <= path.len(),
                self@.at(path@) == current@.at(path@.skip(k as int)),
            decreases path.len() - k,
        {
            let ghost rest = path@.skip(k as int);
            assert(rest.len() > 0 && rest[0] == path@[k as int]);
            assert(rest.drop_first() =~= path@.skip(k as int + 1));
            match current.child(path[k]) {
                Some(next) => {
                    current = next;
                },
                None => {
                    return None;
                },
            }
            k += 1;
        }
        assert(path@.skip(k as int).len() == 0);
        Some(current)
    }
}

} // verus!
