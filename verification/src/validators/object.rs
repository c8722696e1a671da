//! Validators for objects.
//!
//! The validators of an object stand in a list of pairs, a key and the
//! validator for the value under that key. They are asked in the order of the
//! list, and the first failure is the one reported. In strict mode the keys of
//! the object are then gone through in the object's own order.

use crate::error::{lemma_has_under, Error, Failure, Verdict};
use crate::validator::Validator;
use crate::validity::distinct_keys;
use crate::value::{Json, Member, Value};
use vstd::prelude::*;
use vstd::string::StringExecFns;

verus! {

/// The index of the first entry from index `from` on that has the key `key`.
pub open spec fn position(entries: Seq<Member>, key: Seq<char>, from: int) -> Option<int>
    decreases entries.len() - from,
{
    if from < 0 || from >= entries.len() {
        None
    } else if entries[from].key == key {
        Some(from)
    } else {
        position(entries, key, from + 1)
    }
}

/// The first failure that the pairs from index `from` on meet: a key that the
/// object lacks, or a value that the validator of its key rejects.
pub open spec fn first_key_failure(
    pairs: Seq<(String, Box<dyn Validator>)>,
    entries: Seq<Member>,
    from: int,
) -> Verdict
    decreases pairs.len() - from,
{
    if from < 0 || from >= pairs.len() {
        Ok(())
    } else {
        match position(entries, pairs[from].0@, 0) {
            None => Err(Failure::MissingObjectKey(Seq::empty(), pairs[from].0@)),
            Some(i) => match pairs[from].1.verdict(entries[i].value) {
                Err(failure) => Err(failure.under(i as usize)),
                Ok(_) => first_key_failure(pairs, entries, from + 1),
            },
        }
    }
}

/// Whether one of the pairs has the key `key`.
pub open spec fn declares(pairs: Seq<(String, Box<dyn Validator>)>, key: Seq<char>) -> bool {
    exists|k: int| 0 <= k < pairs.len() && (#[trigger] pairs[k]).0@ == key
}

/// The first entry from index `from` on whose key none of the pairs has,
/// reported at the value of that entry.
pub open spec fn first_undeclared(
    pairs: Seq<(String, Box<dyn Validator>)>,
    entries: Seq<Member>,
    from: int,
) -> Verdict
    decreases entries.len() - from,
{
    if from < 0 || from >= entries.len() {
        Ok(())
    } else if !declares(pairs, entries[from].key) {
        Err(Failure::UnexpectedObjectKey(seq![from as usize], entries[from].key))
    } else {
        first_undeclared(pairs, entries, from + 1)
    }
}

/// The index of the first entry of `entries` that has the key `key`.
fn find_entry(entries: &Vec<(String, Value)>, key: &String) -> (found: Option<usize>)
    ensures
        found is Some <==> position(Value::Object(*entries)@->Object_0, key@, 0) is Some,
        found matches Some(i) ==> i < entries.len() && position(
            Value::Object(*entries)@->Object_0,
            key@,
            0,
        ) == Some(i as int),
{
    let ghost members = Value::Object(*entries)@->Object_0;
    let mut k: usize = 0;
    while k < entries.len()
        invariant
            0 <= k <= entries.len(),
            members == Value::Object(*entries)@->Object_0,
            position(members, key@, 0) == position(members, key@, k as int),
        decreases entries.len() - k,
    {
        assert(members[k as int].key == entries@[k as int].0@);
        if entries[k].0 == *key {
            return Some(k);
        }
        k += 1;
    }
    None
}

/// Whether one of the pairs has the key `key`.
fn is_declared(pairs: &Vec<(String, Box<dyn Validator>)>, key: &String) -> (found: bool)
    ensures
        found == declares(pairs@, key@),
{
    let mut k: usize = 0;
    while k < pairs.len()
        invariant
            0 <= k <= pairs.len(),
            forall|j: int| 0 <= j < k ==> (#[trigger] pairs@[j]).0@ != key@,
        decreases pairs.len() - k,
    {
        if pairs[k].0 == *key {
            return true;
        }
        k += 1;
    }
    false
}

/// Accepts an object that has every key of its pairs, with a value that the
/// validator of the key accepts; in strict mode the object may have no other
/// key.
pub struct ObjectValidator {
    pub key_validators: Vec<(String, Box<dyn Validator>)>,
    pub strict: bool,
}

impl Validator for ObjectValidator {
    open spec fn verdict(&self, doc: Json) -> Verdict {
        match doc {
            Json::Object(entries) => match first_key_failure(self.key_validators@, entries, 0) {
                Err(failure) => Err(failure),
                Ok(_) => if self.strict {
                    first_undeclared(self.key_validators@, entries, 0)
                } else {
                    Ok(())
                },
            },
            _ => Err(Failure::InvalidType(Seq::empty(), "object"@)),
        }
    }

    fn validate(&self, value: &Value) -> (result: Result<(), Error>) {
        match value {
            Value::Object(entries) => {
                let ghost members = value@->Object_0;
                let mut k: usize = 0;
                while k < self.key_validators.len()
                    invariant
                        0 <= k <= self.key_validators.len(),
                        value == Value::Object(*entries),
                        members == value@->Object_0,
                        first_key_failure(self.key_validators@, members, 0) == first_key_failure(
                            self.key_validators@,
                            members,
                            k as int,
                        ),
                    decreases self.key_validators.len() - k,
                {
                    let key = &self.key_validators[k].0;
                    match find_entry(entries, key) {
                        None => {
                            return Err(Error::MissingObjectKey(Vec::new(), key.clone()));
                        },
                        Some(i) => {
                            assert(members[i as int].value == entries@[i as int].1@);
                            match self.key_validators[k].1.validate(&entries[i].1) {
                                Ok(_) => {},
                                Err(error) => {
                                    proof {
                                        lemma_has_under(value@, i, error@.location());
                                    }
                                    return Err(error.under(i));
                                },
                            }
                        },
                    }
                    k += 1;
                }
                if self.strict {
                    let mut i: usize = 0;
                    while i < entries.len()
                        invariant
                            0 <= i <= entries.len(),
                            value == Value::Object(*entries),
                            members == value@->Object_0,
                            self.strict,
                            first_key_failure(self.key_validators@, members, 0) is Ok,
                            first_undeclared(self.key_validators@, members, 0) == first_undeclared(
                                self.key_validators@,
                                members,
                                i as int,
                            ),
                        decreases entries.len() - i,
                    {
                        assert(members[i as int].key == entries@[i as int].0@);
                        if !is_declared(&self.key_validators, &entries[i].0) {
                            let mut path: Vec<usize> = Vec::new();
                            path.push(i);
                            proof {
                                assert(path@ =~= seq![i]);
                                assert(path@ =~= seq![i] + Seq::<usize>::empty());
                                lemma_has_under(value@, i, Seq::empty());
                            }
                            return Err(Error::UnexpectedObjectKey(path, entries[i].0.clone()));
                        }
                        i += 1;
                    }
                }
                Ok(())
            },
            _ => Err(Error::InvalidType(Vec::new(), String::from_str("object"))),
        }
    }
}

/// Whether the pair at index `k` is met: the object has its key, and its
/// validator accepts the value of the first entry with that key.
pub open spec fn pair_met(
    pairs: Seq<(String, Box<dyn Validator>)>,
    entries: Seq<Member>,
    k: int,
) -> bool {
    match position(entries, pairs[k].0@, 0) {
        None => false,
        Some(i) => pairs[k].1.verdict(entries[i].value) is Ok,
    }
}

/// `position` finds the first entry with the key: no earlier entry has it,
/// and where there is none at all, no entry has it.
pub proof fn lemma_position_is_first(entries: Seq<Member>, key: Seq<char>, from: int)
    requires
        0 <= from,
    ensures
        match position(entries, key, from) {
            Some(i) => from <= i < entries.len() && entries[i].key == key && forall|j: int|
                from <= j < i ==> (#[trigger] entries[j]).key != key,
            None => forall|j: int| from <= j < entries.len() ==> (#[trigger] entries[j]).key != key,
        },
    decreases entries.len() - from,
{
    if from < entries.len() && entries[from].key != key {
        lemma_position_is_first(entries, key, from + 1);
    }
}

/// In an object that has no key twice, the entry that `position` finds is
/// the only entry with the key.
pub proof fn lemma_position_is_only(entries: Seq<Member>, key: Seq<char>, i: int)
    requires
        distinct_keys(entries),
        0 <= i < entries.len(),
    ensures
        position(entries, key, 0) == Some(i) <==> entries[i].key == key,
{
    lemma_position_is_first(entries, key, 0);
}

/// The pairs from index `from` on meet no failure exactly where each of them
/// is met.
proof fn lemma_key_failure(
    pairs: Seq<(String, Box<dyn Validator>)>,
    entries: Seq<Member>,
    from: int,
)
    requires
        0 <= from,
    ensures
        first_key_failure(pairs, entries, from) is Ok <==> forall|k: int|
            from <= k < pairs.len() ==> pair_met(pairs, entries, k),
    decreases pairs.len() - from,
{
    if from < pairs.len() {
        lemma_key_failure(pairs, entries, from + 1);
        assert(first_key_failure(pairs, entries, from) is Ok <==> pair_met(pairs, entries, from)
            && first_key_failure(pairs, entries, from + 1) is Ok);
    }
}

/// From index `from` on no entry has a key that is not declared exactly
/// where each of them has a key of one of the pairs.
proof fn lemma_undeclared(
    pairs: Seq<(String, Box<dyn Validator>)>,
    entries: Seq<Member>,
    from: int,
)
    requires
        0 <= from,
    ensures
        first_undeclared(pairs, entries, from) is Ok <==> forall|i: int|
            from <= i < entries.len() ==> declares(pairs, (#[trigger] entries[i]).key),
    decreases entries.len() - from,
{
    if from < entries.len() {
        lemma_undeclared(pairs, entries, from + 1);
    }
}

/// What an object validator accepts: entries in which every pair is met and,
/// in strict mode, every key is the key of a pair. Every pair is asked, so
/// where two pairs have the same key, the value under it has to be accepted
/// by both validators; where the object has a key twice, the first entry with
/// it is the one looked at.
pub open spec fn object_accepted(
    pairs: Seq<(String, Box<dyn Validator>)>,
    entries: Seq<Member>,
    strict: bool,
) -> bool {
    &&& forall|k: int| 0 <= k < pairs.len() ==> pair_met(pairs, entries, k)
    &&& strict ==> forall|i: int|
        0 <= i < entries.len() ==> declares(pairs, (#[trigger] entries[i]).key)
}

/// An object validator accepts exactly the objects of which `object_accepted`
/// holds.
pub proof fn lemma_object_accepts(validator: ObjectValidator, doc: Json)
    requires
        doc is Object,
    ensures
        validator.verdict(doc) is Ok <==> object_accepted(
            validator.key_validators@,
            doc->Object_0,
            validator.strict,
        ),
{
    lemma_key_failure(validator.key_validators@, doc->Object_0, 0);
    lemma_undeclared(validator.key_validators@, doc->Object_0, 0);
}

/// A strict object validator without pairs accepts the object without
/// entries and nothing else.
pub proof fn lemma_empty_object_only(validator: ObjectValidator, doc: Json)
    requires
        validator.key_validators@.len() == 0,
        validator.strict,
    ensures
        validator.verdict(doc) is Ok <==> doc == Json::Object(Seq::empty()),
{
    if let Json::Object(entries) = doc {
        if entries.len() == 0 {
            assert(entries =~= Seq::empty());
        } else {
            assert(!declares(validator.key_validators@, entries[0].key));
        }
    }
}

/// Accepts an object that has every key of `key_validators`, with a value
/// that the validator of the key accepts. Other keys are passed over. Every
/// pair is asked, in the order of the list: two pairs with one key both have
/// to accept the value under it.
pub fn object(key_validators: Vec<(String, Box<dyn Validator>)>) -> (validator: ObjectValidator)
    ensures
        validator.key_validators == key_validators,
        !validator.strict,
        forall|doc: Json|
            doc is Object ==> (#[trigger] validator.verdict(doc) is Ok <==> object_accepted(
                key_validators@,
                doc->Object_0,
                false,
            )),
{
    let validator = ObjectValidator { key_validators, strict: false };
    proof {
        assert forall|doc: Json| doc is Object implies (#[trigger] validator.verdict(doc) is Ok
            <==> object_accepted(validator.key_validators@, doc->Object_0, false)) by {
            lemma_object_accepts(validator, doc);
        }
    }
    validator
}

/// Accepts an object that has the keys of `key_validators` and no others, each
/// with a value that the validator of the key accepts. Every pair is asked, in
/// the order of the list: two pairs with one key both have to accept the value
/// under it.
pub fn object_strict(key_validators: Vec<(String, Box<dyn Validator>)>) -> (validator:
    ObjectValidator)
    ensures
        validator.key_validators == key_validators,
        validator.strict,
        forall|doc: Json|
            doc is Object ==> (#[trigger] validator.verdict(doc) is Ok <==> object_accepted(
                key_validators@,
                doc->Object_0,
                true,
            )),
{
    let validator = ObjectValidator { key_validators, strict: true };
    proof {
        assert forall|doc: Json| doc is Object implies (#[trigger] validator.verdict(doc) is Ok
            <==> object_accepted(validator.key_validators@, doc->Object_0, true)) by {
            lemma_object_accepts(validator, doc);
        }
    }
    validator
}

/// Accepts an object without keys.
pub fn object_empty() -> (validator: ObjectValidator)
    ensures
        validator.key_validators@.len() == 0,
        validator.strict,
{
    ObjectValidator { key_validators: Vec::new(), strict: true }
}

} // verus!
