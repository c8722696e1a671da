//! Validators for arrays.

use crate::error::{lemma_has_under, Error, Failure, Verdict};
use crate::text::{decimal, decimal_text};
use crate::validator::Validator;
use crate::value::{Json, Value};
use vstd::prelude::*;
use vstd::string::StringExecFns;

verus! {

/// What an array of the wrong length is told.
pub open spec fn size_mismatch(expected: nat, found: nat) -> Seq<char> {
    "expected "@ + decimal(expected) + " elements got "@ + decimal(found)
}

/// Writes what an array of the wrong length is told.
fn size_mismatch_text(expected: usize, found: usize) -> (text: String)
    ensures
        text@ == size_mismatch(expected as nat, found as nat),
{
    let mut text = String::from_str("expected ");
    let wanted = decimal_text(expected);
    text.append(wanted.as_str());
    text.append(" elements got ");
    let got = decimal_text(found);
    text.append(got.as_str());
    text
}

/// The error for a node that is no array.
fn not_an_array() -> (error: Error)
    ensures
        error@ == Failure::InvalidType(Seq::empty(), "array"@),
{
    Error::InvalidType(Vec::new(), String::from_str("array"))
}

/// The first failure that the validators meet, each on the element at its own
/// index, from index `from` on; the failure is reported with the step to that
/// element.
pub open spec fn first_failure(
    validators: Seq<Box<dyn Validator>>,
    items: Seq<Json>,
    from: int,
) -> Verdict
    decreases items.len() - from,
{
    if from < 0 || from >= items.len() {
        Ok(())
    } else {
        match validators[from].verdict(items[from]) {
            Err(failure) => Err(failure.under(from as usize)),
            Ok(_) => first_failure(validators, items, from + 1),
        }
    }
}

/// Accepts an array that has one element for each validator, each validator
/// accepting the element at its own index.
pub struct ArrayValidator {
    pub validators: Vec<Box<dyn Validator>>,
}

impl Validator for ArrayValidator {
    open spec fn verdict(&self, doc: Json) -> Verdict {
        match doc {
            Json::Array(items) => if items.len() != self.validators@.len() {
                Err(
                    Failure::InvalidValue(
                        Seq::empty(),
                        size_mismatch(self.validators@.len(), items.len()),
                    ),
                )
            } else {
                first_failure(self.validators@, items, 0)
            },
            _ => Err(Failure::InvalidType(Seq::empty(), "array"@)),
        }
    }

    fn validate(&self, value: &Value) -> (result: Result<(), Error>) {
        match value {
            Value::Array(items) => {
                let ghost elements = value@->Array_0;
                if items.len() != self.validators.len() {
                    return Err(
                        Error::InvalidValue(
                            Vec::new(),
                            size_mismatch_text(self.validators.len(), items.len()),
                        ),
                    );
                }
                let mut k: usize = 0;
                while k < items.len()
                    invariant
                        0 <= k <= items.len(),
                        items.len() == self.validators.len(),
                        value == Value::Array(*items),
                        elements == value@->Array_0,
                        first_failure(self.validators@, elements, 0) == first_failure(
                            self.validators@,
                            elements,
                            k as int,
                        ),
                    decreases items.len() - k,
                {
                    match self.validators[k].validate(&items[k]) {
                        Ok(_) => {},
                        Err(error) => {
                            proof {
                                lemma_has_under(value@, k, error@.location());
                            }
                            return Err(error.under(k));
                        },
                    }
                    k += 1;
                }
                Ok(())
            },
            _ => Err(not_an_array()),
        }
    }
}

/// Accepts an array that has one element for each validator, each validator
/// accepting the element at its own index.
pub fn array(array_validators: Vec<Box<dyn Validator>>) -> (validator: ArrayValidator)
    ensures
        validator.validators == array_validators,
{
    ArrayValidator { validators: array_validators }
}

/// Accepts an array without elements.
pub fn array_empty() -> (validator: ArrayValidator)
    ensures
        validator.validators@.len() == 0,
{
    ArrayValidator { validators: Vec::new() }
}

/// An array validator without validators accepts the empty array and nothing
/// else: any other array fails with `InvalidValue`, and a node that is no
/// array with `InvalidType`.
pub proof fn lemma_empty_array_only(validator: ArrayValidator, doc: Json)
    requires
        validator.validators@.len() == 0,
    ensures
        validator.verdict(doc) is Ok <==> doc == Json::Array(Seq::empty()),
        doc is Array && doc != Json::Array(Seq::empty()) ==> validator.verdict(doc) matches Err(
            Failure::InvalidValue(_, _),
        ),
        !(doc is Array) ==> validator.verdict(doc) matches Err(Failure::InvalidType(_, _)),
{
    if let Json::Array(items) = doc {
        if items.len() == 0 {
            assert(items =~= Seq::empty());
        }
    }
}

/// Accepts an array of a given length, whatever its elements.
pub struct ArraySizeValidator {
    pub size: usize,
}

impl Validator for ArraySizeValidator {
    open spec fn verdict(&self, doc: Json) -> Verdict {
        match doc {
            Json::Array(items) => if items.len() != self.size {
                Err(Failure::InvalidValue(Seq::empty(), size_mismatch(self.size as nat, items.len())))
            } else {
                Ok(())
            },
            _ => Err(Failure::InvalidType(Seq::empty(), "array"@)),
        }
    }

    fn validate(&self, value: &Value) -> (result: Result<(), Error>) {
        match value {
            Value::Array(items) => {
                if items.len() != self.size {
                    Err(Error::InvalidValue(Vec::new(), size_mismatch_text(self.size, items.len())))
                } else {
                    Ok(())
                }
            },
            _ => Err(not_an_array()),
        }
    }
}

/// Accepts an array of `expected_size` elements, whatever they are.
pub fn array_size(expected_size: usize) -> (validator: ArraySizeValidator)
    ensures
        validator.size == expected_size,
{
    ArraySizeValidator { size: expected_size }
}

/// Validators that accept every node meet no failure.
proof fn lemma_no_failure(validators: Seq<Box<dyn Validator>>, items: Seq<Json>, from: int)
    requires
        validators.len() == items.len(),
        forall|i: int, doc: Json|
            0 <= i < validators.len() ==> (#[trigger] validators[i].verdict(doc)) is Ok,
    ensures
        first_failure(validators, items, from) == Ok::<(), Failure>(()),
    decreases items.len() - from,
{
    if 0 <= from < items.len() {
        lemma_no_failure(validators, items, from + 1);
    }
}

/// `array_size(n)` answers as `array` does with `n` validators that accept
/// every node: only the length is checked.
pub proof fn lemma_array_size_checks_length_only(
    sized: ArraySizeValidator,
    listed: ArrayValidator,
    doc: Json,
)
    requires
        listed.validators@.len() == sized.size,
        forall|i: int, d: Json|
            0 <= i < listed.validators@.len() ==> (#[trigger] listed.validators@[i].verdict(d)) is Ok,
    ensures
        sized.verdict(doc) == listed.verdict(doc),
{
    if let Json::Array(items) = doc {
        if items.len() == sized.size {
            lemma_no_failure(listed.validators@, items, 0);
        }
    }
}

/// The first failure that `validator` meets on the elements from index `from`
/// on, reported with the step to that element.
pub open spec fn first_rejected<T: Validator>(validator: T, items: Seq<Json>, from: int) -> Verdict
    decreases items.len() - from,
{
    if from < 0 || from >= items.len() {
        Ok(())
    } else {
        match validator.verdict(items[from]) {
            Err(failure) => Err(failure.under(from as usize)),
            Ok(_) => first_rejected(validator, items, from + 1),
        }
    }
}

/// Accepts an array of which every element is accepted by one validator.
pub struct ArrayForEachValidator<T: Validator> {
    pub validator: T,
}

impl<T: Validator> Validator for ArrayForEachValidator<T> {
    open spec fn verdict(&self, doc: Json) -> Verdict {
        match doc {
            Json::Array(items) => first_rejected(self.validator, items, 0),
            _ => Err(Failure::InvalidType(Seq::empty(), "array"@)),
        }
    }

    fn validate(&self, value: &Value) -> (result: Result<(), Error>) {
        match value {
            Value::Array(items) => {
                let ghost elements = value@->Array_0;
                let mut k: usize = 0;
                while k < items.len()
                    invariant
                        0 <= k <= items.len(),
                        value == Value::Array(*items),
                        elements == value@->Array_0,
                        first_rejected(self.validator, elements, 0) == first_rejected(
                            self.validator,
                            elements,
                            k as int,
                        ),
                    decreases items.len() - k,
                {
                    match self.validator.validate(&items[k]) {
                        Ok(_) => {},
                        Err(error) => {
                            proof {
                                lemma_has_under(value@, k, error@.location());
                            }
                            return Err(error.under(k));
                        },
                    }
                    k += 1;
                }
                Ok(())
            },
            _ => Err(not_an_array()),
        }
    }
}

/// Accepts an array of which `validator` accepts every element.
pub fn array_for_each<T: Validator>(validator: T) -> (each: ArrayForEachValidator<T>)
    ensures
        each.validator == validator,
{
    ArrayForEachValidator { validator }
}

/// The first element from index `from` on that no earlier validator has
/// claimed and that validator `m` accepts.
pub open spec fn first_free_match(
    validators: Seq<Box<dyn Validator>>,
    m: int,
    items: Seq<Json>,
    claimed: Seq<bool>,
    from: int,
) -> Option<int>
    decreases items.len() - from,
{
    if from < 0 || from >= items.len() {
        None
    } else if !claimed[from] && validators[m].verdict(items[from]) is Ok {
        Some(from)
    } else {
        first_free_match(validators, m, items, claimed, from + 1)
    }
}

/// The outcome of matching the validators from index `m` on, in their order,
/// each claiming the first element that is still free and that it accepts.
/// The matching is greedy: a validator never gives up an element for the sake
/// of a later one.
pub open spec fn greedy_match(
    validators: Seq<Box<dyn Validator>>,
    items: Seq<Json>,
    claimed: Seq<bool>,
    m: int,
) -> Verdict
    decreases validators.len() - m,
{
    if m < 0 || m >= validators.len() {
        Ok(())
    } else {
        match first_free_match(validators, m, items, claimed, 0) {
            None => Err(Failure::UnmatchedValidator(Seq::empty(), m as usize)),
            Some(n) => greedy_match(validators, items, claimed.update(n, true), m + 1),
        }
    }
}

/// How many elements no validator has claimed.
pub open spec fn free_count(claimed: Seq<bool>) -> nat
    decreases claimed.len(),
{
    if claimed.len() == 0 {
        0
    } else {
        free_count(claimed.drop_last()) + if claimed.last() {
            0nat
        } else {
            1nat
        }
    }
}

/// No more elements are free than there are elements.
proof fn lemma_free_count_bound(claimed: Seq<bool>)
    ensures
        free_count(claimed) <= claimed.len(),
    decreases claimed.len(),
{
    if claimed.len() > 0 {
        lemma_free_count_bound(claimed.drop_last());
    }
}

/// Claiming a free element leaves one free element fewer.
proof fn lemma_claim_one(claimed: Seq<bool>, n: int)
    requires
        0 <= n < claimed.len(),
        !claimed[n],
    ensures
        free_count(claimed.update(n, true)) + 1 == free_count(claimed),
    decreases claimed.len(),
{
    let after = claimed.update(n, true);
    if n == claimed.len() - 1 {
        assert(after.drop_last() =~= claimed.drop_last());
    } else {
        assert(after.drop_last() =~= claimed.drop_last().update(n, true));
        lemma_claim_one(claimed.drop_last(), n);
    }
}

/// The element that a validator claims is in the array and was free.
proof fn lemma_match_is_free(
    validators: Seq<Box<dyn Validator>>,
    m: int,
    items: Seq<Json>,
    claimed: Seq<bool>,
    from: int,
)
    ensures
        first_free_match(validators, m, items, claimed, from) matches Some(n) ==> from <= n
            < items.len() && !claimed[n] && validators[m].verdict(items[n]) is Ok,
    decreases items.len() - from,
{
    if 0 <= from < items.len() {
        lemma_match_is_free(validators, m, items, claimed, from + 1);
    }
}

/// Where more validators are still to be matched than elements are free, the
/// matching fails: two validators never share one element.
pub proof fn lemma_too_few_elements(
    validators: Seq<Box<dyn Validator>>,
    items: Seq<Json>,
    claimed: Seq<bool>,
    m: int,
)
    requires
        0 <= m,
        claimed.len() == items.len(),
        validators.len() - m > free_count(claimed),
    ensures
        greedy_match(validators, items, claimed, m) matches Err(
            Failure::UnmatchedValidator(_, _),
        ),
    decreases validators.len() - m,
{
    match first_free_match(validators, m, items, claimed, 0) {
        None => {},
        Some(n) => {
            lemma_match_is_free(validators, m, items, claimed, 0);
            lemma_claim_one(claimed, n);
            lemma_too_few_elements(validators, items, claimed.update(n, true), m + 1);
        },
    }
}

/// An array with fewer elements than the validator has validators is
/// rejected with `UnmatchedValidator`.
pub proof fn lemma_more_validators_than_elements(validator: UnorderedArrayValidator, doc: Json)
    requires
        doc is Array,
        validator.validators@.len() > doc->Array_0.len(),
    ensures
        validator.verdict(doc) matches Err(Failure::UnmatchedValidator(_, _)),
{
    let items = doc->Array_0;
    let claimed = Seq::new(items.len(), |i: int| false);
    lemma_free_count_bound(claimed);
    lemma_too_few_elements(validator.validators@, items, claimed, 0);
}

/// Accepts an array in which every validator finds an element of its own, in
/// whatever order the elements stand.
pub struct UnorderedArrayValidator {
    pub validators: Vec<Box<dyn Validator>>,
}

impl Validator for UnorderedArrayValidator {
    open spec fn verdict(&self, doc: Json) -> Verdict {
        match doc {
            Json::Array(items) => greedy_match(
                self.validators@,
                items,
                Seq::new(items.len(), |i: int| false),
                0,
            ),
            _ => Err(Failure::InvalidType(Seq::empty(), "array"@)),
        }
    }

    fn validate(&self, value: &Value) -> (result: Result<(), Error>) {
        match value {
            Value::Array(items) => {
                let ghost elements = value@->Array_0;
                let mut claimed: Vec<bool> = Vec::new();
                let mut i: usize = 0;
                while i < items.len()
                    invariant
                        0 <= i <= items.len(),
                        claimed@ == Seq::new(i as nat, |j: int| false),
                    decreases items.len() - i,
                {
                    claimed.push(false);
                    assert(claimed@ =~= Seq::new((i + 1) as nat, |j: int| false));
                    i += 1;
                }
                let mut m: usize = 0;
                while m < self.validators.len()
                    invariant
                        0 <= m <= self.validators.len(),
                        value == Value::Array(*items),
                        elements == value@->Array_0,
                        claimed@.len() == items.len(),
                        self.verdict(value@) == greedy_match(
                            self.validators@,
                            elements,
                            claimed@,
                            m as int,
                        ),
                    decreases self.validators.len() - m,
                {
                    let mut n: usize = 0;
                    let mut found = false;
                    while n < items.len() && !found
                        invariant
                            0 <= n <= items.len(),
                            0 <= m < self.validators.len(),
                            value == Value::Array(*items),
                            elements == value@->Array_0,
                            claimed@.len() == items.len(),
                            !found ==> first_free_match(
                                self.validators@,
                                m as int,
                                elements,
                                claimed@,
                                0,
                            ) == first_free_match(
                                self.validators@,
                                m as int,
                                elements,
                                claimed@,
                                n as int,
                            ),
                            found ==> n < items.len() && first_free_match(
                                self.validators@,
                                m as int,
                                elements,
                                claimed@,
                                0,
                            ) == Some(n as int),
                        decreases items.len() - n + (if found { 0int } else { 1int }),
                    {
                        let mut accepted = false;
                        if !claimed[n] {
                            let answer = self.validators[m].validate(&items[n]);
                            accepted = answer.is_ok();
                        }
                        assert(elements[n as int] == items@[n as int]@);
                        if accepted {
                            found = true;
                        } else {
                            n += 1;
                        }
                    }
                    if found {
                        claimed.set(n, true);
                    } else {
                        return Err(Error::UnmatchedValidator(Vec::new(), m));
                    }
                    m += 1;
                }
                Ok(())
            },
            _ => Err(not_an_array()),
        }
    }
}

/// Accepts an array in which each validator, in the order given, finds an
/// element that it accepts and that no earlier validator has taken.
pub fn array_contains(validators: Vec<Box<dyn Validator>>) -> (validator: UnorderedArrayValidator)
    ensures
        validator.validators == validators,
{
    UnorderedArrayValidator { validators }
}

} // verus!
