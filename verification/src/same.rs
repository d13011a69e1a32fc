//! Whether messages say the same.
use vstd::prelude::*;
use vstd::string::*;
use crate::proto::{AnyValue, KeyValue, PbValue};
use crate::text::same_text;
use crate::views::views;

verus! {

/// Whether two sequences of bytes are the same.
fn same_bytes(a: &Vec<u8>, b: &Vec<u8>) -> (same: bool)
    ensures
        same == (a@ == b@),
{
    if a.len() != b.len() {
        return false;
    }
    let mut i: usize = 0;
    while i < a.len()
        invariant
            i <= a@.len(),
            a@.len() == b@.len(),
            forall|j: int| 0 <= j < i ==> a@[j] == b@[j],
        decreases a@.len() - i,
    {
        if a[i] != b[i] {
            return false;
        }
        i = i + 1;
    }
    assert(a@ =~= b@);
    true
}

/// Whether two values say the same.
pub fn same_value(a: &AnyValue, b: &AnyValue) -> (same: bool)
    ensures
        same == (a@ == b@),
    decreases a,
{
    match (&a.value, &b.value) {
        (Some(x), Some(y)) => same_kind_of_value(x, y),
        (None, None) => true,
        _ => false,
    }
}

/// Whether two values with a kind say the same.
fn same_kind_of_value(a: &PbValue, b: &PbValue) -> (same: bool)
    ensures
        same == (a.model() == b.model()),
    decreases a,
{
    match (a, b) {
        (PbValue::StringValue(x), PbValue::StringValue(y)) => same_text(x.as_str(), y.as_str()),
        (PbValue::BoolValue(x), PbValue::BoolValue(y)) => *x == *y,
        (PbValue::IntValue(x), PbValue::IntValue(y)) => *x == *y,
        (PbValue::DoubleValue(x), PbValue::DoubleValue(y)) => x.bits == y.bits,
        (PbValue::BytesValue(x), PbValue::BytesValue(y)) => same_bytes(x, y),
        (PbValue::ArrayValue(x), PbValue::ArrayValue(y)) => {
            let same = same_values(&x.values, &y.values);
            proof {
                assert(x.model() =~= views(x.values@));
                assert(y.model() =~= views(y.values@));
            }
            same
        },
        (PbValue::KvlistValue(x), PbValue::KvlistValue(y)) => {
            let same = same_attributes(&x.values, &y.values);
            proof {
                assert(x.model() =~= views(x.values@));
                assert(y.model() =~= views(y.values@));
            }
            same
        },
        _ => false,
    }
}

/// Whether two lists of values say the same.
fn same_values(a: &Vec<AnyValue>, b: &Vec<AnyValue>) -> (same: bool)
    ensures
        same == (views(a@) == views(b@)),
    decreases a,
{
    if a.len() != b.len() {
        assert(views(a@).len() != views(b@).len());
        return false;
    }
    let mut i: usize = 0;
    while i < a.len()
        invariant
            i <= a@.len(),
            a@.len() == b@.len(),
            forall|j: int| 0 <= j < i ==> a@[j]@ == b@[j]@,
        decreases a@.len() - i,
    {
        if !same_value(&a[i], &b[i]) {
            assert(views(a@)[i as int] != views(b@)[i as int]);
            return false;
        }
        i = i + 1;
    }
    assert(views(a@) =~= views(b@));
    true
}

/// Whether two lists of attributes say the same.
pub fn same_attributes(a: &Vec<KeyValue>, b: &Vec<KeyValue>) -> (same: bool)
    ensures
        same == (views(a@) == views(b@)),
    decreases a,
{
    if a.len() != b.len() {
        assert(views(a@).len() != views(b@).len());
        return false;
    }
    let mut i: usize = 0;
    while i < a.len()
        invariant
            i <= a@.len(),
            a@.len() == b@.len(),
            forall|j: int| 0 <= j < i ==> a@[j]@ == b@[j]@,
        decreases a@.len() - i,
    {
        let same = same_text(a[i].key.as_str(), b[i].key.as_str()) && (match (
            &a[i].value,
            &b[i].value,
        ) {
            (Some(x), Some(y)) => same_value(x, y),
            (None, None) => true,
            _ => false,
        });
        assert(same == (a@[i as int]@ == b@[i as int]@));
        if !same {
            assert(views(a@)[i as int] != views(b@)[i as int]);
            return false;
        }
        i = i + 1;
    }
    assert(views(a@) =~= views(b@));
    true
}

}
