//! What objects hold, entry by entry.
use vstd::prelude::*;
use vstd::utf8::*;
use crate::convert::{any_value_of, key_values_of};
use crate::fields::{
    array_at, integer_at, object_at, object_or_empty, text_at, timestamp_at,
};
use crate::keys::{ascending, key_index, keys_of, lemma_key_index, lookup, removed, without};
use crate::proto::SpecKeyValue;
use crate::text::{lemma_text_before_total, text_before, utf8_replaced};
use crate::value::{SpecTimestamp, SpecValue};

verus! {

/// Whether an entry with a name has this value. Objects hold a name once; where a sequence holds it
/// more often, the last entry counts.
pub open spec fn holds<V>(entries: Seq<(Seq<char>, V)>, name: Seq<char>, value: V) -> bool {
    exists|i: int|
        0 <= i < entries.len() && #[trigger] entries[i] == (name, value) && (forall|j: int|
            i < j < entries.len() ==> (#[trigger] entries[j]).0 != name)
}

/// Whether no entry has a name.
pub open spec fn lacks<V>(entries: Seq<(Seq<char>, V)>, name: Seq<char>) -> bool {
    forall|i: int| 0 <= i < entries.len() ==> (#[trigger] entries[i]).0 != name
}

/// The value that a text is held as.
pub open spec fn text_value(text: Seq<char>) -> SpecValue {
    SpecValue::Bytes(encode_utf8(text))
}

/// Whether there is a text under a name.
pub open spec fn has_text(entries: Seq<(Seq<char>, SpecValue)>, name: Seq<char>) -> bool {
    exists|bytes: Seq<u8>| holds(entries, name, SpecValue::Bytes(bytes))
}

proof fn lemma_last_key(keys: Seq<Seq<char>>, key: Seq<char>, i: int)
    requires
        0 <= i < keys.len(),
        keys[i] == key,
        forall|j: int| i < j < keys.len() ==> #[trigger] keys[j] != key,
    ensures
        key_index(keys, key) == Some(i),
    decreases keys.len(),
{
    if i < keys.len() - 1 {
        assert(keys[keys.len() - 1] != key);
        lemma_last_key(keys.drop_last(), key, i);
    }
}

proof fn lemma_key_is_last(keys: Seq<Seq<char>>, key: Seq<char>)
    ensures
        key_index(keys, key) matches Some(i) ==> (forall|j: int|
            i < j < keys.len() ==> #[trigger] keys[j] != key),
    decreases keys.len(),
{
    if keys.len() > 0 && keys.last() != key {
        let rest = keys.drop_last();
        lemma_key_is_last(rest, key);
        lemma_key_index(keys, key);
        assert forall|j: int|
            key_index(keys, key) is Some && key_index(keys, key)->0 < j
                < keys.len() implies #[trigger] keys[j] != key by {
            if j < rest.len() {
                assert(rest[j] == keys[j]);
            }
        }
    }
}

/// What is held is found.
pub proof fn law_held_is_found<V>(entries: Seq<(Seq<char>, V)>, name: Seq<char>, value: V)
    requires
        holds(entries, name, value),
    ensures
        lookup(entries, name) == Some(value),
{
    let i = choose|i: int|
        0 <= i < entries.len() && #[trigger] entries[i] == (name, value) && (forall|j: int|
            i < j < entries.len() ==> (#[trigger] entries[j]).0 != name);
    let keys = keys_of(entries);
    assert forall|j: int| i < j < keys.len() implies #[trigger] keys[j] != name by {
        assert(entries[j].0 != name);
    }
    lemma_last_key(keys, name, i);
}

/// What is found is held.
pub proof fn law_found_is_held<V>(entries: Seq<(Seq<char>, V)>, name: Seq<char>, value: V)
    requires
        lookup(entries, name) == Some(value),
    ensures
        holds(entries, name, value),
{
    let keys = keys_of(entries);
    lemma_key_index(keys, name);
    lemma_key_is_last(keys, name);
    let i = key_index(keys, name)->0;
    assert(entries[i] == (name, value));
    assert forall|j: int| i < j < entries.len() implies (#[trigger] entries[j]).0 != name by {
        assert(keys[j] != name);
    }
}

/// There is a text under a name where one is read, and only there.
pub proof fn law_text_is_there(entries: Seq<(Seq<char>, SpecValue)>, name: Seq<char>)
    ensures
        has_text(entries, name) <==> text_at(entries, name) is Some,
{
    if has_text(entries, name) {
        let bytes = choose|bytes: Seq<u8>| holds(entries, name, SpecValue::Bytes(bytes));
        law_held_is_found(entries, name, SpecValue::Bytes(bytes));
    }
    if text_at(entries, name) is Some {
        let value = lookup(entries, name)->0;
        law_found_is_held(entries, name, value);
        assert(holds(entries, name, SpecValue::Bytes(value->Bytes_0)));
    }
}

/// What is lacking is not found.
pub proof fn law_lacking_is_not_found<V>(entries: Seq<(Seq<char>, V)>, name: Seq<char>)
    requires
        lacks(entries, name),
    ensures
        lookup(entries, name) is None,
{
    let keys = keys_of(entries);
    lemma_key_index(keys, name);
    if keys.contains(name) {
        let i = choose|i: int| 0 <= i < keys.len() && keys[i] == name;
        assert(entries[i].0 == name);
    }
}

/// A text is read as it was held.
pub proof fn law_text_is_read(entries: Seq<(Seq<char>, SpecValue)>, name: Seq<char>, text: Seq<char>)
    requires
        holds(entries, name, text_value(text)),
    ensures
        text_at(entries, name) == Some(text),
{
    law_held_is_found(entries, name, text_value(text));
    encode_utf8_valid_utf8(text);
    encode_utf8_decode_utf8(text);
}

/// Bytes that are no text are read as the text with replacement characters in them.
pub proof fn law_bytes_are_read(entries: Seq<(Seq<char>, SpecValue)>, name: Seq<char>, bytes: Seq<u8>)
    requires
        holds(entries, name, SpecValue::Bytes(bytes)),
        !valid_utf8(bytes),
    ensures
        text_at(entries, name) == Some(utf8_replaced(bytes)),
{
    law_held_is_found(entries, name, SpecValue::Bytes(bytes));
}

/// What is no text is not read as one.
pub proof fn law_other_values_are_no_text(
    entries: Seq<(Seq<char>, SpecValue)>,
    name: Seq<char>,
    value: SpecValue,
)
    requires
        holds(entries, name, value),
        !(value is Bytes),
    ensures
        text_at(entries, name) is None,
{
    law_held_is_found(entries, name, value);
}

/// Values of the other kinds are read as they were held, and each as its own kind alone.
pub proof fn law_values_are_read(
    entries: Seq<(Seq<char>, SpecValue)>,
    name: Seq<char>,
    value: SpecValue,
)
    requires
        holds(entries, name, value),
    ensures
        integer_at(entries, name) == (match value {
            SpecValue::Integer(number) => Some(number),
            _ => None::<i64>,
        }),
        timestamp_at(entries, name) == (match value {
            SpecValue::Timestamp(time) => Some(time),
            _ => None::<SpecTimestamp>,
        }),
        object_at(entries, name) == (match value {
            SpecValue::Object(inner) => Some(inner),
            _ => None::<Seq<(Seq<char>, SpecValue)>>,
        }),
        array_at(entries, name) == (match value {
            SpecValue::Array(items) => Some(items),
            _ => None::<Seq<SpecValue>>,
        }),
{
    law_held_is_found(entries, name, value);
}

/// Where an entry is lacking, nothing is read.
pub proof fn law_nothing_is_read(entries: Seq<(Seq<char>, SpecValue)>, name: Seq<char>)
    requires
        lacks(entries, name),
    ensures
        text_at(entries, name) is None,
        integer_at(entries, name) is None,
        timestamp_at(entries, name) is None,
        object_at(entries, name) is None,
        array_at(entries, name) is None,
{
    law_lacking_is_not_found(entries, name);
}

/// The attribute for an entry: its name as it stands, with what its value says.
pub open spec fn attribute_for(entry: (Seq<char>, SpecValue)) -> SpecKeyValue {
    SpecKeyValue { key: entry.0, value: Some(any_value_of(entry.1)) }
}

/// The attributes for entries, in their order.
pub open spec fn attributes_for(entries: Seq<(Seq<char>, SpecValue)>) -> Seq<SpecKeyValue> {
    Seq::new(entries.len(), |i: int| attribute_for(entries[i]))
}

/// The entries with none of these names, in their order.
pub open spec fn other_than<V>(entries: Seq<(Seq<char>, V)>, names: Seq<Seq<char>>) -> Seq<
    (Seq<char>, V),
> {
    entries.filter(|entry: (Seq<char>, V)| !names.contains(entry.0))
}

/// A 64-bit number as an unsigned one: the same, or as much below two to the power of 64 as it was
/// below zero.
pub proof fn lemma_as_unsigned(x: i64)
    ensures
        x >= 0 ==> (x as u64) == x,
        x < 0 ==> (x as u64) == x + 0x1_0000_0000_0000_0000,
        (x as u32) == (x as int) % 0x1_0000_0000,
        -0x8000_0000 <= x < 0x8000_0000 ==> (x as i32) == x,
        ((x as i32) - x) % 0x1_0000_0000 == 0,
        (x as u64) == (x as int) % 0x1_0000_0000_0000_0000,
{
    if x < 0 {
        assert((x as u64) == (x + 0x1_0000_0000_0000_0000)) by (bit_vector)
            requires
                x < 0,
        ;
    }
    assert((x as u32) == ((x as u64) % 0x1_0000_0000u64)) by (bit_vector);
    let low = x as u32;
    assert((x as i32) == (low as i32)) by (bit_vector)
        requires
            low == x as u32,
    ;
    if low < 0x8000_0000 {
        assert((low as i32) == low);
    } else {
        assert((low as i32) == low - 0x1_0000_0000) by (bit_vector)
            requires
                low >= 0x8000_0000,
        ;
    }
}

/// Taking names out leaves the entries with other names.
pub proof fn lemma_without_is_other_than<V>(
    entries: Seq<(Seq<char>, V)>,
    set: Set<Seq<char>>,
    names: Seq<Seq<char>>,
)
    requires
        forall|name: Seq<char>| #[trigger] set.contains(name) <==> names.contains(name),
    ensures
        without(entries, set) == other_than(entries, names),
    decreases entries.len(),
{
    reveal(Seq::filter);
    if entries.len() > 0 {
        lemma_without_is_other_than(entries.drop_last(), set, names);
        assert(set.contains(entries.last().0) <==> names.contains(entries.last().0));
    }
}

/// The attributes that an object becomes are those for its entries.
pub proof fn lemma_attributes_for(entries: Seq<(Seq<char>, SpecValue)>)
    ensures
        key_values_of(entries) == attributes_for(entries),
{
    assert(key_values_of(entries) =~= attributes_for(entries));
}

/// The nanoseconds that a point in time is after the epoch.
pub open spec fn nanos_after_epoch(time: SpecTimestamp) -> int {
    time.secs * 1000000000 + time.nanos
}

/// Whether an `i64` can hold the nanoseconds that a point in time is after the epoch.
pub open spec fn in_nanos(time: SpecTimestamp) -> bool {
    i64::MIN <= nanos_after_epoch(time) <= i64::MAX
}

/// A number of 64 bits without a sign: the number itself, where it is not negative.
pub open spec fn unsigned(nanos: int) -> int {
    nanos % 0x1_0000_0000_0000_0000
}

/// Whether the entries are those of the object under a name; none where there is no such object.
pub open spec fn object_under(
    fields: Seq<(Seq<char>, SpecValue)>,
    name: Seq<char>,
    entries: Seq<(Seq<char>, SpecValue)>,
) -> bool {
    ||| holds(fields, name, SpecValue::Object(entries))
    ||| lacks(fields, name) && entries.len() == 0
    ||| entries.len() == 0 && exists|value: SpecValue| #[trigger]
        holds(fields, name, value) && !(value is Object)
}

/// The entries of an object under a name are read.
pub proof fn lemma_object_under(
    fields: Seq<(Seq<char>, SpecValue)>,
    name: Seq<char>,
    entries: Seq<(Seq<char>, SpecValue)>,
)
    requires
        object_under(fields, name, entries),
    ensures
        object_or_empty(fields, name) == entries,
{
    if holds(fields, name, SpecValue::Object(entries)) {
        law_held_is_found(fields, name, SpecValue::Object(entries));
    } else if lacks(fields, name) {
        law_lacking_is_not_found(fields, name);
        assert(entries =~= Seq::empty());
    } else {
        let value = choose|value: SpecValue| #[trigger]
            holds(fields, name, value) && !(value is Object);
        law_held_is_found(fields, name, value);
        assert(entries =~= Seq::empty());
    }
}

/// Whether entries tell nothing in words under a name.
pub open spec fn no_text(entries: Seq<(Seq<char>, SpecValue)>, name: Seq<char>) -> bool {
    ||| lacks(entries, name)
    ||| exists|value: SpecValue| #[trigger] holds(entries, name, value) && !(value is Bytes)
}

/// Nothing is read where nothing is told in words.
pub proof fn lemma_no_text(entries: Seq<(Seq<char>, SpecValue)>, name: Seq<char>)
    requires
        no_text(entries, name),
    ensures
        text_at(entries, name) is None,
{
    if lacks(entries, name) {
        law_nothing_is_read(entries, name);
    } else {
        let value = choose|value: SpecValue| #[trigger]
            holds(entries, name, value) && !(value is Bytes);
        law_other_values_are_no_text(entries, name, value);
    }
}

/// What is held is found.
pub proof fn lemma_read(fields: Seq<(Seq<char>, SpecValue)>, name: Seq<char>, value: SpecValue)
    ensures
        holds(fields, name, value) ==> lookup(fields, name) == Some(value),
{
    if holds(fields, name, value) {
        law_held_is_found(fields, name, value);
    }
}

/// What is lacking is not found.
pub proof fn lemma_read_none(fields: Seq<(Seq<char>, SpecValue)>, name: Seq<char>)
    ensures
        lacks(fields, name) ==> lookup(fields, name) is None,
{
    if lacks(fields, name) {
        law_lacking_is_not_found(fields, name);
    }
}

proof fn lemma_none_to_leave_out<V>(entries: Seq<(Seq<char>, V)>, names: Seq<Seq<char>>)
    requires
        forall|i: int| 0 <= i < entries.len() ==> !names.contains((#[trigger] entries[i]).0),
    ensures
        other_than(entries, names) == entries,
    decreases entries.len(),
{
    reveal(Seq::filter);
    if entries.len() > 0 {
        let rest = entries.drop_last();
        assert forall|i: int| 0 <= i < rest.len() implies !names.contains(
            (#[trigger] rest[i]).0,
        ) by {
            assert(rest[i] == entries[i]);
        }
        lemma_none_to_leave_out(rest, names);
        assert(!names.contains(entries[entries.len() - 1].0));
        assert(rest.push(entries.last()) =~= entries);
    } else {
        assert(other_than(entries, names) =~= entries);
    }
}

/// Taking a name out leaves the entries with other names.
pub proof fn lemma_removed_is_other_than<V>(entries: Seq<(Seq<char>, V)>, name: Seq<char>)
    requires
        ascending(keys_of(entries)),
    ensures
        removed(entries, name) == other_than(entries, seq![name]),
    decreases entries.len(),
{
    reveal(Seq::filter);
    let names = seq![name];
    assert(names[0] == name);
    let keys = keys_of(entries);
    if entries.len() > 0 {
        let rest = entries.drop_last();
        assert(keys_of(rest) =~= keys.drop_last());
        assert forall|i: int, j: int| 0 <= i < j < rest.len() implies text_before(
            #[trigger] keys_of(rest)[i],
            #[trigger] keys_of(rest)[j],
        ) by {
            assert(text_before(keys[i], keys[j]));
        }
        if entries.last().0 == name {
            assert forall|i: int| 0 <= i < rest.len() implies !names.contains(
                (#[trigger] rest[i]).0,
            ) by {
                assert(text_before(keys[i], keys[keys.len() - 1]));
                lemma_text_before_total(keys[i], keys[i]);
            }
            lemma_none_to_leave_out(rest, names);
            assert(names.contains(entries.last().0));
            assert(entries.remove(entries.len() - 1) =~= rest);
        } else {
            lemma_removed_is_other_than(rest, name);
            lemma_key_index(keys_of(rest), name);
            match key_index(keys_of(rest), name) {
                Some(i) => {
                    assert(entries.remove(i) =~= rest.remove(i).push(entries.last()));
                },
                None => {
                    assert(entries =~= rest.push(entries.last()));
                },
            }
        }
    } else {
        lemma_key_index(keys, name);
        assert(removed(entries, name) =~= other_than(entries, names));
    }
}

/// Leaving out some names and then others leaves out all of them.
pub proof fn lemma_other_than_twice<V>(
    entries: Seq<(Seq<char>, V)>,
    some: Seq<Seq<char>>,
    others: Seq<Seq<char>>,
)
    ensures
        other_than(other_than(entries, some), others) == other_than(entries, some + others),
    decreases entries.len(),
{
    reveal(Seq::filter);
    if entries.len() > 0 {
        let name = entries.last().0;
        lemma_other_than_twice(entries.drop_last(), some, others);
        let kept = other_than(entries.drop_last(), some);
        assert(kept.push(entries.last()).drop_last() =~= kept);
        let all = some + others;
        if some.contains(name) {
            let i = choose|i: int| 0 <= i < some.len() && some[i] == name;
            assert(all[i] == name);
        }
        if others.contains(name) {
            let i = choose|i: int| 0 <= i < others.len() && others[i] == name;
            assert(all[some.len() + i] == name);
        }
        if all.contains(name) {
            let i = choose|i: int| 0 <= i < all.len() && all[i] == name;
            if i < some.len() {
                assert(some[i] == name);
            } else {
                assert(others[i - some.len()] == name);
            }
        }
    }
}

}
