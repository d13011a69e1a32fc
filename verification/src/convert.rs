//! Conversion of event values to protocol values.
use vstd::prelude::*;
use vstd::string::*;
use vstd::utf8::*;
use crate::proto::{
    AnyValue, ArrayValue, KeyValue, KeyValueList, PbValue, SpecAnyValue, SpecKeyValue,
};
use crate::text::text_from_utf8;
use crate::value::{timestamp_text, Double, ObjectMap, SpecTimestamp, SpecValue, Value};
use crate::views::{group_views, views};

verus! {

broadcast use group_views;

/// The protocol value that says what an event value says.
///
/// Bytes become text where they are valid UTF-8, and stay bytes where they are not. A point in time
/// becomes the text of its date and time of day, and a regular expression the text of its pattern.
pub open spec fn any_value_of(value: SpecValue) -> SpecAnyValue
    decreases value,
{
    match value {
        SpecValue::Null => SpecAnyValue::Empty,
        SpecValue::Boolean(truth) => SpecAnyValue::Truth(truth),
        SpecValue::Integer(number) => SpecAnyValue::Number(number),
        SpecValue::Float(number) => SpecAnyValue::Real(number),
        SpecValue::Bytes(bytes) => if valid_utf8(bytes) {
            SpecAnyValue::Text(decode_utf8(bytes))
        } else {
            SpecAnyValue::Binary(bytes)
        },
        SpecValue::Timestamp(time) => SpecAnyValue::Text(timestamp_text(time.secs, time.nanos)),
        SpecValue::Object(entries) => SpecAnyValue::Pairs(key_values_of(entries)),
        SpecValue::Array(items) => SpecAnyValue::List(any_values_of(items)),
        SpecValue::Regex(pattern) => SpecAnyValue::Text(pattern),
    }
}

/// The protocol values that say what the values of a sequence say.
pub open spec fn any_values_of(items: Seq<SpecValue>) -> Seq<SpecAnyValue>
    decreases items,
{
    Seq::new(
        items.len(),
        |i: int|
            if 0 <= i < items.len() {
                any_value_of(items[i])
            } else {
                arbitrary()
            },
    )
}

/// The pairs that say what the entries of an object say: each name as it stands, with its value.
pub open spec fn key_values_of(entries: Seq<(Seq<char>, SpecValue)>) -> Seq<SpecKeyValue>
    decreases entries,
{
    Seq::new(
        entries.len(),
        |i: int|
            if 0 <= i < entries.len() {
                SpecKeyValue { key: entries[i].0, value: Some(any_value_of(entries[i].1)) }
            } else {
                arbitrary()
            },
    )
}

/// The pair for one entry of an object.
pub open spec fn key_value_of(name: Seq<char>, value: SpecValue) -> SpecKeyValue {
    SpecKeyValue { key: name, value: Some(any_value_of(value)) }
}

/// One more entry makes one more pair.
pub proof fn lemma_key_values_push(
    entries: Seq<(Seq<char>, SpecValue)>,
    entry: (Seq<char>, SpecValue),
)
    ensures
        key_values_of(entries.push(entry)) == key_values_of(entries).push(
            key_value_of(entry.0, entry.1),
        ),
{
    assert(key_values_of(entries.push(entry)) =~= key_values_of(entries).push(
        key_value_of(entry.0, entry.1),
    ));
}

/// Converts an event value to a protocol value.
pub fn convert_value_to_any_value(value: &Value) -> (result: AnyValue)
    ensures
        result@ == any_value_of(value@),
    decreases value, 0nat,
{
    let converted = match value {
        Value::Null => {
            return AnyValue { value: None };
        },
        Value::Boolean(truth) => PbValue::BoolValue(*truth),
        Value::Integer(number) => PbValue::IntValue(*number),
        Value::Float(number) => PbValue::DoubleValue(*number),
        Value::Bytes(bytes) => {
            // Text where the bytes are valid UTF-8, else binary
            match text_from_utf8(bytes.clone()) {
                Some(text) => PbValue::StringValue(text),
                None => PbValue::BytesValue(bytes.clone()),
            }
        },
        Value::Timestamp(time) => PbValue::StringValue(time.to_text()),
        Value::Object(map) => PbValue::KvlistValue(convert_object_map_to_key_value_list(map)),
        Value::Array(items) => {
            let list = ArrayValue { values: convert_values(items) };
            proof {
                assert(list@ =~= views(list.values@));
                assert(value@ == SpecValue::Array(views(items@))) by {
                    assert(value@->Array_0 =~= views(items@));
                }
            }
            PbValue::ArrayValue(list)
        },
        Value::Regex(pattern) => PbValue::StringValue(pattern.clone()),
    };
    AnyValue { value: Some(converted) }
}

/// Converts the items of an array.
fn convert_values(items: &Vec<Value>) -> (result: Vec<AnyValue>)
    ensures
        views(result@) == any_values_of(views(items@)),
    decreases items, 0nat,
{
    let mut result: Vec<AnyValue> = Vec::new();
    let mut i: usize = 0;
    while i < items.len()
        invariant
            i <= items@.len(),
            views(result@) == any_values_of(views(items@)).take(i as int),
        decreases items@.len() - i,
    {
        result.push(convert_value_to_any_value(&items[i]));
        i = i + 1;
        assert(views(result@) =~= any_values_of(views(items@)).take(i as int));
    }
    assert(any_values_of(views(items@)).take(i as int) =~= any_values_of(views(items@)));
    result
}

/// Converts an object to a list of keys with their values.
pub fn convert_object_map_to_key_value_list(map: &ObjectMap) -> (result: KeyValueList)
    ensures
        result@ == key_values_of(map@),
    decreases map, 1nat,
{
    let values = convert_object_map_to_key_value_vec(map);
    let list = KeyValueList { values };
    assert(list@ =~= views(list.values@));
    list
}

/// Converts the entries of an object to keys with their values.
pub fn convert_object_map_to_key_value_vec(map: &ObjectMap) -> (result: Vec<KeyValue>)
    ensures
        views(result@) == key_values_of(map@),
    decreases map, 0nat,
{
    let mut result: Vec<KeyValue> = Vec::new();
    let mut i: usize = 0;
    while i < map.len()
        invariant
            i <= map@.len(),
            views(result@) == key_values_of(map@).take(i as int),
        decreases map@.len() - i,
    {
        let value = convert_value_to_any_value(map.value(i));
        result.push(KeyValue { key: map.name(i).clone(), value: Some(value) });
        i = i + 1;
        assert(views(result@) =~= key_values_of(map@).take(i as int));
    }
    assert(key_values_of(map@).take(i as int) =~= key_values_of(map@));
    result
}

/// An object becomes a list of pairs: one for each of its entries, in their order, under the name of
/// the entry and with what the value of the entry becomes.
pub proof fn law_object_becomes_all_its_pairs(entries: Seq<(Seq<char>, SpecValue)>)
    ensures
        any_value_of(SpecValue::Object(entries)) matches SpecAnyValue::Pairs(pairs)
            && pairs.len() == entries.len() && forall|i: int|
            0 <= i < entries.len() ==> (#[trigger] pairs[i]).key == entries[i].0 && pairs[i].value
                == Some(any_value_of(entries[i].1)),
{
}

/// Whether a protocol value says what a value holds, at every depth: objects are lists of pairs under
/// the names of their entries, arrays are lists, and nothing is left out, added or moved.
pub open spec fn says(said: SpecAnyValue, value: SpecValue) -> bool
    decreases value,
{
    match value {
        SpecValue::Object(entries) => said matches SpecAnyValue::Pairs(pairs) && pairs.len()
            == entries.len() && forall|i: int|
            0 <= i < entries.len() ==> (#[trigger] pairs[i]).key == entries[i].0 && pairs[i].value
                is Some && says(pairs[i].value->0, entries[i].1),
        SpecValue::Array(items) => said matches SpecAnyValue::List(list) && list.len()
            == items.len() && forall|i: int|
            0 <= i < items.len() ==> says(#[trigger] list[i], items[i]),
        SpecValue::Null => said is Empty,
        SpecValue::Boolean(truth) => said == SpecAnyValue::Truth(truth),
        SpecValue::Integer(number) => said == SpecAnyValue::Number(number),
        SpecValue::Float(number) => said == SpecAnyValue::Real(number),
        SpecValue::Bytes(bytes) => said == SpecAnyValue::Binary(bytes) || said
            == SpecAnyValue::Text(decode_utf8(bytes)),
        SpecValue::Timestamp(_) => said is Text,
        SpecValue::Regex(pattern) => said == SpecAnyValue::Text(pattern),
    }
}

/// What a value becomes says what it holds, at every depth.
pub proof fn law_nothing_is_lost_at_any_depth(value: SpecValue)
    ensures
        says(any_value_of(value), value),
    decreases value,
{
    match value {
        SpecValue::Object(entries) => {
            assert forall|i: int| 0 <= i < entries.len() implies says(
                any_value_of((#[trigger] entries[i]).1),
                entries[i].1,
            ) by {
                law_nothing_is_lost_at_any_depth(entries[i].1);
            }
            let pairs = any_value_of(value)->Pairs_0;
            assert forall|i: int| 0 <= i < entries.len() implies (#[trigger] pairs[i]).key
                == entries[i].0 && pairs[i].value is Some && says(
                pairs[i].value->0,
                entries[i].1,
            ) by {
                assert(says(any_value_of(entries[i].1), entries[i].1));
            }
        },
        SpecValue::Array(items) => {
            let list = any_value_of(value)->List_0;
            assert forall|i: int| 0 <= i < items.len() implies says(
                #[trigger] list[i],
                items[i],
            ) by {
                law_nothing_is_lost_at_any_depth(items[i]);
            }
        },
        _ => {},
    }
}

/// An array becomes a list: one value for each of its items, in their order.
pub proof fn law_array_becomes_all_its_items(items: Seq<SpecValue>)
    ensures
        any_value_of(SpecValue::Array(items)) matches SpecAnyValue::List(list) && list.len()
            == items.len() && forall|i: int|
            0 <= i < items.len() ==> #[trigger] list[i] == any_value_of(items[i]),
{
}

/// A text becomes that text; bytes that are no text stay the bytes that they are.
pub proof fn law_text_becomes_text(text: Seq<char>, bytes: Seq<u8>)
    ensures
        any_value_of(SpecValue::Bytes(encode_utf8(text))) == SpecAnyValue::Text(text),
        !valid_utf8(bytes) ==> any_value_of(SpecValue::Bytes(bytes)) == SpecAnyValue::Binary(bytes),
{
    encode_utf8_valid_utf8(text);
    encode_utf8_decode_utf8(text);
}

/// Numbers, truth values and nothing become the same in the protocol, and a pattern its text.
pub proof fn law_plain_values_stay(
    truth: bool,
    number: i64,
    double: Double,
    pattern: Seq<char>,
)
    ensures
        any_value_of(SpecValue::Boolean(truth)) == SpecAnyValue::Truth(truth),
        any_value_of(SpecValue::Integer(number)) == SpecAnyValue::Number(number),
        any_value_of(SpecValue::Float(double)) == SpecAnyValue::Real(double),
        any_value_of(SpecValue::Regex(pattern)) == SpecAnyValue::Text(pattern),
        any_value_of(SpecValue::Null) == SpecAnyValue::Empty,
{
}

/// A point in time becomes its text.
pub proof fn law_time_becomes_its_text(secs: int, nanos: int)
    ensures
        any_value_of(SpecValue::Timestamp((SpecTimestamp { secs, nanos }))) == SpecAnyValue::Text(
            timestamp_text(secs, nanos),
        ),
{
}

/// The attributes of an object are one for each of its entries, in their order.
pub proof fn law_attributes_are_all_the_entries(entries: Seq<(Seq<char>, SpecValue)>, i: int)
    requires
        0 <= i < entries.len(),
    ensures
        key_values_of(entries).len() == entries.len(),
        key_values_of(entries)[i].key == entries[i].0,
        key_values_of(entries)[i].value == Some(any_value_of(entries[i].1)),
{
}

/// What a value holds is what it stands for: nothing of it is lost before it is converted.
pub proof fn law_values_stand_for_what_they_hold(value: Value)
    ensures
        value matches Value::Bytes(bytes) ==> value@ == SpecValue::Bytes(bytes@),
        value matches Value::Regex(pattern) ==> value@ == SpecValue::Regex(pattern@),
        value matches Value::Integer(number) ==> value@ == SpecValue::Integer(number),
        value matches Value::Float(number) ==> value@ == SpecValue::Float(number),
        value matches Value::Boolean(truth) ==> value@ == SpecValue::Boolean(truth),
        value matches Value::Timestamp(time) ==> value@ == SpecValue::Timestamp(time@),
        value matches Value::Object(map) ==> value@ == SpecValue::Object(map@),
        value matches Value::Array(items) ==> value@ == SpecValue::Array(views(items@)),
        value matches Value::Null ==> value@ == SpecValue::Null,
{
    if let Value::Array(items) = value {
        assert(value@->Array_0 =~= views(items@));
    }
}

/// What a protocol value holds is what it says.
pub proof fn law_protocol_values_say_what_they_hold(value: AnyValue)
    ensures
        value.value is None ==> value@ == SpecAnyValue::Empty,
        value.value matches Some(PbValue::StringValue(text)) ==> value@ == SpecAnyValue::Text(text@),
        value.value matches Some(PbValue::BoolValue(truth)) ==> value@ == SpecAnyValue::Truth(truth),
        value.value matches Some(PbValue::IntValue(n)) ==> value@ == SpecAnyValue::Number(n),
        value.value matches Some(PbValue::DoubleValue(n)) ==> value@ == SpecAnyValue::Real(n),
        value.value matches Some(PbValue::BytesValue(b)) ==> value@ == SpecAnyValue::Binary(b@),
        value.value matches Some(PbValue::ArrayValue(list)) ==> value@ == SpecAnyValue::List(
            views(list.values@),
        ),
        value.value matches Some(PbValue::KvlistValue(list)) ==> value@ == SpecAnyValue::Pairs(
            views(list.values@),
        ),
{
    if let Some(PbValue::ArrayValue(list)) = value.value {
        assert(list.model() =~= views(list.values@));
    }
    if let Some(PbValue::KvlistValue(list)) = value.value {
        assert(list.model() =~= views(list.values@));
    }
}

}
