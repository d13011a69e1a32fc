//! What holds of the spans that trace events become.
//!
//! The laws speak of the fields of an event one by one: which field each part of the span comes
//! from, and what it is where the field is lacking or of another kind.
use vstd::prelude::*;
use vstd::string::*;
use vstd::utf8::*;
use crate::entries::{
    attributes_for, has_text, holds, in_nanos, lacks, law_held_is_found, law_lacking_is_not_found,
    law_text_is_read, law_text_is_there, lemma_as_unsigned, lemma_attributes_for, lemma_no_text,
    lemma_object_under, lemma_read, lemma_read_none, lemma_without_is_other_than,
    nanos_after_epoch, no_text, object_under, other_than, text_value, unsigned,
};
use crate::ids::hex_decoded;
use crate::proto::kind_number;
use crate::text::lowercase;
use crate::traces::{
    kind_named, span_event_of, span_events_of, span_link_of, span_links_of, span_of,
    status_code_named, status_names,
};
use crate::value::{SpecTimestamp, SpecValue};

verus! {

/// Whether a text spells bytes in hexadecimal digits.
pub open spec fn spells(text: Seq<char>, bytes: Seq<u8>) -> bool {
    hex_decoded(encode_utf8(text)) == Some(bytes)
}

/// Each identifier of a span is the bytes that the text under its own name spells.
pub proof fn law_span_identifiers(
    fields: Seq<(Seq<char>, SpecValue)>,
    text: Seq<char>,
    bytes: Seq<u8>,
)
    requires
        spells(text, bytes),
    ensures
        holds(fields, "trace_id"@, text_value(text)) ==> span_of(fields).trace_id == bytes,
        holds(fields, "span_id"@, text_value(text)) ==> span_of(fields).span_id == bytes,
        holds(fields, "parent_span_id"@, text_value(text)) ==> span_of(fields).parent_span_id
            == bytes,
{
    if holds(fields, "trace_id"@, text_value(text)) {
        law_text_is_read(fields, "trace_id"@, text);
    }
    if holds(fields, "span_id"@, text_value(text)) {
        law_text_is_read(fields, "span_id"@, text);
    }
    if holds(fields, "parent_span_id"@, text_value(text)) {
        law_text_is_read(fields, "parent_span_id"@, text);
    }
}

/// A text that spells no bytes is no identifier.
pub proof fn law_other_text_is_no_span_identifier(
    fields: Seq<(Seq<char>, SpecValue)>,
    text: Seq<char>,
)
    requires
        hex_decoded(encode_utf8(text)) is None,
    ensures
        holds(fields, "trace_id"@, text_value(text)) ==> span_of(fields).trace_id.len() == 0,
        holds(fields, "span_id"@, text_value(text)) ==> span_of(fields).span_id.len() == 0,
        holds(fields, "parent_span_id"@, text_value(text)) ==> span_of(
            fields,
        ).parent_span_id.len() == 0,
{
    if holds(fields, "trace_id"@, text_value(text)) {
        law_text_is_read(fields, "trace_id"@, text);
    }
    if holds(fields, "span_id"@, text_value(text)) {
        law_text_is_read(fields, "span_id"@, text);
    }
    if holds(fields, "parent_span_id"@, text_value(text)) {
        law_text_is_read(fields, "parent_span_id"@, text);
    }
}

/// A text under `name` is the name of a span, and one under `trace_state` its trace state.
pub proof fn law_span_texts(fields: Seq<(Seq<char>, SpecValue)>, text: Seq<char>)
    ensures
        holds(fields, "name"@, text_value(text)) ==> span_of(fields).name == text,
        holds(fields, "trace_state"@, text_value(text)) ==> span_of(fields).trace_state == text,
{
    if holds(fields, "name"@, text_value(text)) {
        law_text_is_read(fields, "name"@, text);
    }
    if holds(fields, "trace_state"@, text_value(text)) {
        law_text_is_read(fields, "trace_state"@, text);
    }
}

/// Parts of a span whose fields are lacking have their defaults.
pub proof fn law_lacking_span_fields(fields: Seq<(Seq<char>, SpecValue)>)
    ensures
        lacks(fields, "trace_id"@) ==> span_of(fields).trace_id.len() == 0,
        lacks(fields, "span_id"@) ==> span_of(fields).span_id.len() == 0,
        lacks(fields, "parent_span_id"@) ==> span_of(fields).parent_span_id.len() == 0,
        lacks(fields, "trace_state"@) ==> span_of(fields).trace_state.len() == 0,
        lacks(fields, "name"@) ==> span_of(fields).name == "unknown"@,
        lacks(fields, "kind"@) ==> span_of(fields).kind == 1,
        lacks(fields, "events"@) ==> span_of(fields).events.len() == 0,
        lacks(fields, "links"@) ==> span_of(fields).links.len() == 0,
        lacks(fields, "dropped_attributes_count"@) ==> span_of(fields).dropped_attributes_count
            == 0,
        lacks(fields, "dropped_events_count"@) ==> span_of(fields).dropped_events_count == 0,
        lacks(fields, "dropped_links_count"@) ==> span_of(fields).dropped_links_count == 0,
{
    lemma_read_none(fields, "trace_id"@);
    lemma_read_none(fields, "span_id"@);
    lemma_read_none(fields, "parent_span_id"@);
    lemma_read_none(fields, "trace_state"@);
    lemma_read_none(fields, "name"@);
    lemma_read_none(fields, "kind"@);
    lemma_read_none(fields, "events"@);
    lemma_read_none(fields, "links"@);
    lemma_read_none(fields, "dropped_attributes_count"@);
    lemma_read_none(fields, "dropped_events_count"@);
    lemma_read_none(fields, "dropped_links_count"@);
}

/// Parts of a span that are text are not taken from values of other kinds.
pub proof fn law_span_texts_come_from_text(
    fields: Seq<(Seq<char>, SpecValue)>,
    value: SpecValue,
)
    requires
        !(value is Bytes),
    ensures
        holds(fields, "trace_id"@, value) ==> span_of(fields).trace_id.len() == 0,
        holds(fields, "span_id"@, value) ==> span_of(fields).span_id.len() == 0,
        holds(fields, "parent_span_id"@, value) ==> span_of(fields).parent_span_id.len() == 0,
        holds(fields, "trace_state"@, value) ==> span_of(fields).trace_state.len() == 0,
        holds(fields, "name"@, value) ==> span_of(fields).name == "unknown"@,
        holds(fields, "kind"@, value) ==> span_of(fields).kind == 1,
{
    if holds(fields, "trace_id"@, value) {
        law_held_is_found(fields, "trace_id"@, value);
    }
    if holds(fields, "span_id"@, value) {
        law_held_is_found(fields, "span_id"@, value);
    }
    if holds(fields, "parent_span_id"@, value) {
        law_held_is_found(fields, "parent_span_id"@, value);
    }
    if holds(fields, "trace_state"@, value) {
        law_held_is_found(fields, "trace_state"@, value);
    }
    if holds(fields, "name"@, value) {
        law_held_is_found(fields, "name"@, value);
    }
    if holds(fields, "kind"@, value) {
        law_held_is_found(fields, "kind"@, value);
    }
}

proof fn lemma_kind_names()
    ensures
        "server"@ != "client"@,
        "server"@ != "producer"@,
        "server"@ != "consumer"@,
        "client"@ != "producer"@,
        "client"@ != "consumer"@,
        "producer"@ != "consumer"@,
        "internal"@ != "server"@,
        "internal"@ != "client"@,
        "internal"@ != "producer"@,
        "internal"@ != "consumer"@,
{
    reveal_strlit("server");
    reveal_strlit("client");
    reveal_strlit("producer");
    reveal_strlit("consumer");
    reveal_strlit("internal");
    assert("server"@[0] == 's');
    assert("client"@[0] == 'c');
    assert("client"@.len() == 6);
    assert("producer"@[0] == 'p');
    assert("consumer"@[0] == 'c');
    assert("consumer"@.len() == 8);
    assert("internal"@[0] == 'i');
}

/// The kind of a span is the number of the protocol for its name, in letters of any case; every
/// other name is that of an internal span.
pub proof fn law_span_kind(fields: Seq<(Seq<char>, SpecValue)>, name: Seq<char>)
    requires
        holds(fields, "kind"@, text_value(name)),
    ensures
        lowercase(name) == "internal"@ ==> span_of(fields).kind == 1,
        lowercase(name) == "server"@ ==> span_of(fields).kind == 2,
        lowercase(name) == "client"@ ==> span_of(fields).kind == 3,
        lowercase(name) == "producer"@ ==> span_of(fields).kind == 4,
        lowercase(name) == "consumer"@ ==> span_of(fields).kind == 5,
        lowercase(name) != "server"@ && lowercase(name) != "client"@ && lowercase(name)
            != "producer"@ && lowercase(name) != "consumer"@ ==> span_of(fields).kind == 1,
{
    law_text_is_read(fields, "kind"@, name);
    lemma_kind_names();
}

/// A point in time under `end_time_unix_nano` or `start_time_unix_nano` is when a span ended or
/// started, in nanoseconds after the epoch.
pub proof fn law_span_times_from_timestamps(
    fields: Seq<(Seq<char>, SpecValue)>,
    time: SpecTimestamp,
)
    requires
        in_nanos(time),
    ensures
        holds(fields, "end_time_unix_nano"@, SpecValue::Timestamp(time)) ==> span_of(
            fields,
        ).end_time_unix_nano == unsigned(nanos_after_epoch(time)),
        holds(fields, "start_time_unix_nano"@, SpecValue::Timestamp(time)) ==> span_of(
            fields,
        ).start_time_unix_nano == unsigned(nanos_after_epoch(time)),
{
    lemma_as_unsigned(nanos_after_epoch(time) as i64);
    if holds(fields, "end_time_unix_nano"@, SpecValue::Timestamp(time)) {
        law_held_is_found(fields, "end_time_unix_nano"@, SpecValue::Timestamp(time));
    }
    if holds(fields, "start_time_unix_nano"@, SpecValue::Timestamp(time)) {
        law_held_is_found(fields, "start_time_unix_nano"@, SpecValue::Timestamp(time));
    }
}

/// An integer there is that number of nanoseconds, a negative one as the unsigned number of 64 bits
/// with the same bits.
pub proof fn law_span_times_from_integers(fields: Seq<(Seq<char>, SpecValue)>, nanos: i64)
    ensures
        holds(fields, "end_time_unix_nano"@, SpecValue::Integer(nanos)) ==> span_of(
            fields,
        ).end_time_unix_nano == unsigned(nanos as int),
        holds(fields, "start_time_unix_nano"@, SpecValue::Integer(nanos)) ==> span_of(
            fields,
        ).start_time_unix_nano == unsigned(nanos as int),
{
    lemma_as_unsigned(nanos);
    if holds(fields, "end_time_unix_nano"@, SpecValue::Integer(nanos)) {
        law_held_is_found(fields, "end_time_unix_nano"@, SpecValue::Integer(nanos));
    }
    if holds(fields, "start_time_unix_nano"@, SpecValue::Integer(nanos)) {
        law_held_is_found(fields, "start_time_unix_nano"@, SpecValue::Integer(nanos));
    }
}

/// Whether a field tells no time: it is lacking, or neither an integer nor a point in time that an
/// `i64` can hold in nanoseconds.
pub open spec fn tells_no_time(fields: Seq<(Seq<char>, SpecValue)>, name: Seq<char>) -> bool {
    ||| lacks(fields, name)
    ||| exists|value: SpecValue| #[trigger]
        holds(fields, name, value) && !(value is Integer) && (value matches SpecValue::Timestamp(
            time,
        ) ==> !in_nanos(time))
}

proof fn lemma_no_time(fields: Seq<(Seq<char>, SpecValue)>, name: Seq<char>)
    requires
        tells_no_time(fields, name),
    ensures
        crate::traces::time_at(fields, name) is None,
{
    if lacks(fields, name) {
        law_lacking_is_not_found(fields, name);
    } else {
        let value = choose|value: SpecValue| #[trigger]
            holds(fields, name, value) && !(value is Integer) && (
            value matches SpecValue::Timestamp(time) ==> !in_nanos(time));
        law_held_is_found(fields, name, value);
    }
}

/// Where nothing tells the end of a span itself, it is the point in time under `timestamp`, and zero
/// where there is none.
pub proof fn law_span_end_from_its_time(
    fields: Seq<(Seq<char>, SpecValue)>,
    time: SpecTimestamp,
)
    requires
        tells_no_time(fields, "end_time_unix_nano"@),
    ensures
        holds(fields, "timestamp"@, SpecValue::Timestamp(time)) && in_nanos(time) ==> span_of(
            fields,
        ).end_time_unix_nano == unsigned(nanos_after_epoch(time)),
        holds(fields, "timestamp"@, SpecValue::Timestamp(time)) && !in_nanos(time) ==> span_of(
            fields,
        ).end_time_unix_nano == 0,
        lacks(fields, "timestamp"@) ==> span_of(fields).end_time_unix_nano == 0,
{
    lemma_as_unsigned(nanos_after_epoch(time) as i64);
    lemma_no_time(fields, "end_time_unix_nano"@);
    if holds(fields, "timestamp"@, SpecValue::Timestamp(time)) {
        law_held_is_found(fields, "timestamp"@, SpecValue::Timestamp(time));
    }
    if lacks(fields, "timestamp"@) {
        law_lacking_is_not_found(fields, "timestamp"@);
    }
}

/// Where nothing tells the start of a span itself, it is the duration before the end, but not before
/// zero; without a duration or an end it is zero.
pub proof fn law_span_start_from_its_duration(
    fields: Seq<(Seq<char>, SpecValue)>,
    duration: i64,
)
    requires
        tells_no_time(fields, "start_time_unix_nano"@),
    ensures
        holds(fields, "duration_ns"@, SpecValue::Integer(duration)) && 0 <= duration <= span_of(
            fields,
        ).end_time_unix_nano ==> span_of(fields).start_time_unix_nano == span_of(
            fields,
        ).end_time_unix_nano - duration,
        holds(fields, "duration_ns"@, SpecValue::Integer(duration)) && duration > span_of(
            fields,
        ).end_time_unix_nano ==> span_of(fields).start_time_unix_nano == 0,
        lacks(fields, "duration_ns"@) ==> span_of(fields).start_time_unix_nano == 0,
        span_of(fields).end_time_unix_nano == 0 ==> span_of(fields).start_time_unix_nano == 0,
{
    lemma_as_unsigned(duration);
    lemma_no_time(fields, "start_time_unix_nano"@);
    if holds(fields, "duration_ns"@, SpecValue::Integer(duration)) {
        law_held_is_found(fields, "duration_ns"@, SpecValue::Integer(duration));
    }
    if lacks(fields, "duration_ns"@) {
        law_lacking_is_not_found(fields, "duration_ns"@);
    }
}

/// The counts of what was dropped are the integers under their names, without what goes beyond 32
/// bits.
pub proof fn law_span_dropped_counts(fields: Seq<(Seq<char>, SpecValue)>, count: i64)
    ensures
        holds(fields, "dropped_attributes_count"@, SpecValue::Integer(count)) ==> span_of(
            fields,
        ).dropped_attributes_count == (count as int) % 0x1_0000_0000,
        holds(fields, "dropped_events_count"@, SpecValue::Integer(count)) ==> span_of(
            fields,
        ).dropped_events_count == (count as int) % 0x1_0000_0000,
        holds(fields, "dropped_links_count"@, SpecValue::Integer(count)) ==> span_of(
            fields,
        ).dropped_links_count == (count as int) % 0x1_0000_0000,
{
    lemma_as_unsigned(count);
    if holds(fields, "dropped_attributes_count"@, SpecValue::Integer(count)) {
        law_held_is_found(fields, "dropped_attributes_count"@, SpecValue::Integer(count));
    }
    if holds(fields, "dropped_events_count"@, SpecValue::Integer(count)) {
        law_held_is_found(fields, "dropped_events_count"@, SpecValue::Integer(count));
    }
    if holds(fields, "dropped_links_count"@, SpecValue::Integer(count)) {
        law_held_is_found(fields, "dropped_links_count"@, SpecValue::Integer(count));
    }
}

/// Numbers, points in time and lists are not taken from values of other kinds.
pub proof fn law_span_parts_come_from_their_kinds(
    fields: Seq<(Seq<char>, SpecValue)>,
    value: SpecValue,
)
    ensures
        !(value is Integer) && holds(fields, "dropped_attributes_count"@, value) ==> span_of(
            fields,
        ).dropped_attributes_count == 0,
        !(value is Integer) && holds(fields, "dropped_events_count"@, value) ==> span_of(
            fields,
        ).dropped_events_count == 0,
        !(value is Integer) && holds(fields, "dropped_links_count"@, value) ==> span_of(
            fields,
        ).dropped_links_count == 0,
        !(value is Integer) && holds(fields, "duration_ns"@, value) && tells_no_time(
            fields,
            "start_time_unix_nano"@,
        ) ==> span_of(fields).start_time_unix_nano == 0,
        !(value is Timestamp) && holds(fields, "timestamp"@, value) && tells_no_time(
            fields,
            "end_time_unix_nano"@,
        ) ==> span_of(fields).end_time_unix_nano == 0,
        !(value is Array) && holds(fields, "events"@, value) ==> span_of(fields).events.len() == 0,
        !(value is Array) && holds(fields, "links"@, value) ==> span_of(fields).links.len() == 0,
{
    lemma_read(fields, "dropped_attributes_count"@, value);
    lemma_read(fields, "dropped_events_count"@, value);
    lemma_read(fields, "dropped_links_count"@, value);
    lemma_read(fields, "duration_ns"@, value);
    lemma_read(fields, "timestamp"@, value);
    lemma_read(fields, "events"@, value);
    lemma_read(fields, "links"@, value);
    if tells_no_time(fields, "start_time_unix_nano"@) {
        lemma_no_time(fields, "start_time_unix_nano"@);
    }
    if tells_no_time(fields, "end_time_unix_nano"@) {
        lemma_no_time(fields, "end_time_unix_nano"@);
    }
}

/// The attributes of a span are all its tags, then all its attributes, in their order, but for those
/// that tell its status.
pub proof fn law_span_attributes(
    fields: Seq<(Seq<char>, SpecValue)>,
    tags: Seq<(Seq<char>, SpecValue)>,
    attributes: Seq<(Seq<char>, SpecValue)>,
)
    requires
        object_under(fields, "tags"@, tags),
        object_under(fields, "attributes"@, attributes),
    ensures
        span_of(fields).attributes == attributes_for(
            other_than(tags, seq!["otel.status_code"@, "error"@]),
        ) + attributes_for(other_than(attributes, seq!["otel.status_code"@, "error"@])),
{
    let names = seq!["otel.status_code"@, "error"@];
    lemma_object_under(fields, "tags"@, tags);
    lemma_object_under(fields, "attributes"@, attributes);
    assert forall|name: Seq<char>| #[trigger]
        status_names().contains(name) <==> names.contains(name) by {
        assert(names[0] == "otel.status_code"@);
        assert(names[1] == "error"@);
    }
    lemma_without_is_other_than(tags, status_names(), names);
    lemma_without_is_other_than(attributes, status_names(), names);
    lemma_attributes_for(other_than(tags, names));
    lemma_attributes_for(other_than(attributes, names));
}

/// The status code that a name stands for: 2 for an error, 1 for success, 0 for all else.
pub open spec fn code_for(name: Seq<char>, code: i32) -> bool {
    &&& lowercase(name) == "error"@ ==> code == 2
    &&& lowercase(name) == "ok"@ ==> code == 1
    &&& lowercase(name) != "error"@ && lowercase(name) != "ok"@ ==> code == 0
}

/// Whether entries tell this status code.
pub open spec fn tells_code(entries: Seq<(Seq<char>, SpecValue)>, code: i32) -> bool {
    exists|name: Seq<char>| #[trigger]
        holds(entries, "otel.status_code"@, text_value(name)) && code_for(name, code)
}

proof fn lemma_code(entries: Seq<(Seq<char>, SpecValue)>, code: i32)
    requires
        tells_code(entries, code),
    ensures
        crate::traces::status_code_in(entries) == Some(code),
{
    let name = choose|name: Seq<char>| #[trigger]
        holds(entries, "otel.status_code"@, text_value(name)) && code_for(name, code);
    law_text_is_read(entries, "otel.status_code"@, name);
    reveal_strlit("error");
    reveal_strlit("ok");
    assert("error"@.len() == 5);
    assert("ok"@.len() == 2);
}

/// Whether the status code of a span is this: the attributes tell it, or, where they do not, the
/// tags; it is 1 where neither do.
pub open spec fn code_is(
    tags: Seq<(Seq<char>, SpecValue)>,
    attributes: Seq<(Seq<char>, SpecValue)>,
    code: i32,
) -> bool {
    ||| tells_code(attributes, code)
    ||| no_text(attributes, "otel.status_code"@) && tells_code(tags, code)
    ||| no_text(attributes, "otel.status_code"@) && no_text(tags, "otel.status_code"@) && code == 1
}

/// Whether the status message of a span is this: the attributes tell it under `error`, or, where
/// they do not, the tags; it is empty where neither do.
pub open spec fn message_is(
    tags: Seq<(Seq<char>, SpecValue)>,
    attributes: Seq<(Seq<char>, SpecValue)>,
    message: Seq<char>,
) -> bool {
    ||| holds(attributes, "error"@, text_value(message))
    ||| no_text(attributes, "error"@) && holds(tags, "error"@, text_value(message))
    ||| no_text(attributes, "error"@) && no_text(tags, "error"@) && message.len() == 0
}

/// A span has a status unless its code is that of success and its message is empty; the status has
/// that code and that message.
pub proof fn law_span_status(
    fields: Seq<(Seq<char>, SpecValue)>,
    tags: Seq<(Seq<char>, SpecValue)>,
    attributes: Seq<(Seq<char>, SpecValue)>,
    code: i32,
    message: Seq<char>,
)
    requires
        object_under(fields, "tags"@, tags),
        object_under(fields, "attributes"@, attributes),
        code_is(tags, attributes, code),
        message_is(tags, attributes, message),
    ensures
        span_of(fields).status is Some <==> code != 1 || message.len() > 0,
        span_of(fields).status matches Some(status) ==> status.code == code && status.message
            == message,
{
    lemma_object_under(fields, "tags"@, tags);
    lemma_object_under(fields, "attributes"@, attributes);
    if tells_code(attributes, code) {
        lemma_code(attributes, code);
    } else {
        lemma_no_text(attributes, "otel.status_code"@);
        if tells_code(tags, code) {
            lemma_code(tags, code);
        } else {
            lemma_no_text(tags, "otel.status_code"@);
        }
    }
    if holds(attributes, "error"@, text_value(message)) {
        law_text_is_read(attributes, "error"@, message);
    } else {
        lemma_no_text(attributes, "error"@);
        if holds(tags, "error"@, text_value(message)) {
            law_text_is_read(tags, "error"@, message);
        } else {
            lemma_no_text(tags, "error"@);
            assert(message =~= Seq::empty());
        }
    }
}

/// Whether a value is an object with a text under `name`.
pub open spec fn is_named(item: SpecValue) -> bool {
    item matches SpecValue::Object(entries) && has_text(entries, "name"@)
}

/// The items that are objects with a name, in their order.
pub open spec fn named_items(items: Seq<SpecValue>) -> Seq<SpecValue> {
    items.filter(|item: SpecValue| is_named(item))
}

/// Whether a value is an object with texts under `trace_id` and `span_id`.
pub open spec fn is_identified(item: SpecValue) -> bool {
    item matches SpecValue::Object(entries) && has_text(entries, "trace_id"@) && has_text(
        entries,
        "span_id"@,
    )
}

/// The items that are objects with two identifiers, in their order.
pub open spec fn identified_items(items: Seq<SpecValue>) -> Seq<SpecValue> {
    items.filter(|item: SpecValue| is_identified(item))
}

proof fn lemma_event_items(items: Seq<SpecValue>, k: int)
    ensures
        span_events_of(items).len() == named_items(items).len(),
        0 <= k < named_items(items).len() ==> span_event_of(named_items(items)[k]) == Some(
            span_events_of(items)[k],
        ),
    decreases items.len(),
{
    reveal(Seq::filter);
    if items.len() > 0 {
        lemma_event_items(items.drop_last(), k);
        if let SpecValue::Object(entries) = items.last() {
            law_text_is_there(entries, "name"@);
        }
    }
}

proof fn lemma_link_items(items: Seq<SpecValue>, k: int)
    ensures
        span_links_of(items).len() == identified_items(items).len(),
        0 <= k < identified_items(items).len() ==> span_link_of(identified_items(items)[k])
            == Some(span_links_of(items)[k]),
    decreases items.len(),
{
    reveal(Seq::filter);
    if items.len() > 0 {
        lemma_link_items(items.drop_last(), k);
        if let SpecValue::Object(entries) = items.last() {
            law_text_is_there(entries, "trace_id"@);
            law_text_is_there(entries, "span_id"@);
        }
    }
}

/// A span has one event for each item of the array under `events` that is an object with a name, in
/// their order, and for no other item.
pub proof fn law_span_has_an_event_for_each_item(
    fields: Seq<(Seq<char>, SpecValue)>,
    items: Seq<SpecValue>,
)
    requires
        holds(fields, "events"@, SpecValue::Array(items)),
    ensures
        span_of(fields).events.len() == named_items(items).len(),
{
    law_held_is_found(fields, "events"@, SpecValue::Array(items));
    lemma_event_items(items, 0);
}

/// Each event of a span has the name and the attributes that its item tells.
pub proof fn law_span_events(
    fields: Seq<(Seq<char>, SpecValue)>,
    items: Seq<SpecValue>,
    k: int,
    entries: Seq<(Seq<char>, SpecValue)>,
    name: Seq<char>,
    attributes: Seq<(Seq<char>, SpecValue)>,
)
    requires
        holds(fields, "events"@, SpecValue::Array(items)),
        0 <= k < named_items(items).len(),
        named_items(items)[k] == SpecValue::Object(entries),
        object_under(entries, "attributes"@, attributes),
    ensures
        holds(entries, "name"@, text_value(name)) ==> span_of(fields).events[k].name == name,
        span_of(fields).events[k].attributes == attributes_for(attributes),
{
    law_held_is_found(fields, "events"@, SpecValue::Array(items));
    lemma_event_items(items, k);
    if holds(entries, "name"@, text_value(name)) {
        law_text_is_read(entries, "name"@, name);
    }
    lemma_object_under(entries, "attributes"@, attributes);
    lemma_attributes_for(attributes);
}

/// The time of an event of a span is the point in time under `timestamp`, else the integer under
/// `time_unix_nano`, else zero.
pub proof fn law_span_event_times(
    fields: Seq<(Seq<char>, SpecValue)>,
    items: Seq<SpecValue>,
    k: int,
    entries: Seq<(Seq<char>, SpecValue)>,
    time: SpecTimestamp,
    value: SpecValue,
    nanos: i64,
)
    requires
        holds(fields, "events"@, SpecValue::Array(items)),
        0 <= k < named_items(items).len(),
        named_items(items)[k] == SpecValue::Object(entries),
    ensures
        holds(entries, "timestamp"@, SpecValue::Timestamp(time)) && in_nanos(time) ==> span_of(
            fields,
        ).events[k].time_unix_nano == unsigned(nanos_after_epoch(time)),
        holds(entries, "timestamp"@, SpecValue::Timestamp(time)) && !in_nanos(time) ==> span_of(
            fields,
        ).events[k].time_unix_nano == 0,
        (lacks(entries, "timestamp"@) || holds(entries, "timestamp"@, value) && !(
        value is Timestamp)) && holds(entries, "time_unix_nano"@, SpecValue::Integer(nanos))
            ==> span_of(fields).events[k].time_unix_nano == unsigned(nanos as int),
        lacks(entries, "timestamp"@) && lacks(entries, "time_unix_nano"@) ==> span_of(
            fields,
        ).events[k].time_unix_nano == 0,
        lacks(entries, "timestamp"@) && holds(entries, "time_unix_nano"@, value) && !(
        value is Integer) ==> span_of(fields).events[k].time_unix_nano == 0,
{
    law_held_is_found(fields, "events"@, SpecValue::Array(items));
    lemma_event_items(items, k);
    lemma_as_unsigned(nanos);
    lemma_as_unsigned(nanos_after_epoch(time) as i64);
    lemma_read(entries, "timestamp"@, SpecValue::Timestamp(time));
    lemma_read(entries, "timestamp"@, value);
    lemma_read_none(entries, "timestamp"@);
    lemma_read_none(entries, "time_unix_nano"@);
    lemma_read(entries, "time_unix_nano"@, value);
    lemma_read(entries, "time_unix_nano"@, SpecValue::Integer(nanos));
}

/// The count of dropped attributes of an event of a span is the integer under that name, without
/// what goes beyond 32 bits; zero where there is none.
pub proof fn law_span_event_dropped_counts(
    fields: Seq<(Seq<char>, SpecValue)>,
    items: Seq<SpecValue>,
    k: int,
    entries: Seq<(Seq<char>, SpecValue)>,
    count: i64,
    value: SpecValue,
)
    requires
        holds(fields, "events"@, SpecValue::Array(items)),
        0 <= k < named_items(items).len(),
        named_items(items)[k] == SpecValue::Object(entries),
    ensures
        holds(entries, "dropped_attributes_count"@, SpecValue::Integer(count)) ==> span_of(
            fields,
        ).events[k].dropped_attributes_count == (count as int) % 0x1_0000_0000,
        lacks(entries, "dropped_attributes_count"@) || holds(
            entries,
            "dropped_attributes_count"@,
            value,
        ) && !(value is Integer) ==> span_of(fields).events[k].dropped_attributes_count == 0,
{
    law_held_is_found(fields, "events"@, SpecValue::Array(items));
    lemma_event_items(items, k);
    lemma_as_unsigned(count);
    lemma_as_unsigned(0);
    lemma_read(entries, "dropped_attributes_count"@, SpecValue::Integer(count));
    lemma_read(entries, "dropped_attributes_count"@, value);
    lemma_read_none(entries, "dropped_attributes_count"@);
}

/// A span has one link for each item of the array under `links` that is an object with two
/// identifiers, in their order, and for no other item.
pub proof fn law_span_has_a_link_for_each_item(
    fields: Seq<(Seq<char>, SpecValue)>,
    items: Seq<SpecValue>,
)
    requires
        holds(fields, "links"@, SpecValue::Array(items)),
    ensures
        span_of(fields).links.len() == identified_items(items).len(),
{
    law_held_is_found(fields, "links"@, SpecValue::Array(items));
    lemma_link_items(items, 0);
}

/// Each link of a span points to the trace and to the span whose identifiers the texts of its item
/// spell. A text that spells no bytes gives an empty identifier.
pub proof fn law_span_links_point(
    fields: Seq<(Seq<char>, SpecValue)>,
    items: Seq<SpecValue>,
    k: int,
    entries: Seq<(Seq<char>, SpecValue)>,
    text: Seq<char>,
    bytes: Seq<u8>,
)
    requires
        holds(fields, "links"@, SpecValue::Array(items)),
        0 <= k < identified_items(items).len(),
        identified_items(items)[k] == SpecValue::Object(entries),
    ensures
        holds(entries, "trace_id"@, text_value(text)) && spells(text, bytes) ==> span_of(
            fields,
        ).links[k].trace_id == bytes,
        holds(entries, "span_id"@, text_value(text)) && spells(text, bytes) ==> span_of(
            fields,
        ).links[k].span_id == bytes,
        holds(entries, "trace_id"@, text_value(text)) && hex_decoded(encode_utf8(text)) is None
            ==> span_of(fields).links[k].trace_id.len() == 0,
        holds(entries, "span_id"@, text_value(text)) && hex_decoded(encode_utf8(text)) is None
            ==> span_of(fields).links[k].span_id.len() == 0,
{
    law_held_is_found(fields, "links"@, SpecValue::Array(items));
    lemma_link_items(items, k);
    if holds(entries, "trace_id"@, text_value(text)) {
        law_text_is_read(entries, "trace_id"@, text);
    }
    if holds(entries, "span_id"@, text_value(text)) {
        law_text_is_read(entries, "span_id"@, text);
    }
}

/// Each link of a span has the trace state, the attributes and the count that its item tells.
pub proof fn law_span_links(
    fields: Seq<(Seq<char>, SpecValue)>,
    items: Seq<SpecValue>,
    k: int,
    entries: Seq<(Seq<char>, SpecValue)>,
    state: Seq<char>,
    attributes: Seq<(Seq<char>, SpecValue)>,
    count: i64,
    value: SpecValue,
)
    requires
        holds(fields, "links"@, SpecValue::Array(items)),
        0 <= k < identified_items(items).len(),
        identified_items(items)[k] == SpecValue::Object(entries),
        object_under(entries, "attributes"@, attributes),
    ensures
        holds(entries, "trace_state"@, text_value(state)) ==> span_of(fields).links[k].trace_state
            == state,
        no_text(entries, "trace_state"@) ==> span_of(fields).links[k].trace_state.len() == 0,
        span_of(fields).links[k].attributes == attributes_for(attributes),
        holds(entries, "dropped_attributes_count"@, SpecValue::Integer(count)) ==> span_of(
            fields,
        ).links[k].dropped_attributes_count == (count as int) % 0x1_0000_0000,
        lacks(entries, "dropped_attributes_count"@) || holds(
            entries,
            "dropped_attributes_count"@,
            value,
        ) && !(value is Integer) ==> span_of(fields).links[k].dropped_attributes_count == 0,
{
    law_held_is_found(fields, "links"@, SpecValue::Array(items));
    lemma_link_items(items, k);
    if holds(entries, "trace_state"@, text_value(state)) {
        law_text_is_read(entries, "trace_state"@, state);
    }
    if no_text(entries, "trace_state"@) {
        lemma_no_text(entries, "trace_state"@);
    }
    lemma_object_under(entries, "attributes"@, attributes);
    lemma_attributes_for(attributes);
    lemma_as_unsigned(count);
    lemma_as_unsigned(0);
    lemma_read(entries, "dropped_attributes_count"@, SpecValue::Integer(count));
    lemma_read(entries, "dropped_attributes_count"@, value);
    lemma_read_none(entries, "dropped_attributes_count"@);
}

/// An item of `links` that has texts under `trace_id` and `span_id` becomes a link of the span, one
/// that points to what the two texts spell, whatever the other items are.
pub proof fn law_item_becomes_a_link(
    fields: Seq<(Seq<char>, SpecValue)>,
    items: Seq<SpecValue>,
    k: int,
    entries: Seq<(Seq<char>, SpecValue)>,
    trace_text: Seq<char>,
    trace_id: Seq<u8>,
    span_text: Seq<char>,
    span_id: Seq<u8>,
)
    requires
        holds(fields, "links"@, SpecValue::Array(items)),
        0 <= k < items.len(),
        items[k] == SpecValue::Object(entries),
        holds(entries, "trace_id"@, text_value(trace_text)),
        holds(entries, "span_id"@, text_value(span_text)),
        spells(trace_text, trace_id),
        spells(span_text, span_id),
    ensures
        exists|i: int|
            0 <= i < span_of(fields).links.len() && (#[trigger] span_of(fields).links[i]).trace_id
                == trace_id && span_of(fields).links[i].span_id == span_id,
{
    assert(is_identified(items[k]));
    items.lemma_filter_contains(|item: SpecValue| is_identified(item), k);
    let kept = identified_items(items);
    let i = choose|i: int| 0 <= i < kept.len() && kept[i] == items[k];
    law_span_has_a_link_for_each_item(fields, items);
    law_span_links_point(fields, items, i, entries, trace_text, trace_id);
    law_span_links_point(fields, items, i, entries, span_text, span_id);
    assert(span_of(fields).links[i].span_id == span_id);
}

/// Only these names in small letters are kinds of spans, and only `error` and `ok` are statuses.
pub proof fn law_names_of_kinds_and_statuses(name: Seq<char>)
    ensures
        kind_number(kind_named(name)) == 2 <==> name == "server"@,
        kind_number(kind_named(name)) == 3 <==> name == "client"@,
        kind_number(kind_named(name)) == 4 <==> name == "producer"@,
        kind_number(kind_named(name)) == 5 <==> name == "consumer"@,
        1 <= kind_number(kind_named(name)) <= 5,
        status_code_named(name) == 2 <==> name == "error"@,
        status_code_named(name) == 1 <==> name == "ok"@,
        0 <= status_code_named(name) <= 2,
{
    lemma_kind_names();
    reveal_strlit("error");
    reveal_strlit("ok");
    assert("error"@.len() == 5);
    assert("ok"@.len() == 2);
}

}
