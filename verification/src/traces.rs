//! Conversion of trace events to spans.
use vstd::prelude::*;
use vstd::string::*;
use crate::convert::{
    convert_object_map_to_key_value_vec, convert_value_to_any_value, key_values_of,
    lemma_key_values_push,
};
use crate::event::TraceEvent;
use crate::fields::{
    array_at, integer_at, integer_or_zero, object_or_empty, text_at, text_or_empty, timestamp_at,
};
use crate::ids::{hex_bytes, hex_string_to_bytes};
use crate::keys::{ascending, keys_of, lemma_key_index, lemma_lookup_push, lookup, without};
use crate::proto::{
    kind_number, KeyValue, Link, Span, SpanEvent, SpanKind, SpanStatus, SpecKeyValue, SpecLink,
    SpecSpan, SpecSpanEvent, SpecSpanStatus,
};
use crate::text::{lemma_text_before_total, lowercase, same_text, text_before, to_lowercase};
use crate::value::{object_of, unix_nanos, ObjectMap, SpecValue, Value};
use crate::views::{group_views, views};

verus! {

broadcast use group_views;

/// The identifier that the text under a name spells; empty where there is none.
pub open spec fn hex_at(fields: Seq<(Seq<char>, SpecValue)>, name: Seq<char>) -> Seq<u8> {
    match text_at(fields, name) {
        Some(text) => hex_bytes(text),
        None => Seq::empty(),
    }
}

/// The identifier that the text under a name spells.
fn get_hex(map: &ObjectMap, name: &str) -> (bytes: Vec<u8>)
    ensures
        bytes@ == hex_at(map@, name@),
{
    match map.get_text(name) {
        Some(text) => hex_string_to_bytes(text.as_str()),
        None => Vec::new(),
    }
}

/// The kind that a name in small letters stands for; every other name stands for an internal span.
pub open spec fn kind_named(name: Seq<char>) -> SpanKind {
    if name == "server"@ {
        SpanKind::Server
    } else if name == "client"@ {
        SpanKind::Client
    } else if name == "producer"@ {
        SpanKind::Producer
    } else if name == "consumer"@ {
        SpanKind::Consumer
    } else {
        SpanKind::Internal
    }
}

/// The kind that a name in small letters stands for.
pub fn kind_from_name(name: &str) -> (kind: SpanKind)
    ensures
        kind == kind_named(name@),
{
    if same_text(name, "server") {
        SpanKind::Server
    } else if same_text(name, "client") {
        SpanKind::Client
    } else if same_text(name, "producer") {
        SpanKind::Producer
    } else if same_text(name, "consumer") {
        SpanKind::Consumer
    } else {
        SpanKind::Internal
    }
}

/// The kind of a span.
pub open spec fn kind_of(fields: Seq<(Seq<char>, SpecValue)>) -> SpanKind {
    match text_at(fields, "kind"@) {
        Some(name) => kind_named(lowercase(name)),
        None => SpanKind::Internal,
    }
}

/// The status code that a name in small letters stands for: 2 for an error, 1 for success and 0 for
/// everything else.
pub open spec fn status_code_named(name: Seq<char>) -> i32 {
    if name == "error"@ {
        2
    } else if name == "ok"@ {
        1
    } else {
        0
    }
}

/// The status code that a name in small letters stands for.
pub fn status_code_from_name(name: &str) -> (code: i32)
    ensures
        code == status_code_named(name@),
{
    if same_text(name, "error") {
        2
    } else if same_text(name, "ok") {
        1
    } else {
        0
    }
}

/// The time under a name, in nanoseconds since the Unix epoch: a timestamp, where an `i64` can hold
/// it, or an integer.
pub open spec fn time_at(fields: Seq<(Seq<char>, SpecValue)>, name: Seq<char>) -> Option<i64> {
    match lookup(fields, name) {
        Some(SpecValue::Timestamp(time)) => unix_nanos(time),
        Some(SpecValue::Integer(nanos)) => Some(nanos),
        _ => None,
    }
}

/// The time under a name, in nanoseconds since the Unix epoch.
fn get_time(map: &ObjectMap, name: &str) -> (nanos: Option<i64>)
    ensures
        nanos == time_at(map@, name@),
{
    match map.get(name) {
        Some(Value::Timestamp(time)) => time.timestamp_nanos_opt(),
        Some(Value::Integer(nanos)) => Some(*nanos),
        _ => None,
    }
}

/// When a span ended: the time under `end_time_unix_nano`, else the timestamp under `timestamp`,
/// else zero.
pub open spec fn end_time_of(fields: Seq<(Seq<char>, SpecValue)>) -> u64 {
    match time_at(fields, "end_time_unix_nano"@) {
        Some(nanos) => nanos as u64,
        None => match timestamp_at(fields, "timestamp"@) {
            Some(time) => match unix_nanos(time) {
                Some(nanos) => nanos as u64,
                None => 0,
            },
            None => 0,
        },
    }
}

/// The difference of two numbers; zero where it would be negative.
pub open spec fn minus(a: u64, b: u64) -> u64 {
    if a >= b {
        (a - b) as u64
    } else {
        0
    }
}

/// When a span started: the time under `start_time_unix_nano`, else the duration under `duration_ns`
/// before the end, where both are known, else zero.
pub open spec fn start_time_of(fields: Seq<(Seq<char>, SpecValue)>) -> u64 {
    match time_at(fields, "start_time_unix_nano"@) {
        Some(nanos) => nanos as u64,
        None => if end_time_of(fields) > 0 {
            match integer_at(fields, "duration_ns"@) {
                Some(duration) => minus(end_time_of(fields), duration as u64),
                None => 0,
            }
        } else {
            0
        },
    }
}

/// The names under which tags and attributes tell the status of a span.
pub open spec fn status_names() -> Set<Seq<char>> {
    set!["otel.status_code"@, "error"@]
}

/// The status code that tags tell.
pub open spec fn status_code_in(tags: Seq<(Seq<char>, SpecValue)>) -> Option<i32> {
    match text_at(tags, "otel.status_code"@) {
        Some(text) => Some(status_code_named(lowercase(text))),
        None => None,
    }
}

/// The first of two optional values that there is.
pub open spec fn first_of<T>(a: Option<T>, b: Option<T>) -> Option<T> {
    match a {
        Some(x) => Some(x),
        None => b,
    }
}

/// The status of a span, where its attributes or its tags tell of anything but success. What the
/// attributes tell comes before what the tags tell.
pub open spec fn status_of(fields: Seq<(Seq<char>, SpecValue)>) -> Option<SpecSpanStatus> {
    let tags = object_or_empty(fields, "tags"@);
    let attributes = object_or_empty(fields, "attributes"@);
    let code = match first_of(status_code_in(attributes), status_code_in(tags)) {
        Some(code) => code,
        None => 1,
    };
    let message = match first_of(text_at(attributes, "error"@), text_at(tags, "error"@)) {
        Some(message) => message,
        None => Seq::empty(),
    };
    if code != 1 || message.len() > 0 {
        Some(SpecSpanStatus { message, code })
    } else {
        None
    }
}

/// The attributes of a span: its tags, then its attributes, but for those that tell its status.
pub open spec fn span_attributes(fields: Seq<(Seq<char>, SpecValue)>) -> Seq<SpecKeyValue> {
    key_values_of(without(object_or_empty(fields, "tags"@), status_names())) + key_values_of(
        without(object_or_empty(fields, "attributes"@), status_names()),
    )
}

/// When something in the course of a span happened.
pub open spec fn event_time_of(fields: Seq<(Seq<char>, SpecValue)>) -> u64 {
    match timestamp_at(fields, "timestamp"@) {
        Some(time) => match unix_nanos(time) {
            Some(nanos) => nanos as u64,
            None => 0,
        },
        None => integer_or_zero(fields, "time_unix_nano"@) as u64,
    }
}

/// The span event that an object with a name stands for.
pub open spec fn span_event_of(value: SpecValue) -> Option<SpecSpanEvent> {
    match object_of(value) {
        Some(fields) => match text_at(fields, "name"@) {
            Some(name) => Some(
                SpecSpanEvent {
                    time_unix_nano: event_time_of(fields),
                    name,
                    attributes: key_values_of(object_or_empty(fields, "attributes"@)),
                    dropped_attributes_count: integer_or_zero(
                        fields,
                        "dropped_attributes_count"@,
                    ) as u32,
                },
            ),
            None => None,
        },
        None => None,
    }
}

/// The link that an object with the texts of two identifiers stands for.
pub open spec fn span_link_of(value: SpecValue) -> Option<SpecLink> {
    match object_of(value) {
        Some(fields) => match (text_at(fields, "trace_id"@), text_at(fields, "span_id"@)) {
            (Some(trace_id), Some(span_id)) => Some(
                SpecLink {
                    trace_id: hex_bytes(trace_id),
                    span_id: hex_bytes(span_id),
                    trace_state: text_or_empty(fields, "trace_state"@),
                    attributes: key_values_of(object_or_empty(fields, "attributes"@)),
                    dropped_attributes_count: integer_or_zero(
                        fields,
                        "dropped_attributes_count"@,
                    ) as u32,
                },
            ),
            _ => None,
        },
        None => None,
    }
}

/// The span events that the items of an array stand for, in their order.
pub open spec fn span_events_of(items: Seq<SpecValue>) -> Seq<SpecSpanEvent>
    decreases items.len(),
{
    if items.len() == 0 {
        Seq::empty()
    } else {
        match span_event_of(items.last()) {
            Some(event) => span_events_of(items.drop_last()).push(event),
            None => span_events_of(items.drop_last()),
        }
    }
}

/// The links that the items of an array stand for, in their order.
pub open spec fn span_links_of(items: Seq<SpecValue>) -> Seq<SpecLink>
    decreases items.len(),
{
    if items.len() == 0 {
        Seq::empty()
    } else {
        match span_link_of(items.last()) {
            Some(link) => span_links_of(items.drop_last()).push(link),
            None => span_links_of(items.drop_last()),
        }
    }
}

/// The span of a trace event.
pub open spec fn span_of(fields: Seq<(Seq<char>, SpecValue)>) -> SpecSpan {
    SpecSpan {
        trace_id: hex_at(fields, "trace_id"@),
        span_id: hex_at(fields, "span_id"@),
        trace_state: text_or_empty(fields, "trace_state"@),
        parent_span_id: hex_at(fields, "parent_span_id"@),
        name: match text_at(fields, "name"@) {
            Some(name) => name,
            None => "unknown"@,
        },
        kind: kind_number(kind_of(fields)),
        start_time_unix_nano: start_time_of(fields),
        end_time_unix_nano: end_time_of(fields),
        attributes: span_attributes(fields),
        dropped_attributes_count: integer_or_zero(fields, "dropped_attributes_count"@) as u32,
        events: match array_at(fields, "events"@) {
            Some(items) => span_events_of(items),
            None => Seq::empty(),
        },
        dropped_events_count: integer_or_zero(fields, "dropped_events_count"@) as u32,
        links: match array_at(fields, "links"@) {
            Some(items) => span_links_of(items),
            None => Seq::empty(),
        },
        dropped_links_count: integer_or_zero(fields, "dropped_links_count"@) as u32,
        status: status_of(fields),
    }
}

/// Converts the object under `attributes`.
fn convert_attributes(map: &ObjectMap) -> (attributes: Vec<KeyValue>)
    ensures
        views(attributes@) == key_values_of(object_or_empty(map@, "attributes"@)),
{
    assert(key_values_of(Seq::empty()) =~= Seq::empty());
    match map.get_object("attributes") {
        Some(attributes) => convert_object_map_to_key_value_vec(attributes),
        None => Vec::new(),
    }
}

/// Converts an object with a name to a span event.
pub fn convert_value_to_span_event(value: &Value) -> (event: Option<SpanEvent>)
    ensures
        span_event_of(value@) == (match event {
            Some(e) => Some(e@),
            None => None,
        }),
{
    let map = match value.as_object() {
        Some(map) => map,
        None => {
            return None;
        },
    };
    let name = match map.get_text("name") {
        Some(name) => name,
        None => {
            return None;
        },
    };
    let time_unix_nano: u64 = match map.get_timestamp("timestamp") {
        Some(time) => match time.timestamp_nanos_opt() {
            Some(nanos) => nanos as u64,
            None => 0,
        },
        None => map.get_integer_or_zero("time_unix_nano") as u64,
    };
    let attributes = convert_attributes(map);
    let dropped_attributes_count: u32 = map.get_integer_or_zero("dropped_attributes_count") as u32;
    Some(SpanEvent { time_unix_nano, name, attributes, dropped_attributes_count })
}

/// Converts an object with two identifiers to a link.
pub fn convert_value_to_span_link(value: &Value) -> (link: Option<Link>)
    ensures
        span_link_of(value@) == (match link {
            Some(l) => Some(l@),
            None => None,
        }),
{
    let map = match value.as_object() {
        Some(map) => map,
        None => {
            return None;
        },
    };
    let trace_id = match map.get_text("trace_id") {
        Some(text) => hex_string_to_bytes(text.as_str()),
        None => {
            return None;
        },
    };
    let span_id = match map.get_text("span_id") {
        Some(text) => hex_string_to_bytes(text.as_str()),
        None => {
            return None;
        },
    };
    let trace_state = get_text_or_empty(map, "trace_state");
    let attributes = convert_attributes(map);
    let dropped_attributes_count: u32 = map.get_integer_or_zero("dropped_attributes_count") as u32;
    Some(Link { trace_id, span_id, trace_state, attributes, dropped_attributes_count })
}

/// The text under a name; empty where there is none.
fn get_text_or_empty(map: &ObjectMap, name: &str) -> (text: String)
    ensures
        text@ == text_or_empty(map@, name@),
{
    match map.get_text(name) {
        Some(text) => text,
        None => {
            let empty = String::new();
            assert(empty@ =~= Seq::empty());
            empty
        },
    }
}

/// Converts the items of an array to span events.
fn convert_span_events(items: &Vec<Value>) -> (events: Vec<SpanEvent>)
    ensures
        views(events@) == span_events_of(views(items@)),
{
    let ghost values = views(items@);
    let mut events: Vec<SpanEvent> = Vec::new();
    let mut i: usize = 0;
    while i < items.len()
        invariant
            i <= items@.len(),
            values == views(items@),
            views(events@) == span_events_of(values.take(i as int)),
        decreases items@.len() - i,
    {
        assert(values.take(i + 1).drop_last() =~= values.take(i as int));
        assert(values.take(i + 1).last() == items@[i as int]@);
        if let Some(event) = convert_value_to_span_event(&items[i]) {
            events.push(event);
        }
        i = i + 1;
    }
    assert(values.take(i as int) =~= values);
    events
}

/// Converts the items of an array to links.
fn convert_span_links(items: &Vec<Value>) -> (links: Vec<Link>)
    ensures
        views(links@) == span_links_of(views(items@)),
{
    let ghost values = views(items@);
    let mut links: Vec<Link> = Vec::new();
    let mut i: usize = 0;
    while i < items.len()
        invariant
            i <= items@.len(),
            values == views(items@),
            views(links@) == span_links_of(values.take(i as int)),
        decreases items@.len() - i,
    {
        assert(values.take(i + 1).drop_last() =~= values.take(i as int));
        assert(values.take(i + 1).last() == items@[i as int]@);
        if let Some(link) = convert_value_to_span_link(&items[i]) {
            links.push(link);
        }
        i = i + 1;
    }
    assert(values.take(i as int) =~= values);
    links
}

/// Reads tags: converts those that do not tell the status, and finds the status code and the message
/// that the others tell.
fn read_tags(map: &ObjectMap) -> (result: (Vec<KeyValue>, Option<i32>, Option<String>))
    ensures
        views(result.0@) == key_values_of(without(map@, status_names())),
        result.1 == status_code_in(map@),
        text_at(map@, "error"@) == (match result.2 {
            Some(message) => Some(message@),
            None => None,
        }),
{
    let ghost tags = map@;
    let mut attributes: Vec<KeyValue> = Vec::new();
    let mut code: Option<i32> = None;
    let mut message: Option<String> = None;
    let mut i: usize = 0;
    proof {
        reveal_strlit("otel.status_code");
        reveal_strlit("error");
        assert("otel.status_code"@.len() == 16);
        assert("error"@.len() == 5);
        assert(key_values_of(Seq::empty()) =~= Seq::empty());
        lemma_key_index(keys_of(tags.take(0)), "otel.status_code"@);
        lemma_key_index(keys_of(tags.take(0)), "error"@);
    }
    let len = map.len();
    while i < len
        invariant
            i <= len,
            len == tags.len(),
            tags == map@,
            ascending(keys_of(tags)),
            "otel.status_code"@.len() == 16,
            "error"@.len() == 5,
            views(attributes@) == key_values_of(without(tags.take(i as int), status_names())),
            code == status_code_in(tags.take(i as int)),
            text_at(tags.take(i as int), "error"@) == (match message {
                Some(text) => Some(text@),
                None => None,
            }),
        decreases len - i,
    {
        let name = map.name(i);
        let value = map.value(i);
        let ghost seen = tags.take(i as int);
        proof {
            let entry = tags[i as int];
            assert(tags.take(i + 1) =~= seen.push(entry));
            assert(tags.take(i + 1).drop_last() =~= seen);
            lemma_lookup_push(seen, entry, "otel.status_code"@);
            lemma_lookup_push(seen, entry, "error"@);
            lemma_key_values_push(without(seen, status_names()), entry);
            // The name of this entry is new
            assert(lookup(seen, entry.0) is None) by {
                lemma_key_index(keys_of(seen), entry.0);
                if keys_of(seen).contains(entry.0) {
                    let j = choose|j: int|
                        0 <= j < keys_of(seen).len() && keys_of(seen)[j] == entry.0;
                    assert(text_before(keys_of(tags)[j], keys_of(tags)[i as int]));
                    lemma_text_before_total(entry.0, entry.0);
                }
            }
        }
        if same_text(name.as_str(), "otel.status_code") {
            if let Some(text) = value.as_str() {
                code = Some(status_code_from_name(to_lowercase(text.as_str()).as_str()));
            }
        } else if same_text(name.as_str(), "error") {
            if let Some(text) = value.as_str() {
                message = Some(text);
            }
        } else {
            attributes.push(
                KeyValue { key: name.clone(), value: Some(convert_value_to_any_value(value)) },
            );
        }
        i = i + 1;
    }
    assert(tags.take(i as int) =~= tags);
    (attributes, code, message)
}

/// Converts a trace event to a span.
pub fn convert_vector_trace_to_otlp_span(trace: &TraceEvent) -> (span: Span)
    ensures
        span@ == span_of(trace@),
{
    let map = trace.as_map();

    let trace_id = get_hex(map, "trace_id");
    let span_id = get_hex(map, "span_id");
    let parent_span_id = get_hex(map, "parent_span_id");
    let name = match map.get_text("name") {
        Some(name) => name,
        None => "unknown".to_owned(),
    };
    let kind = match map.get_text("kind") {
        Some(name) => kind_from_name(to_lowercase(name.as_str()).as_str()),
        None => SpanKind::Internal,
    };
    let trace_state = get_text_or_empty(map, "trace_state");

    let end_time_unix_nano: u64 = match get_time(map, "end_time_unix_nano") {
        Some(nanos) => nanos as u64,
        None => match map.get_timestamp("timestamp") {
            Some(time) => match time.timestamp_nanos_opt() {
                Some(nanos) => nanos as u64,
                None => 0,
            },
            None => 0,
        },
    };
    let start_time_unix_nano: u64 = match get_time(map, "start_time_unix_nano") {
        Some(nanos) => nanos as u64,
        None => if end_time_unix_nano > 0 {
            match map.get_integer("duration_ns") {
                Some(duration) => end_time_unix_nano.saturating_sub(duration as u64),
                None => 0,
            }
        } else {
            0
        },
    };

    // Tags first, then attributes: what the latter tell of the status counts
    let mut attributes: Vec<KeyValue> = Vec::new();
    let mut status_code: i32 = 1;
    let mut status_message = String::new();
    assert(key_values_of(Seq::empty()) =~= Seq::empty());
    assert(status_message@ =~= Seq::empty());
    assert(text_at(Seq::empty(), "error"@) is None);
    assert(status_code_in(Seq::empty()) is None);
    if let Some(tags) = map.get_object("tags") {
        let (mut converted, code, message) = read_tags(tags);
        attributes.append(&mut converted);
        if let Some(code) = code {
            status_code = code;
        }
        if let Some(message) = message {
            status_message = message;
        }
    }
    if let Some(more) = map.get_object("attributes") {
        let (mut converted, code, message) = read_tags(more);
        attributes.append(&mut converted);
        if let Some(code) = code {
            status_code = code;
        }
        if let Some(message) = message {
            status_message = message;
        }
    }
    assert(views(attributes@) =~= span_attributes(trace@));

    let dropped_attributes_count: u32 = map.get_integer_or_zero("dropped_attributes_count") as u32;
    let events = match map.get_array("events") {
        Some(items) => convert_span_events(items),
        None => Vec::new(),
    };
    let dropped_events_count: u32 = map.get_integer_or_zero("dropped_events_count") as u32;
    let links = match map.get_array("links") {
        Some(items) => convert_span_links(items),
        None => Vec::new(),
    };
    let dropped_links_count: u32 = map.get_integer_or_zero("dropped_links_count") as u32;

    let status = if status_code != 1 || status_message.as_str().unicode_len() > 0 {
        Some(SpanStatus { message: status_message, code: status_code })
    } else {
        None
    };

    Span {
        trace_id,
        span_id,
        trace_state,
        parent_span_id,
        name,
        kind: kind.number(),
        start_time_unix_nano,
        end_time_unix_nano,
        attributes,
        dropped_attributes_count,
        events,
        dropped_events_count,
        links,
        dropped_links_count,
        status,
    }
}

}
