//! Conversion of log events to log records.
use vstd::prelude::*;
use vstd::string::*;
use crate::convert::{
    any_value_of, convert_object_map_to_key_value_vec, convert_value_to_any_value, key_values_of,
};
use crate::encoder::OtlpEncoder;
use crate::event::{fields_of, LogEvent, SpecLogEvent};
use crate::fields::{integer_or_zero, object_or_empty, text_or_empty};
use crate::ids::{identifier, read_identifier};
use crate::keys::{
    lemma_lookup_without, lemma_removed_without, lemma_without_absent, lemma_without_union, lookup,
    without,
};
use crate::proto::{KeyValue, LogRecord, SpecLogRecord};
use crate::text::text_from_utf8_lossy;
use crate::value::{unix_nanos, SpecValue, Value};
use crate::views::{group_views, views};

verus! {

broadcast use group_views;

/// The fields of a log event that have a place of their own in a log record, or none at all: they do
/// not become attributes under their own names.
pub open spec fn reserved_names() -> Set<Seq<char>> {
    set![
        "observed_timestamp"@,
        "trace_id"@,
        "span_id"@,
        "severity_text"@,
        "severity_number"@,
        "flags"@,
        "dropped_attributes_count"@,
        "attributes"@,
        "message"@,
        "timestamp"@,
        "source_type"@,
    ]
}

/// The time that a value tells, in nanoseconds since the Unix epoch; zero where it tells none, or
/// one that an `i64` cannot hold.
pub open spec fn nanos_of(value: Option<SpecValue>) -> u64 {
    match value {
        Some(SpecValue::Timestamp(time)) => match unix_nanos(time) {
            Some(nanos) => nanos as u64,
            None => 0,
        },
        _ => 0,
    }
}

/// The identifier of `len` bytes under a name; empty where there is none.
pub open spec fn field_identifier(
    fields: Seq<(Seq<char>, SpecValue)>,
    name: Seq<char>,
    len: nat,
) -> Seq<u8> {
    match lookup(fields, name) {
        Some(SpecValue::Bytes(bytes)) => identifier(bytes, len),
        _ => Seq::empty(),
    }
}

/// The log record of a log event.
///
/// The attributes are the entries of the object `attributes`, then all other fields but the reserved
/// ones.
pub open spec fn log_record_of(log: SpecLogEvent) -> SpecLogRecord {
    let fields = fields_of(log.root);
    SpecLogRecord {
        time_unix_nano: nanos_of(log.timestamp()),
        observed_time_unix_nano: nanos_of(lookup(fields, "observed_timestamp"@)),
        severity_number: integer_or_zero(fields, "severity_number"@) as i32,
        severity_text: text_or_empty(fields, "severity_text"@),
        body: match log.message() {
            Some(message) => Some(any_value_of(message)),
            None => None,
        },
        attributes: key_values_of(object_or_empty(fields, "attributes"@)) + key_values_of(
            without(fields, reserved_names()),
        ),
        dropped_attributes_count: integer_or_zero(fields, "dropped_attributes_count"@) as u32,
        flags: integer_or_zero(fields, "flags"@) as u32,
        trace_id: field_identifier(fields, "trace_id"@, 16),
        span_id: field_identifier(fields, "span_id"@, 8),
    }
}

/// The time that a value tells, in nanoseconds since the Unix epoch.
pub fn timestamp_nanos(value: Option<&Value>) -> (nanos: u64)
    ensures
        nanos == nanos_of(
            match value {
                Some(v) => Some(v@),
                None => None,
            },
        ),
{
    match value {
        Some(Value::Timestamp(time)) => match time.timestamp_nanos_opt() {
            Some(nanos) => nanos as u64,
            None => 0,
        },
        _ => 0,
    }
}

/// Takes a field out of an event of which some fields are gone already.
fn take_field(
    log: &mut LogEvent,
    name: &str,
    Ghost(fields): Ghost<Seq<(Seq<char>, SpecValue)>>,
    Ghost(gone): Ghost<Set<Seq<char>>>,
) -> (value: Option<Value>)
    requires
        fields_of(old(log)@.root) == without(fields, gone),
    ensures
        fields_of(final(log)@.root) == without(fields, gone.insert(name@)),
        !gone.contains(name@) ==> lookup(fields, name@) == (match value {
            Some(v) => Some(v@),
            None => None,
        }),
{
    let ghost before = fields_of(log@.root);
    let value = log.remove(name);
    proof {
        lemma_lookup_without(fields, gone, name@);
        lemma_removed_without(before, name@);
        lemma_without_union(fields, gone, set![name@]);
        assert(gone.union(set![name@]) =~= gone.insert(name@));
    }
    value
}

/// The fields that are read have names of different lengths.
proof fn lemma_names_differ()
    ensures
        "observed_timestamp"@.len() == 18,
        "trace_id"@.len() == 8,
        "span_id"@.len() == 7,
        "severity_text"@.len() == 13,
        "severity_number"@.len() == 15,
        "flags"@.len() == 5,
        "dropped_attributes_count"@.len() == 24,
        "attributes"@.len() == 10,
{
    reveal_strlit("observed_timestamp");
    reveal_strlit("trace_id");
    reveal_strlit("span_id");
    reveal_strlit("severity_text");
    reveal_strlit("severity_number");
    reveal_strlit("flags");
    reveal_strlit("dropped_attributes_count");
    reveal_strlit("attributes");
}

impl OtlpEncoder {
    /// Converts a log event into a log record.
    pub fn convert_log_event_to_log_record(&self, log: LogEvent) -> (record: LogRecord)
        ensures
            record@ == log_record_of(log@),
    {
        let mut log = log;
        let ghost event = log@;
        let ghost fields = fields_of(log@.root);
        let ghost mut gone: Set<Seq<char>> = Set::empty();
        proof {
            lemma_without_absent(fields, gone);
            lemma_names_differ();
        }

        let body = match log.get_message() {
            Some(message) => Some(convert_value_to_any_value(message)),
            None => None,
        };
        let time_unix_nano: u64 = timestamp_nanos(log.get_timestamp());

        let observed = take_field(&mut log, "observed_timestamp", Ghost(fields), Ghost(gone));
        proof {
            gone = gone.insert("observed_timestamp"@);
        }
        let observed_time_unix_nano: u64 = timestamp_nanos(observed.as_ref());

        let trace_id = match take_field(&mut log, "trace_id", Ghost(fields), Ghost(gone)) {
            Some(Value::Bytes(bytes)) => read_identifier(bytes, 16),
            _ => Vec::new(),
        };
        proof {
            gone = gone.insert("trace_id"@);
        }

        let span_id = match take_field(&mut log, "span_id", Ghost(fields), Ghost(gone)) {
            Some(Value::Bytes(bytes)) => read_identifier(bytes, 8),
            _ => Vec::new(),
        };
        proof {
            gone = gone.insert("span_id"@);
        }

        let severity_text = match take_field(
            &mut log,
            "severity_text",
            Ghost(fields),
            Ghost(gone),
        ) {
            Some(Value::Bytes(text)) => text_from_utf8_lossy(&text),
            _ => String::new(),
        };
        proof {
            gone = gone.insert("severity_text"@);
        }

        let severity_number: i32 = match take_field(
            &mut log,
            "severity_number",
            Ghost(fields),
            Ghost(gone),
        ) {
            Some(Value::Integer(number)) => number as i32,
            _ => 0,
        };
        proof {
            gone = gone.insert("severity_number"@);
        }

        let flags: u32 = match take_field(&mut log, "flags", Ghost(fields), Ghost(gone)) {
            Some(Value::Integer(flags)) => flags as u32,
            _ => 0,
        };
        proof {
            gone = gone.insert("flags"@);
        }

        let dropped_attributes_count: u32 = match take_field(
            &mut log,
            "dropped_attributes_count",
            Ghost(fields),
            Ghost(gone),
        ) {
            Some(Value::Integer(count)) => count as u32,
            _ => 0,
        };
        proof {
            gone = gone.insert("dropped_attributes_count"@);
        }

        let mut attributes: Vec<KeyValue> = match take_field(
            &mut log,
            "attributes",
            Ghost(fields),
            Ghost(gone),
        ) {
            Some(Value::Object(map)) => convert_object_map_to_key_value_vec(&map),
            _ => Vec::new(),
        };
        proof {
            gone = gone.insert("attributes"@);
            assert(key_values_of(Seq::empty()) =~= Seq::empty());
            assert(views(attributes@) == key_values_of(object_or_empty(fields, "attributes"@)));
        }

        // Fields of every event that are not attributes
        let _ = take_field(&mut log, "message", Ghost(fields), Ghost(gone));
        proof {
            gone = gone.insert("message"@);
        }
        let _ = take_field(&mut log, "timestamp", Ghost(fields), Ghost(gone));
        proof {
            gone = gone.insert("timestamp"@);
        }
        let _ = take_field(&mut log, "source_type", Ghost(fields), Ghost(gone));
        proof {
            gone = gone.insert("source_type"@);
            assert(gone =~= reserved_names());
        }

        // What remains
        if let Some(map) = log.as_map() {
            let mut rest = convert_object_map_to_key_value_vec(map);
            attributes.append(&mut rest);
        }
        proof {
            assert(views(attributes@) =~= log_record_of(event).attributes);
        }
        LogRecord {
            time_unix_nano,
            observed_time_unix_nano,
            severity_number,
            severity_text,
            body,
            attributes,
            dropped_attributes_count,
            flags,
            trace_id,
            span_id,
        }
    }
}

}
