//! What holds of the records that log events become.
//!
//! The laws speak of the record that is sent for an event, whatever its batch and its resource are,
//! and of the fields of the event one by one.
use vstd::prelude::*;
use vstd::string::*;
use vstd::utf8::*;
use crate::convert::{any_value_of, key_values_of};
use crate::encoder::{log_resource_attributes, told_log, without_resource};
use crate::entries::{
    attributes_for, holds, in_nanos, lacks, law_found_is_held, law_held_is_found,
    law_lacking_is_not_found, law_text_is_read, lemma_as_unsigned, lemma_attributes_for,
    lemma_no_text, lemma_object_under, lemma_other_than_twice, lemma_read, lemma_read_none,
    lemma_removed_is_other_than, lemma_without_is_other_than, nanos_after_epoch, no_text,
    object_under, other_than, text_value, unsigned,
};
use crate::event::{fields_of, value_at, SpecLogEvent};
use crate::ids::hex_decoded;
use crate::keys::{ascending, keys_of, law_removed_value_is_gone, lookup, removed, without};
use crate::logs::{log_record_of, reserved_names};
use crate::proto::SpecLogRecord;
use crate::settings::SpecResourceSettings;
use crate::severity::{tells_severity, without_severity};
use crate::text::uppercase;
use crate::value::{SpecTimestamp, SpecValue};

verus! {

/// Whether the fields of an event are these, each name once.
pub open spec fn has_fields(log: SpecLogEvent, fields: Seq<(Seq<char>, SpecValue)>) -> bool {
    log.root == SpecValue::Object(fields) && ascending(keys_of(fields))
}

/// The record that is sent for an event.
pub open spec fn sent(settings: SpecResourceSettings, log: SpecLogEvent) -> SpecLogRecord {
    told_log(settings, log).item
}

/// Whether an event tells its severity as a number of the protocol.
pub open spec fn states_number(fields: Seq<(Seq<char>, SpecValue)>) -> bool {
    exists|number: i64| #[trigger]
        holds(fields, "severity_number"@, SpecValue::Integer(number)) && (number as int)
            % 0x1_0000_0000 != 0
}

/// Whether an event tells its severity in words of its own.
pub open spec fn states_text(fields: Seq<(Seq<char>, SpecValue)>) -> bool {
    exists|text: Seq<char>| #[trigger]
        holds(fields, "severity_text"@, text_value(text)) && text.len() > 0
}

/// Whether an event has no number of its own, or zero.
pub open spec fn states_no_number(fields: Seq<(Seq<char>, SpecValue)>) -> bool {
    ||| lacks(fields, "severity_number"@)
    ||| exists|value: SpecValue| #[trigger]
        holds(fields, "severity_number"@, value) && (value matches SpecValue::Integer(number)
            ==> (number as int) % 0x1_0000_0000 == 0)
}

/// Whether an event has no words of its own for its severity, or empty ones.
pub open spec fn states_no_text(fields: Seq<(Seq<char>, SpecValue)>) -> bool {
    ||| no_text(fields, "severity_text"@)
    ||| holds(fields, "severity_text"@, text_value(Seq::empty()))
}

proof fn lemma_names_differ()
    ensures
        "resource"@ != "resources"@,
        "severity"@ != "log_level"@,
        "severity"@ != "priority"@,
        "log_level"@ != "priority"@,
        forall|name: Seq<char>|
            #![trigger taken().contains(name)]
            name == "severity_text"@ || name == "severity_number"@ || name == "level"@ || name
                == "trace_id"@ || name == "span_id"@ || name == "flags"@ || name
                == "dropped_attributes_count"@ || name == "observed_timestamp"@ || name
                == "attributes"@ || name == "message"@ || name == "timestamp"@ || name
                == "source_type"@ ==> !taken().contains(name),
        forall|name: Seq<char>|
            #![trigger taken().contains(name)]
            taken().contains(name) <==> name == "resource"@ || name == "resources"@ || name
                == "severity"@ || name == "log_level"@ || name == "priority"@,
        "resource"@ != "severity"@,
        "resource"@ != "log_level"@,
        "resource"@ != "priority"@,
        "resources"@ != "severity"@,
        "resources"@ != "log_level"@,
        "resources"@ != "priority"@,
{
    reveal_strlit("resource");
    reveal_strlit("resources");
    reveal_strlit("severity");
    reveal_strlit("log_level");
    reveal_strlit("priority");
    reveal_strlit("severity_text");
    reveal_strlit("severity_number");
    reveal_strlit("level");
    reveal_strlit("trace_id");
    reveal_strlit("span_id");
    reveal_strlit("flags");
    reveal_strlit("dropped_attributes_count");
    reveal_strlit("observed_timestamp");
    reveal_strlit("attributes");
    reveal_strlit("message");
    reveal_strlit("timestamp");
    reveal_strlit("source_type");
    assert("resource"@.len() == 8 && "resource"@[0] == 'r');
    assert("resources"@.len() == 9 && "resources"@[0] == 'r');
    assert("severity"@.len() == 8 && "severity"@[0] == 's');
    assert("log_level"@.len() == 9 && "log_level"@[0] == 'l');
    assert("priority"@.len() == 8 && "priority"@[0] == 'p');
    assert("severity_text"@.len() == 13);
    assert("severity_number"@.len() == 15);
    assert("level"@.len() == 5);
    assert("trace_id"@[0] == 't');
    assert("span_id"@.len() == 7);
    assert("flags"@.len() == 5);
    assert("dropped_attributes_count"@.len() == 24);
    assert("observed_timestamp"@.len() == 18);
    assert("attributes"@.len() == 10);
    assert("message"@.len() == 7);
    assert("timestamp"@[0] == 't');
    assert("source_type"@.len() == 11);
    let names = taken();
    assert(names[0] == "resource"@);
    assert(names[1] == "resources"@);
    assert(names[2] == "severity"@);
    assert(names[3] == "log_level"@);
    assert(names[4] == "priority"@);
}

/// The fields that tell of the resource of an event, or of its severity in other words than those of
/// the protocol.
pub open spec fn taken() -> Seq<Seq<char>> {
    seq!["resource"@, "resources"@, "severity"@, "log_level"@, "priority"@]
}

/// The event that the record is made of.
spec fn stripped(log: SpecLogEvent) -> SpecLogEvent {
    let plain = without_resource(log);
    if tells_severity(fields_of(plain.root)) {
        plain
    } else {
        without_severity(plain)
    }
}

proof fn lemma_without_resource(
    log: SpecLogEvent,
    fields: Seq<(Seq<char>, SpecValue)>,
    name: Seq<char>,
)
    requires
        has_fields(log, fields),
        name != "resource"@,
        name != "resources"@,
    ensures
        lookup(fields_of(without_resource(log).root), name) == lookup(fields, name),
        ascending(keys_of(fields_of(without_resource(log).root))),
        without_resource(log).root is Object,
{
    law_removed_value_is_gone(fields, "resources"@, name);
    law_removed_value_is_gone(removed(fields, "resources"@), "resource"@, name);
}

proof fn lemma_stripped(log: SpecLogEvent, fields: Seq<(Seq<char>, SpecValue)>, name: Seq<char>)
    requires
        has_fields(log, fields),
        !taken().contains(name),
    ensures
        lookup(fields_of(stripped(log).root), name) == lookup(fields, name),
        stripped(log).message_path == log.message_path,
        stripped(log).timestamp_path == log.timestamp_path,
        stripped(log).root is Object,
{
    lemma_names_differ();
    lemma_without_resource(log, fields, name);
    let rest = fields_of(without_resource(log).root);
    law_removed_value_is_gone(rest, "severity"@, name);
    law_removed_value_is_gone(removed(rest, "severity"@), "log_level"@, name);
    law_removed_value_is_gone(removed(removed(rest, "severity"@), "log_level"@), "priority"@, name);
}

proof fn lemma_states(log: SpecLogEvent, fields: Seq<(Seq<char>, SpecValue)>)
    requires
        has_fields(log, fields),
    ensures
        states_number(fields) || states_text(fields) ==> tells_severity(
            fields_of(without_resource(log).root),
        ),
        states_no_number(fields) && states_no_text(fields) ==> !tells_severity(
            fields_of(without_resource(log).root),
        ),
{
    lemma_names_differ();
    assert(!taken().contains("severity_text"@));
    assert(!taken().contains("severity_number"@));
    lemma_without_resource(log, fields, "severity_text"@);
    lemma_without_resource(log, fields, "severity_number"@);
    lemma_as_unsigned(0);
    if states_number(fields) {
        let number = choose|number: i64| #[trigger]
            holds(fields, "severity_number"@, SpecValue::Integer(number)) && (number as int)
                % 0x1_0000_0000 != 0;
        law_held_is_found(fields, "severity_number"@, SpecValue::Integer(number));
        lemma_as_unsigned(number);
    }
    if states_text(fields) {
        let text = choose|text: Seq<char>| #[trigger]
            holds(fields, "severity_text"@, text_value(text)) && text.len() > 0;
        law_text_is_read(fields, "severity_text"@, text);
    }
    if states_no_number(fields) {
        if lacks(fields, "severity_number"@) {
            law_lacking_is_not_found(fields, "severity_number"@);
        } else {
            let value = choose|value: SpecValue| #[trigger]
                holds(fields, "severity_number"@, value) && (value matches SpecValue::Integer(
                    number,
                ) ==> (number as int) % 0x1_0000_0000 == 0);
            law_held_is_found(fields, "severity_number"@, value);
            if let SpecValue::Integer(number) = value {
                lemma_as_unsigned(number);
            }
        }
    }
    if states_no_text(fields) {
        if no_text(fields, "severity_text"@) {
            lemma_no_text(fields, "severity_text"@);
        } else {
            law_text_is_read(fields, "severity_text"@, Seq::empty());
        }
    }
}

/// Words that an event has for its severity are sent as they are, whatever its other fields say or
/// lack.
pub proof fn law_severity_text_is_sent(
    settings: SpecResourceSettings,
    log: SpecLogEvent,
    fields: Seq<(Seq<char>, SpecValue)>,
    text: Seq<char>,
)
    requires
        has_fields(log, fields),
        holds(fields, "severity_text"@, text_value(text)),
        text.len() > 0,
    ensures
        sent(settings, log).severity_text == text,
{
    lemma_names_differ();
    lemma_states(log, fields);
    lemma_stripped(log, fields, "severity_text"@);
    law_text_is_read(fields, "severity_text"@, text);
}

/// A number that an event has for its severity is sent as it is, whatever its other fields say or
/// lack.
pub proof fn law_severity_number_is_sent(
    settings: SpecResourceSettings,
    log: SpecLogEvent,
    fields: Seq<(Seq<char>, SpecValue)>,
    number: i64,
)
    requires
        has_fields(log, fields),
        holds(fields, "severity_number"@, SpecValue::Integer(number)),
        (number as int) % 0x1_0000_0000 != 0,
    ensures
        i32::MIN <= number <= i32::MAX ==> sent(settings, log).severity_number == number,
        (sent(settings, log).severity_number - number) % 0x1_0000_0000 == 0,
{
    lemma_names_differ();
    lemma_states(log, fields);
    lemma_stripped(log, fields, "severity_number"@);
    law_held_is_found(fields, "severity_number"@, SpecValue::Integer(number));
    lemma_as_unsigned(number);
}

/// Where an event tells its severity in one of the two ways alone, the other part is empty: nothing
/// is added from its other fields.
pub proof fn law_nothing_is_added_to_a_severity(
    settings: SpecResourceSettings,
    log: SpecLogEvent,
    fields: Seq<(Seq<char>, SpecValue)>,
)
    requires
        has_fields(log, fields),
    ensures
        states_text(fields) && states_no_number(fields) ==> sent(settings, log).severity_number
            == 0,
        states_number(fields) && states_no_text(fields) ==> sent(settings, log).severity_text.len()
            == 0,
{
    lemma_names_differ();
    lemma_states(log, fields);
    lemma_stripped(log, fields, "severity_text"@);
    lemma_stripped(log, fields, "severity_number"@);
    lemma_as_unsigned(0);
    if states_no_number(fields) {
        if lacks(fields, "severity_number"@) {
            law_lacking_is_not_found(fields, "severity_number"@);
        } else {
            let value = choose|value: SpecValue| #[trigger]
                holds(fields, "severity_number"@, value) && (value matches SpecValue::Integer(
                    number,
                ) ==> (number as int) % 0x1_0000_0000 == 0);
            law_held_is_found(fields, "severity_number"@, value);
            if let SpecValue::Integer(number) = value {
                lemma_as_unsigned(number);
            }
        }
    }
    if states_no_text(fields) {
        if no_text(fields, "severity_text"@) {
            lemma_no_text(fields, "severity_text"@);
        } else {
            law_text_is_read(fields, "severity_text"@, Seq::empty());
        }
    }
}

/// Whether a value is the one that tells the severity of an event that does not tell it in the words
/// of the protocol: that of `level`, else of `severity`, else of `log_level`, else of `priority`.
pub open spec fn tells_level(fields: Seq<(Seq<char>, SpecValue)>, value: SpecValue) -> bool {
    ||| holds(fields, "level"@, value)
    ||| lacks(fields, "level"@) && holds(fields, "severity"@, value)
    ||| lacks(fields, "level"@) && lacks(fields, "severity"@) && holds(fields, "log_level"@, value)
    ||| lacks(fields, "level"@) && lacks(fields, "severity"@) && lacks(fields, "log_level"@)
        && holds(fields, "priority"@, value)
}

proof fn lemma_level(
    settings: SpecResourceSettings,
    log: SpecLogEvent,
    fields: Seq<(Seq<char>, SpecValue)>,
    value: SpecValue,
)
    requires
        has_fields(log, fields),
        states_no_number(fields),
        states_no_text(fields),
        tells_level(fields, value),
    ensures
        sent(settings, log).severity_number == crate::severity::severity_of(value).number,
        sent(settings, log).severity_text == crate::severity::severity_of(value).text,
{
    lemma_names_differ();
    lemma_states(log, fields);
    assert(!taken().contains("level"@));
    lemma_without_resource(log, fields, "level"@);
    lemma_without_resource(log, fields, "severity"@);
    lemma_without_resource(log, fields, "log_level"@);
    lemma_without_resource(log, fields, "priority"@);
    lemma_read(fields, "level"@, value);
    lemma_read(fields, "severity"@, value);
    lemma_read(fields, "log_level"@, value);
    lemma_read(fields, "priority"@, value);
    lemma_read_none(fields, "level"@);
    lemma_read_none(fields, "severity"@);
    lemma_read_none(fields, "log_level"@);
}

/// A level in words is sent in capital letters, with the number that the protocol has for it.
pub proof fn law_level_in_words(
    settings: SpecResourceSettings,
    log: SpecLogEvent,
    fields: Seq<(Seq<char>, SpecValue)>,
    level: Seq<char>,
)
    requires
        has_fields(log, fields),
        states_no_number(fields),
        states_no_text(fields),
        tells_level(fields, text_value(level)),
    ensures
        sent(settings, log).severity_text == uppercase(level),
        uppercase(level) == "TRACE"@ ==> sent(settings, log).severity_number == 1,
        uppercase(level) == "DEBUG"@ ==> sent(settings, log).severity_number == 5,
        uppercase(level) == "INFO"@ ==> sent(settings, log).severity_number == 9,
        uppercase(level) == "WARN"@ ==> sent(settings, log).severity_number == 13,
        uppercase(level) == "WARNING"@ ==> sent(settings, log).severity_number == 13,
        uppercase(level) == "ERROR"@ ==> sent(settings, log).severity_number == 17,
        uppercase(level) == "FATAL"@ ==> sent(settings, log).severity_number == 21,
        uppercase(level) == "CRITICAL"@ ==> sent(settings, log).severity_number == 21,
        !seq![
            "TRACE"@,
            "DEBUG"@,
            "INFO"@,
            "WARN"@,
            "WARNING"@,
            "ERROR"@,
            "FATAL"@,
            "CRITICAL"@,
        ].contains(uppercase(level)) ==> sent(settings, log).severity_number == 0,
{
    lemma_level(settings, log, fields, text_value(level));
    encode_utf8_valid_utf8(level);
    encode_utf8_decode_utf8(level);
    reveal_strlit("TRACE");
    reveal_strlit("DEBUG");
    reveal_strlit("INFO");
    reveal_strlit("WARN");
    reveal_strlit("WARNING");
    reveal_strlit("ERROR");
    reveal_strlit("FATAL");
    reveal_strlit("CRITICAL");
    assert("TRACE"@.len() == 5 && "TRACE"@[0] == 'T');
    assert("DEBUG"@.len() == 5 && "DEBUG"@[0] == 'D');
    assert("INFO"@.len() == 4 && "INFO"@[0] == 'I');
    assert("WARN"@.len() == 4 && "WARN"@[0] == 'W');
    assert("WARNING"@.len() == 7);
    assert("ERROR"@.len() == 5 && "ERROR"@[0] == 'E');
    assert("FATAL"@.len() == 5 && "FATAL"@[0] == 'F');
    assert("CRITICAL"@.len() == 8);
    let names = seq![
        "TRACE"@,
        "DEBUG"@,
        "INFO"@,
        "WARN"@,
        "WARNING"@,
        "ERROR"@,
        "FATAL"@,
        "CRITICAL"@,
    ];
    assert(names[0] == "TRACE"@ && names[1] == "DEBUG"@ && names[2] == "INFO"@ && names[3]
        == "WARN"@ && names[4] == "WARNING"@ && names[5] == "ERROR"@ && names[6] == "FATAL"@
        && names[7] == "CRITICAL"@);
}

/// A level as a number below eight is one of syslog; from nine on it is a number of the protocol and
/// is sent as it is. Other numbers are sent as zero.
pub proof fn law_level_in_numbers(
    settings: SpecResourceSettings,
    log: SpecLogEvent,
    fields: Seq<(Seq<char>, SpecValue)>,
    level: i64,
)
    requires
        has_fields(log, fields),
        states_no_number(fields),
        states_no_text(fields),
        tells_level(fields, SpecValue::Integer(level)),
    ensures
        0 <= level <= 2 ==> sent(settings, log).severity_number == 21,
        level == 3 ==> sent(settings, log).severity_number == 17,
        level == 4 ==> sent(settings, log).severity_number == 13,
        5 <= level <= 6 ==> sent(settings, log).severity_number == 9,
        level == 7 ==> sent(settings, log).severity_number == 5,
        8 <= level <= 24 ==> sent(settings, log).severity_number == level,
        level < 0 || level > 24 ==> sent(settings, log).severity_number == 0,
        level == 0 ==> sent(settings, log).severity_text == "EMERGENCY"@,
        level == 1 ==> sent(settings, log).severity_text == "ALERT"@,
        level == 2 ==> sent(settings, log).severity_text == "CRITICAL"@,
        level == 4 ==> sent(settings, log).severity_text == "WARNING"@,
        level == 5 ==> sent(settings, log).severity_text == "NOTICE"@,
        7 <= level <= 8 ==> sent(settings, log).severity_text == "DEBUG"@,
        level == 6 || 9 <= level <= 12 ==> sent(settings, log).severity_text == "INFO"@,
        13 <= level <= 16 ==> sent(settings, log).severity_text == "WARN"@,
        level == 3 || 17 <= level <= 20 ==> sent(settings, log).severity_text == "ERROR"@,
        21 <= level <= 24 ==> sent(settings, log).severity_text == "FATAL"@,
        level < 0 || level > 24 ==> sent(settings, log).severity_text == "UNKNOWN"@,
{
    lemma_level(settings, log, fields, SpecValue::Integer(level));
}

/// A level that is neither words nor a number, and one that there is not, tells nothing.
pub proof fn law_no_level(
    settings: SpecResourceSettings,
    log: SpecLogEvent,
    fields: Seq<(Seq<char>, SpecValue)>,
    value: SpecValue,
)
    requires
        has_fields(log, fields),
        states_no_number(fields),
        states_no_text(fields),
        tells_level(fields, value) && !(value is Integer) && !(value is Bytes) || lacks(
            fields,
            "level"@,
        ) && lacks(fields, "severity"@) && lacks(fields, "log_level"@) && lacks(
            fields,
            "priority"@,
        ),
    ensures
        sent(settings, log).severity_number == 0,
        sent(settings, log).severity_text.len() == 0,
{
    if tells_level(fields, value) {
        lemma_level(settings, log, fields, value);
    } else {
        lemma_names_differ();
        lemma_states(log, fields);
        assert(!taken().contains("level"@));
        lemma_without_resource(log, fields, "level"@);
        lemma_without_resource(log, fields, "severity"@);
        lemma_without_resource(log, fields, "log_level"@);
        lemma_without_resource(log, fields, "priority"@);
        lemma_read_none(fields, "level"@);
        lemma_read_none(fields, "severity"@);
        lemma_read_none(fields, "log_level"@);
        lemma_read_none(fields, "priority"@);
    }
}

/// The value at the end of a path is the field of the first name, and within it the end of the
/// rest of the path.
pub proof fn law_path_leads_from_field_to_field(
    root: SpecValue,
    entries: Seq<(Seq<char>, SpecValue)>,
    name: Seq<char>,
    value: SpecValue,
    rest: Seq<Seq<char>>,
)
    ensures
        value_at(root, Seq::empty()) == Some(root),
        holds(entries, name, value) ==> value_at(SpecValue::Object(entries), seq![name] + rest)
            == value_at(value, rest),
        lacks(entries, name) ==> value_at(SpecValue::Object(entries), seq![name] + rest) is None,
        !(root is Object) ==> value_at(root, seq![name] + rest) is None,
{
    let path = seq![name] + rest;
    assert(path.drop_first() =~= rest);
    assert(path[0] == name);
    lemma_read(entries, name, value);
    lemma_read_none(entries, name);
}

proof fn lemma_at_path(
    log: SpecLogEvent,
    fields: Seq<(Seq<char>, SpecValue)>,
    path: Seq<Seq<char>>,
)
    requires
        has_fields(log, fields),
        path.len() > 0,
        !taken().contains(path[0]),
    ensures
        value_at(stripped(log).root, path) == value_at(log.root, path),
{
    lemma_stripped(log, fields, path[0]);
}

/// The body of the record is the message of the event: what stands at the end of its path.
pub proof fn law_body_is_the_message(
    settings: SpecResourceSettings,
    log: SpecLogEvent,
    fields: Seq<(Seq<char>, SpecValue)>,
    path: Seq<Seq<char>>,
)
    requires
        has_fields(log, fields),
    ensures
        log.message_path is None ==> sent(settings, log).body is None,
        log.message_path == Some(path) && path.len() > 0 && !taken().contains(path[0]) ==> sent(
            settings,
            log,
        ).body == (match value_at(log.root, path) {
            Some(message) => Some(any_value_of(message)),
            None => None,
        }),
{
    lemma_names_differ();
    lemma_stripped(log, fields, "message"@);
    if log.message_path == Some(path) && path.len() > 0 && !taken().contains(path[0]) {
        lemma_at_path(log, fields, path);
    }
}

/// The time of the record is the point in time at the end of the path of the event's time, in
/// nanoseconds after the epoch; zero where there is none.
pub proof fn law_record_time(
    settings: SpecResourceSettings,
    log: SpecLogEvent,
    fields: Seq<(Seq<char>, SpecValue)>,
    path: Seq<Seq<char>>,
    time: SpecTimestamp,
)
    requires
        has_fields(log, fields),
    ensures
        log.timestamp_path is None ==> sent(settings, log).time_unix_nano == 0,
        log.timestamp_path == Some(path) && path.len() > 0 && !taken().contains(path[0])
            && value_at(log.root, path) == Some(SpecValue::Timestamp(time)) && in_nanos(time)
            ==> sent(settings, log).time_unix_nano == unsigned(nanos_after_epoch(time)),
        log.timestamp_path == Some(path) && path.len() > 0 && !taken().contains(path[0]) && (
        value_at(log.root, path) == Some(SpecValue::Timestamp(time)) && !in_nanos(time)
            || !(value_at(log.root, path) matches Some(SpecValue::Timestamp(_)))) ==> sent(
            settings,
            log,
        ).time_unix_nano == 0,
{
    lemma_names_differ();
    lemma_stripped(log, fields, "message"@);
    lemma_as_unsigned(nanos_after_epoch(time) as i64);
    if log.timestamp_path == Some(path) && path.len() > 0 && !taken().contains(path[0]) {
        lemma_at_path(log, fields, path);
    }
}

/// The time at which an event was observed is the point in time under `observed_timestamp`, in
/// nanoseconds after the epoch; zero where there is none.
pub proof fn law_observed_time(
    settings: SpecResourceSettings,
    log: SpecLogEvent,
    fields: Seq<(Seq<char>, SpecValue)>,
    time: SpecTimestamp,
    value: SpecValue,
)
    requires
        has_fields(log, fields),
    ensures
        holds(fields, "observed_timestamp"@, SpecValue::Timestamp(time)) && in_nanos(time) ==> sent(
            settings,
            log,
        ).observed_time_unix_nano == unsigned(nanos_after_epoch(time)),
        holds(fields, "observed_timestamp"@, SpecValue::Timestamp(time)) && !in_nanos(time)
            ==> sent(settings, log).observed_time_unix_nano == 0,
        lacks(fields, "observed_timestamp"@) || holds(fields, "observed_timestamp"@, value) && !(
        value is Timestamp) ==> sent(settings, log).observed_time_unix_nano == 0,
{
    lemma_names_differ();
    lemma_stripped(log, fields, "observed_timestamp"@);
    lemma_as_unsigned(nanos_after_epoch(time) as i64);
    lemma_read(fields, "observed_timestamp"@, SpecValue::Timestamp(time));
    lemma_read(fields, "observed_timestamp"@, value);
    lemma_read_none(fields, "observed_timestamp"@);
}

/// The flags and the count of dropped attributes are the integers under their names, without what
/// goes beyond 32 bits; zero where there are none.
pub proof fn law_flags_and_dropped_count(
    settings: SpecResourceSettings,
    log: SpecLogEvent,
    fields: Seq<(Seq<char>, SpecValue)>,
    number: i64,
    value: SpecValue,
)
    requires
        has_fields(log, fields),
    ensures
        holds(fields, "flags"@, SpecValue::Integer(number)) ==> sent(settings, log).flags == (
        number as int) % 0x1_0000_0000,
        lacks(fields, "flags"@) || holds(fields, "flags"@, value) && !(value is Integer) ==> sent(
            settings,
            log,
        ).flags == 0,
        holds(fields, "dropped_attributes_count"@, SpecValue::Integer(number)) ==> sent(
            settings,
            log,
        ).dropped_attributes_count == (number as int) % 0x1_0000_0000,
        lacks(fields, "dropped_attributes_count"@) || holds(
            fields,
            "dropped_attributes_count"@,
            value,
        ) && !(value is Integer) ==> sent(settings, log).dropped_attributes_count == 0,
{
    lemma_names_differ();
    lemma_as_unsigned(number);
    lemma_as_unsigned(0);
    lemma_stripped(log, fields, "flags"@);
    lemma_stripped(log, fields, "dropped_attributes_count"@);
    lemma_read(fields, "flags"@, SpecValue::Integer(number));
    lemma_read(fields, "flags"@, value);
    lemma_read_none(fields, "flags"@);
    lemma_read(fields, "dropped_attributes_count"@, SpecValue::Integer(number));
    lemma_read(fields, "dropped_attributes_count"@, value);
    lemma_read_none(fields, "dropped_attributes_count"@);
}

/// The identifier of the trace of an event is 16 bytes, that of its span 8: the bytes under the
/// name, or those that they spell in hexadecimal digits. It is empty where they are neither.
pub proof fn law_record_identifiers(
    settings: SpecResourceSettings,
    log: SpecLogEvent,
    fields: Seq<(Seq<char>, SpecValue)>,
    held: Seq<u8>,
    id: Seq<u8>,
    value: SpecValue,
)
    requires
        has_fields(log, fields),
    ensures
        holds(fields, "trace_id"@, SpecValue::Bytes(id)) && id.len() == 16 ==> sent(
            settings,
            log,
        ).trace_id == id,
        holds(fields, "span_id"@, SpecValue::Bytes(id)) && id.len() == 8 ==> sent(
            settings,
            log,
        ).span_id == id,
        holds(fields, "trace_id"@, SpecValue::Bytes(held)) && held.len() == 32 && hex_decoded(held)
            == Some(id) ==> sent(settings, log).trace_id == id,
        holds(fields, "span_id"@, SpecValue::Bytes(held)) && held.len() == 16 && hex_decoded(held)
            == Some(id) ==> sent(settings, log).span_id == id,
        holds(fields, "trace_id"@, SpecValue::Bytes(held)) && held.len() != 16 && (held.len() != 32
            || hex_decoded(held) is None) ==> sent(settings, log).trace_id.len() == 0,
        holds(fields, "span_id"@, SpecValue::Bytes(held)) && held.len() != 8 && (held.len() != 16
            || hex_decoded(held) is None) ==> sent(settings, log).span_id.len() == 0,
        lacks(fields, "trace_id"@) || holds(fields, "trace_id"@, value) && !(value is Bytes)
            ==> sent(settings, log).trace_id.len() == 0,
        lacks(fields, "span_id"@) || holds(fields, "span_id"@, value) && !(value is Bytes) ==> sent(
            settings,
            log,
        ).span_id.len() == 0,
{
    lemma_names_differ();
    lemma_stripped(log, fields, "trace_id"@);
    lemma_stripped(log, fields, "span_id"@);
    lemma_read(fields, "trace_id"@, SpecValue::Bytes(id));
    lemma_read(fields, "trace_id"@, SpecValue::Bytes(held));
    lemma_read(fields, "trace_id"@, value);
    lemma_read_none(fields, "trace_id"@);
    lemma_read(fields, "span_id"@, SpecValue::Bytes(id));
    lemma_read(fields, "span_id"@, SpecValue::Bytes(held));
    lemma_read(fields, "span_id"@, value);
    lemma_read_none(fields, "span_id"@);
}

/// The fields that the record has elsewhere, or that it leaves out.
pub open spec fn named_fields() -> Seq<Seq<char>> {
    seq![
        "observed_timestamp"@,
        "trace_id"@,
        "span_id"@,
        "severity_text"@,
        "severity_number"@,
        "flags"@,
        "dropped_attributes_count"@,
        "attributes"@,
        "message"@,
        "timestamp"@,
        "source_type"@,
    ]
}

proof fn lemma_named_fields()
    ensures
        forall|name: Seq<char>| #[trigger]
            reserved_names().contains(name) <==> named_fields().contains(name),
{
    let names = named_fields();
    assert(names[0] == "observed_timestamp"@ && names[1] == "trace_id"@ && names[2] == "span_id"@
        && names[3] == "severity_text"@ && names[4] == "severity_number"@ && names[5] == "flags"@
        && names[6] == "dropped_attributes_count"@ && names[7] == "attributes"@ && names[8]
        == "message"@ && names[9] == "timestamp"@ && names[10] == "source_type"@);
}

/// The fields that tell of the resource of an event: `resources`, and `resource` where it is an
/// object.
pub open spec fn resource_names(fields: Seq<(Seq<char>, SpecValue)>) -> Seq<Seq<char>> {
    if exists|entries: Seq<(Seq<char>, SpecValue)>|
        holds(fields, "resource"@, SpecValue::Object(entries)) {
        seq!["resources"@, "resource"@]
    } else {
        seq!["resources"@]
    }
}

proof fn lemma_resource_names(log: SpecLogEvent, fields: Seq<(Seq<char>, SpecValue)>)
    requires
        has_fields(log, fields),
    ensures
        fields_of(without_resource(log).root) == other_than(fields, resource_names(fields)),
        ascending(keys_of(fields_of(without_resource(log).root))),
{
    lemma_names_differ();
    law_removed_value_is_gone(fields, "resources"@, "message"@);
    let rest = removed(fields, "resources"@);
    law_removed_value_is_gone(rest, "resource"@, "message"@);
    lemma_removed_is_other_than(fields, "resources"@);
    lemma_removed_is_other_than(rest, "resource"@);
    lemma_other_than_twice(fields, seq!["resources"@], seq!["resource"@]);
    assert(seq!["resources"@] + seq!["resource"@] =~= seq!["resources"@, "resource"@]);
    if exists|entries: Seq<(Seq<char>, SpecValue)>|
        holds(fields, "resource"@, SpecValue::Object(entries)) {
        let entries = choose|entries: Seq<(Seq<char>, SpecValue)>|
            holds(fields, "resource"@, SpecValue::Object(entries));
        law_held_is_found(fields, "resource"@, SpecValue::Object(entries));
    } else if crate::fields::object_at(fields, "resource"@) is Some {
        let value = lookup(fields, "resource"@)->0;
        law_found_is_held(fields, "resource"@, value);
        assert(holds(fields, "resource"@, SpecValue::Object(value->Object_0)));
    }
}

/// The attributes of a record are all entries of the object under `attributes`, then all fields but
/// those that the record has elsewhere and those that tell of the resource. Where the severity comes
/// from another field, the fields `severity`, `log_level` and `priority` are left out as well; the
/// field `level` stays.
pub proof fn law_record_attributes(
    settings: SpecResourceSettings,
    log: SpecLogEvent,
    fields: Seq<(Seq<char>, SpecValue)>,
    attributes: Seq<(Seq<char>, SpecValue)>,
)
    requires
        has_fields(log, fields),
        object_under(fields, "attributes"@, attributes),
    ensures
        states_number(fields) || states_text(fields) ==> sent(settings, log).attributes
            == attributes_for(attributes) + attributes_for(
            other_than(fields, resource_names(fields) + named_fields()),
        ),
        states_no_number(fields) && states_no_text(fields) ==> sent(settings, log).attributes
            == attributes_for(attributes) + attributes_for(
            other_than(
                fields,
                resource_names(fields) + seq!["severity"@, "log_level"@, "priority"@]
                    + named_fields(),
            ),
        ),
{
    lemma_states(log, fields);
    lemma_attributes_read(settings, log, fields, attributes);
    if states_number(fields) || states_text(fields) {
        lemma_left(log, fields);
        lemma_rest_of_fields(fields_of(stripped(log).root), fields, resource_names(fields));
    }
    if states_no_number(fields) && states_no_text(fields) {
        lemma_left_without_severity(log, fields);
        lemma_rest_of_fields(
            fields_of(stripped(log).root),
            fields,
            resource_names(fields) + seq!["severity"@, "log_level"@, "priority"@],
        );
    }
}

proof fn lemma_attributes_read(
    settings: SpecResourceSettings,
    log: SpecLogEvent,
    fields: Seq<(Seq<char>, SpecValue)>,
    attributes: Seq<(Seq<char>, SpecValue)>,
)
    requires
        has_fields(log, fields),
        object_under(fields, "attributes"@, attributes),
    ensures
        sent(settings, log).attributes == attributes_for(attributes) + key_values_of(
            without(fields_of(stripped(log).root), reserved_names()),
        ),
{
    lemma_names_differ();
    lemma_stripped(log, fields, "attributes"@);
    lemma_object_under(fields, "attributes"@, attributes);
    lemma_attributes_for(attributes);
}

proof fn lemma_rest_of_fields(
    left: Seq<(Seq<char>, SpecValue)>,
    fields: Seq<(Seq<char>, SpecValue)>,
    names: Seq<Seq<char>>,
)
    requires
        left == other_than(fields, names),
    ensures
        key_values_of(without(left, reserved_names())) == attributes_for(
            other_than(fields, names + named_fields()),
        ),
{
    lemma_named_fields();
    lemma_without_is_other_than(left, reserved_names(), named_fields());
    lemma_other_than_twice(fields, names, named_fields());
    lemma_attributes_for(other_than(fields, names + named_fields()));
}

proof fn lemma_left(log: SpecLogEvent, fields: Seq<(Seq<char>, SpecValue)>)
    requires
        has_fields(log, fields),
        tells_severity(fields_of(without_resource(log).root)),
    ensures
        fields_of(stripped(log).root) == other_than(fields, resource_names(fields)),
{
    lemma_resource_names(log, fields);
}

proof fn lemma_left_without_severity(log: SpecLogEvent, fields: Seq<(Seq<char>, SpecValue)>)
    requires
        has_fields(log, fields),
        !tells_severity(fields_of(without_resource(log).root)),
    ensures
        fields_of(stripped(log).root) == other_than(
            fields,
            resource_names(fields) + seq!["severity"@, "log_level"@, "priority"@],
        ),
{
    lemma_resource_names(log, fields);
    lemma_without_resource_is_object(log, fields);
    let told = resource_names(fields);
    let rest = other_than(fields, told);
    lemma_levels_left_out(rest);
    lemma_other_than_twice(fields, told, seq!["severity"@, "log_level"@, "priority"@]);
}

proof fn lemma_without_resource_is_object(
    log: SpecLogEvent,
    fields: Seq<(Seq<char>, SpecValue)>,
)
    requires
        has_fields(log, fields),
    ensures
        without_resource(log).root is Object,
{
}

proof fn lemma_levels_left_out(rest: Seq<(Seq<char>, SpecValue)>)
    requires
        ascending(keys_of(rest)),
    ensures
        removed(removed(removed(rest, "severity"@), "log_level"@), "priority"@) == other_than(
            rest,
            seq!["severity"@, "log_level"@, "priority"@],
        ),
{
    let once = removed(rest, "severity"@);
    let twice = removed(once, "log_level"@);
    law_removed_value_is_gone(rest, "severity"@, "message"@);
    law_removed_value_is_gone(once, "log_level"@, "message"@);
    lemma_removed_is_other_than(rest, "severity"@);
    lemma_removed_is_other_than(once, "log_level"@);
    lemma_removed_is_other_than(twice, "priority"@);
    lemma_other_than_twice(rest, seq!["severity"@], seq!["log_level"@]);
    lemma_other_than_twice(rest, seq!["severity"@] + seq!["log_level"@], seq!["priority"@]);
    assert(seq!["severity"@] + seq!["log_level"@] + seq!["priority"@] =~= seq![
        "severity"@,
        "log_level"@,
        "priority"@,
    ]);
}

/// The attributes of the resource of an event are all entries of the object under `resource`, then
/// all entries of the object under `resources`.
pub proof fn law_resource_of_a_log(
    log: SpecLogEvent,
    fields: Seq<(Seq<char>, SpecValue)>,
    resource: Seq<(Seq<char>, SpecValue)>,
    resources: Seq<(Seq<char>, SpecValue)>,
)
    requires
        has_fields(log, fields),
        object_under(fields, "resource"@, resource),
        object_under(fields, "resources"@, resources),
    ensures
        log_resource_attributes(log) == attributes_for(resource) + attributes_for(resources),
{
    lemma_object_under(fields, "resource"@, resource);
    lemma_object_under(fields, "resources"@, resources);
    lemma_attributes_for(resource);
    lemma_attributes_for(resources);
}

/// The body of an event whose message is the whole event is all that is left of it: everything but
/// the fields that tell of its resource and, where they give it its severity, of that.
pub proof fn law_body_is_the_whole_event(
    settings: SpecResourceSettings,
    log: SpecLogEvent,
    fields: Seq<(Seq<char>, SpecValue)>,
)
    requires
        has_fields(log, fields),
        log.message_path == Some(Seq::<Seq<char>>::empty()),
    ensures
        states_number(fields) || states_text(fields) ==> sent(settings, log).body == Some(
            any_value_of(SpecValue::Object(other_than(fields, resource_names(fields)))),
        ),
        states_no_number(fields) && states_no_text(fields) ==> sent(settings, log).body == Some(
            any_value_of(
                SpecValue::Object(
                    other_than(
                        fields,
                        resource_names(fields) + seq!["severity"@, "log_level"@, "priority"@],
                    ),
                ),
            ),
        ),
{
    lemma_states(log, fields);
    lemma_names_differ();
    lemma_stripped(log, fields, "message"@);
    if states_number(fields) || states_text(fields) {
        lemma_left(log, fields);
    }
    if states_no_number(fields) && states_no_text(fields) {
        lemma_left_without_severity(log, fields);
    }
}

/// An event that is no object tells nothing but its message and its time, where the paths of these
/// do not lead into it.
pub proof fn law_event_without_fields(
    settings: SpecResourceSettings,
    log: SpecLogEvent,
    time: SpecTimestamp,
)
    requires
        !(log.root is Object),
    ensures
        sent(settings, log).attributes.len() == 0,
        sent(settings, log).severity_number == 0,
        sent(settings, log).severity_text.len() == 0,
        sent(settings, log).trace_id.len() == 0,
        sent(settings, log).span_id.len() == 0,
        sent(settings, log).flags == 0,
        sent(settings, log).dropped_attributes_count == 0,
        sent(settings, log).observed_time_unix_nano == 0,
        log_resource_attributes(log).len() == 0,
        log.message_path == Some(Seq::<Seq<char>>::empty()) ==> sent(settings, log).body == Some(
            any_value_of(log.root),
        ),
        log.message_path matches Some(path) && path.len() > 0 ==> sent(settings, log).body is None,
        log.timestamp_path == Some(Seq::<Seq<char>>::empty()) && log.root == SpecValue::Timestamp(
            time,
        ) && in_nanos(time) ==> sent(settings, log).time_unix_nano == unsigned(
            nanos_after_epoch(time),
        ),
{
    let none = Seq::<(Seq<char>, SpecValue)>::empty();
    lemma_as_unsigned(0);
    lemma_as_unsigned(nanos_after_epoch(time) as i64);
    lemma_read_none(none, "severity_number"@);
    lemma_read_none(none, "severity_text"@);
    lemma_read_none(none, "level"@);
    lemma_read_none(none, "severity"@);
    lemma_read_none(none, "log_level"@);
    lemma_read_none(none, "priority"@);
    lemma_read_none(none, "trace_id"@);
    lemma_read_none(none, "span_id"@);
    lemma_read_none(none, "flags"@);
    lemma_read_none(none, "dropped_attributes_count"@);
    lemma_read_none(none, "observed_timestamp"@);
    lemma_read_none(none, "attributes"@);
    lemma_read_none(none, "resource"@);
    lemma_read_none(none, "resources"@);
}

/// A record by itself, without what other fields tell of the severity, has the number and the words
/// of the event, zero and none where there are none.
pub proof fn law_record_by_itself(
    log: SpecLogEvent,
    fields: Seq<(Seq<char>, SpecValue)>,
    number: i64,
    text: Seq<char>,
)
    requires
        log.root == SpecValue::Object(fields),
    ensures
        holds(fields, "severity_number"@, SpecValue::Integer(number)) && i32::MIN <= number
            <= i32::MAX ==> log_record_of(log).severity_number == number,
        states_no_number(fields) ==> log_record_of(log).severity_number == 0,
        holds(fields, "severity_text"@, text_value(text)) ==> log_record_of(log).severity_text
            == text,
        no_text(fields, "severity_text"@) ==> log_record_of(log).severity_text.len() == 0,
{
    lemma_as_unsigned(number);
    lemma_as_unsigned(0);
    lemma_read(fields, "severity_number"@, SpecValue::Integer(number));
    if holds(fields, "severity_text"@, text_value(text)) {
        law_text_is_read(fields, "severity_text"@, text);
    }
    if no_text(fields, "severity_text"@) {
        lemma_no_text(fields, "severity_text"@);
    }
    if states_no_number(fields) {
        if lacks(fields, "severity_number"@) {
            law_lacking_is_not_found(fields, "severity_number"@);
        } else {
            let value = choose|value: SpecValue| #[trigger]
                holds(fields, "severity_number"@, value) && (value matches SpecValue::Integer(
                    number,
                ) ==> (number as int) % 0x1_0000_0000 == 0);
            law_held_is_found(fields, "severity_number"@, value);
            if let SpecValue::Integer(other) = value {
                lemma_as_unsigned(other);
            }
        }
    }
}

}
