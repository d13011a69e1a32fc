//! The severity of log events that tell it in other words than those of the protocol.
use vstd::prelude::*;
use vstd::string::*;
use crate::event::{fields_of, without_field, LogEvent, SpecLogEvent};
use crate::fields::{integer_or_zero, text_or_empty};
use crate::keys::{law_removed_value_is_gone, lookup, removed};
use crate::text::{same_text, to_uppercase, uppercase};
use crate::value::{text_of, SpecValue, Value};

verus! {

/// How severe a log event is: a number, zero where that is not known, and a text.
#[verifier::ext_equal]
pub struct SpecSeverity {
    pub number: i32,
    pub text: Seq<char>,
}

/// What a pair of a number and a text says.
pub open spec fn view_severity(severity: (i32, String)) -> SpecSeverity {
    SpecSeverity { number: severity.0, text: severity.1@ }
}

/// The severity of which nothing is known.
pub open spec fn unspecified() -> SpecSeverity {
    SpecSeverity { number: 0, text: Seq::empty() }
}

/// The number of a level by its name in capital letters; zero for every other name.
pub open spec fn level_number(name: Seq<char>) -> i32 {
    if name == "TRACE"@ {
        1
    } else if name == "DEBUG"@ {
        5
    } else if name == "INFO"@ {
        9
    } else if name == "WARN"@ || name == "WARNING"@ {
        13
    } else if name == "ERROR"@ {
        17
    } else if name == "FATAL"@ || name == "CRITICAL"@ {
        21
    } else {
        0
    }
}

/// The severity of a level by its name in capital letters.
pub fn severity_from_name(name: String) -> (severity: (i32, String))
    ensures
        view_severity(severity) == (SpecSeverity { number: level_number(name@), text: name@ }),
{
    let text = name.as_str();
    let number: i32 = if same_text(text, "TRACE") {
        1
    } else if same_text(text, "DEBUG") {
        5
    } else if same_text(text, "INFO") {
        9
    } else if same_text(text, "WARN") || same_text(text, "WARNING") {
        13
    } else if same_text(text, "ERROR") {
        17
    } else if same_text(text, "FATAL") || same_text(text, "CRITICAL") {
        21
    } else {
        0
    };
    (number, name)
}

/// The severity of a level by its number. The numbers up to 7 are those of syslog; those from there
/// up to 24 are those of the protocol itself.
pub open spec fn numbered(level: i64) -> SpecSeverity {
    if level == 0 {
        SpecSeverity { number: 21, text: "EMERGENCY"@ }
    } else if level == 1 {
        SpecSeverity { number: 21, text: "ALERT"@ }
    } else if level == 2 {
        SpecSeverity { number: 21, text: "CRITICAL"@ }
    } else if level == 3 {
        SpecSeverity { number: 17, text: "ERROR"@ }
    } else if level == 4 {
        SpecSeverity { number: 13, text: "WARNING"@ }
    } else if level == 5 {
        SpecSeverity { number: 9, text: "NOTICE"@ }
    } else if level == 6 {
        SpecSeverity { number: 9, text: "INFO"@ }
    } else if level == 7 {
        SpecSeverity { number: 5, text: "DEBUG"@ }
    } else if level == 8 {
        SpecSeverity { number: 8, text: "DEBUG"@ }
    } else if 9 <= level <= 12 {
        SpecSeverity { number: level as i32, text: "INFO"@ }
    } else if 13 <= level <= 16 {
        SpecSeverity { number: level as i32, text: "WARN"@ }
    } else if 17 <= level <= 20 {
        SpecSeverity { number: level as i32, text: "ERROR"@ }
    } else if 21 <= level <= 24 {
        SpecSeverity { number: level as i32, text: "FATAL"@ }
    } else {
        SpecSeverity { number: 0, text: "UNKNOWN"@ }
    }
}

/// The severity of a level by its number.
pub fn severity_from_number(level: i64) -> (severity: (i32, String))
    ensures
        view_severity(severity) == numbered(level),
{
    if level == 0 {
        (21, "EMERGENCY".to_owned())
    } else if level == 1 {
        (21, "ALERT".to_owned())
    } else if level == 2 {
        (21, "CRITICAL".to_owned())
    } else if level == 3 {
        (17, "ERROR".to_owned())
    } else if level == 4 {
        (13, "WARNING".to_owned())
    } else if level == 5 {
        (9, "NOTICE".to_owned())
    } else if level == 6 {
        (9, "INFO".to_owned())
    } else if level == 7 {
        (5, "DEBUG".to_owned())
    } else if level == 8 {
        (8, "DEBUG".to_owned())
    } else if 9 <= level && level <= 12 {
        (level as i32, "INFO".to_owned())
    } else if 13 <= level && level <= 16 {
        (level as i32, "WARN".to_owned())
    } else if 17 <= level && level <= 20 {
        (level as i32, "ERROR".to_owned())
    } else if 21 <= level && level <= 24 {
        (level as i32, "FATAL".to_owned())
    } else {
        (0, "UNKNOWN".to_owned())
    }
}

/// The severity that a value tells: a text names a level, in letters of any case, and an integer
/// numbers one. No other value tells a severity.
pub open spec fn severity_of(value: SpecValue) -> SpecSeverity {
    match value {
        SpecValue::Integer(level) => numbered(level),
        _ => match text_of(value) {
            Some(text) => SpecSeverity {
                number: level_number(uppercase(text)),
                text: uppercase(text),
            },
            None => unspecified(),
        },
    }
}

/// The severity that a value tells.
fn read_severity(value: &Value) -> (severity: (i32, String))
    ensures
        view_severity(severity) == severity_of(value@),
{
    match value {
        Value::Integer(level) => severity_from_number(*level),
        _ => match value.as_str() {
            Some(text) => severity_from_name(to_uppercase(text.as_str())),
            None => {
                let severity = (0i32, String::new());
                assert(severity.1@ =~= Seq::empty());
                severity
            },
        },
    }
}

/// The severity that a value tells, as the protocol has it.
pub fn map_severity_to_otlp(value: Value) -> (severity: (i32, String))
    ensures
        view_severity(severity) == severity_of(value@),
{
    read_severity(&value)
}

/// The value that tells the severity of an event: the first that there is of the fields `level`,
/// `severity`, `log_level` and `priority`.
pub open spec fn severity_value(fields: Seq<(Seq<char>, SpecValue)>) -> Option<SpecValue> {
    if lookup(fields, "level"@) is Some {
        lookup(fields, "level"@)
    } else if lookup(fields, "severity"@) is Some {
        lookup(fields, "severity"@)
    } else if lookup(fields, "log_level"@) is Some {
        lookup(fields, "log_level"@)
    } else {
        lookup(fields, "priority"@)
    }
}

/// The severity that fields tell.
pub open spec fn severity_told(fields: Seq<(Seq<char>, SpecValue)>) -> SpecSeverity {
    match severity_value(fields) {
        Some(value) => severity_of(value),
        None => unspecified(),
    }
}

/// An event without the fields that tell its severity. The field `level` stays.
pub open spec fn without_severity(log: SpecLogEvent) -> SpecLogEvent {
    log.with_root(
        without_field(
            without_field(without_field(log.root, "severity"@), "log_level"@),
            "priority"@,
        ),
    )
}

/// The fields that tell a severity have different names.
pub proof fn lemma_severity_names_differ()
    ensures
        "severity"@ != "log_level"@,
        "severity"@ != "priority"@,
        "log_level"@ != "priority"@,
{
    reveal_strlit("severity");
    reveal_strlit("log_level");
    reveal_strlit("priority");
    assert("severity"@.len() == 8);
    assert("log_level"@.len() == 9);
    assert("priority"@.len() == 8);
    assert("severity"@[0] == 's');
    assert("priority"@[0] == 'p');
}

/// Takes the severity out of an event. The field `level` stays in it.
pub fn extract_severity(log: &mut LogEvent) -> (severity: (i32, String))
    ensures
        view_severity(severity) == severity_told(fields_of(old(log)@.root)),
        final(log)@ == without_severity(old(log)@),
{
    let ghost fields = fields_of(log@.root);
    let from_level = match log.as_map() {
        Some(map) => match map.get("level") {
            Some(value) => Some(read_severity(value)),
            None => None,
        },
        None => None,
    };
    let severity = log.remove("severity");
    let log_level = log.remove("log_level");
    let priority = log.remove("priority");
    proof {
        lemma_severity_names_differ();
        law_removed_value_is_gone(fields, "severity"@, "log_level"@);
        law_removed_value_is_gone(fields, "severity"@, "priority"@);
        law_removed_value_is_gone(removed(fields, "severity"@), "log_level"@, "priority"@);
    }
    if let Some(severity) = from_level {
        return severity;
    }
    if let Some(value) = severity {
        return map_severity_to_otlp(value);
    }
    if let Some(value) = log_level {
        return map_severity_to_otlp(value);
    }
    if let Some(value) = priority {
        return map_severity_to_otlp(value);
    }
    let none = String::new();
    assert(none@ =~= Seq::empty());
    (0, none)
}

/// Whether fields tell a severity in the words of the protocol.
pub open spec fn tells_severity(fields: Seq<(Seq<char>, SpecValue)>) -> bool {
    ||| integer_or_zero(fields, "severity_number"@) as i32 != 0
    ||| text_or_empty(fields, "severity_text"@).len() > 0
}

/// Whether an event tells a severity in the words of the protocol.
pub fn has_own_severity(log: &LogEvent) -> (told: bool)
    ensures
        told == tells_severity(fields_of(log@.root)),
{
    match log.as_map() {
        Some(map) => {
            if map.get_integer_or_zero("severity_number") as i32 != 0 {
                return true;
            }
            match map.get_text("severity_text") {
                Some(text) => text.as_str().unicode_len() > 0,
                None => false,
            }
        },
        None => false,
    }
}

/// Only names in capital letters are levels, and each has its own number.
pub proof fn law_level_names(name: Seq<char>)
    ensures
        level_number(name) == 1 <==> name == "TRACE"@,
        level_number(name) == 5 <==> name == "DEBUG"@,
        level_number(name) == 9 <==> name == "INFO"@,
        level_number(name) == 13 <==> name == "WARN"@ || name == "WARNING"@,
        level_number(name) == 17 <==> name == "ERROR"@,
        level_number(name) == 21 <==> name == "FATAL"@ || name == "CRITICAL"@,
        level_number(name) != 0 ==> level_number(name) % 4 == 1 && 1 <= level_number(name) <= 21,
{
    reveal_strlit("TRACE");
    reveal_strlit("DEBUG");
    reveal_strlit("INFO");
    reveal_strlit("WARN");
    reveal_strlit("WARNING");
    reveal_strlit("ERROR");
    reveal_strlit("FATAL");
    reveal_strlit("CRITICAL");
    assert("TRACE"@.len() == 5 && "TRACE"@[0] == 'T');
    assert("DEBUG"@.len() == 5 && "DEBUG"@[0] == 'D');
    assert("INFO"@.len() == 4 && "INFO"@[0] == 'I');
    assert("WARN"@.len() == 4 && "WARN"@[0] == 'W');
    assert("WARNING"@.len() == 7);
    assert("ERROR"@.len() == 5 && "ERROR"@[0] == 'E');
    assert("FATAL"@.len() == 5 && "FATAL"@[0] == 'F');
    assert("CRITICAL"@.len() == 8);
}

}
