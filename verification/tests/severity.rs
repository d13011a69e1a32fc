use opentelemetry_proto::tonic::collector::logs::v1::ExportLogsServiceRequest;
use opentelemetry_proto::tonic::logs::v1::LogRecord;
use opentelemetry_proto::tonic::logs::v1::SeverityNumber;
use opentelemetry_sink::encoder::OtlpEncoder;
use opentelemetry_sink::event::{Event, LogEvent};
use opentelemetry_sink::severity::{extract_severity, map_severity_to_otlp, severity_from_name};
use opentelemetry_sink::value::{ObjectMap, Timestamp, Value};
use prost::Message;

fn log(message: &str, entries: Vec<(&str, Value)>) -> LogEvent {
    let mut map = ObjectMap::new();
    map.insert("message".to_string(), Value::from_text(message));
    map.insert(
        "timestamp".to_string(),
        Value::Timestamp(Timestamp::new(1700000000, 0).unwrap()),
    );
    for (name, value) in entries {
        map.insert(name.to_string(), value);
    }
    LogEvent::new(Value::Object(map))
}

fn has(log: &LogEvent, name: &str) -> bool {
    log.get(&vec![name.to_string()]).is_some()
}

fn record(log: LogEvent) -> LogRecord {
    let result = OtlpEncoder::new_default().encode_logs(vec![Event::Log(log)]).unwrap();
    let request = ExportLogsServiceRequest::decode(result.as_slice()).unwrap();
    request.resource_logs[0].scope_logs[0].log_records[0].clone()
}

#[test]
fn test_severity_mapping_string_levels() {
    let test_cases = vec![
        ("info", SeverityNumber::Info as i32, "INFO"),
        ("INFO", SeverityNumber::Info as i32, "INFO"),
        ("debug", SeverityNumber::Debug as i32, "DEBUG"),
        ("warn", SeverityNumber::Warn as i32, "WARN"),
        ("warning", SeverityNumber::Warn as i32, "WARNING"),
        ("error", SeverityNumber::Error as i32, "ERROR"),
        ("fatal", SeverityNumber::Fatal as i32, "FATAL"),
        ("trace", SeverityNumber::Trace as i32, "TRACE"),
        ("critical", SeverityNumber::Fatal as i32, "CRITICAL"),
        ("unknown", SeverityNumber::Unspecified as i32, "UNKNOWN"),
    ];
    for (input, expected_num, expected_text) in test_cases {
        let (severity_number, severity_text) = map_severity_to_otlp(Value::from_text(input));
        assert_eq!(severity_number, expected_num, "Failed for input: {}", input);
        assert_eq!(severity_text, expected_text, "Failed for input: {}", input);
    }
}

#[test]
fn test_severity_mapping_numeric_levels() {
    let syslog_cases = vec![
        (0, SeverityNumber::Fatal as i32, "EMERGENCY"),
        (1, SeverityNumber::Fatal as i32, "ALERT"),
        (2, SeverityNumber::Fatal as i32, "CRITICAL"),
        (3, SeverityNumber::Error as i32, "ERROR"),
        (4, SeverityNumber::Warn as i32, "WARNING"),
        (5, SeverityNumber::Info as i32, "NOTICE"),
        (6, SeverityNumber::Info as i32, "INFO"),
        (7, SeverityNumber::Debug as i32, "DEBUG"),
    ];
    for (input, expected_num, expected_text) in syslog_cases {
        let (severity_number, severity_text) = map_severity_to_otlp(Value::Integer(input));
        assert_eq!(severity_number, expected_num, "Failed for syslog level: {}", input);
        assert_eq!(severity_text, expected_text, "Failed for syslog level: {}", input);
    }
    let otlp_cases = vec![
        (9, 9, "INFO"),
        (13, 13, "WARN"),
        (17, 17, "ERROR"),
        (21, 21, "FATAL"),
    ];
    for (input, expected_num, expected_text) in otlp_cases {
        let (severity_number, severity_text) = map_severity_to_otlp(Value::Integer(input));
        assert_eq!(severity_number, expected_num, "Failed for OTLP level: {}", input);
        assert_eq!(severity_text, expected_text, "Failed for OTLP level: {}", input);
    }
}

#[test]
fn test_extract_severity_from_log() {
    let field_test_cases = vec![
        ("level", "error"),
        ("severity", "warn"),
        ("log_level", "info"),
        ("priority", "debug"),
    ];
    for (field_name, level_value) in field_test_cases {
        let mut log = log("test message", vec![(field_name, Value::from_text(level_value))]);
        let (severity_number, severity_text) = extract_severity(&mut log);
        if field_name == "level" {
            assert!(has(&log, field_name), "Field 'level' should be preserved as an attribute");
        } else {
            assert!(!has(&log, field_name), "Field '{}' should have been removed", field_name);
        }
        let expected_number = match level_value {
            "error" => SeverityNumber::Error as i32,
            "warn" => SeverityNumber::Warn as i32,
            "info" => SeverityNumber::Info as i32,
            "debug" => SeverityNumber::Debug as i32,
            _ => SeverityNumber::Unspecified as i32,
        };
        assert_eq!(
            severity_number, expected_number,
            "Failed for field '{}' with value '{}'",
            field_name, level_value
        );
        assert_eq!(
            severity_text,
            level_value.to_uppercase(),
            "Failed for field '{}' with value '{}'",
            field_name,
            level_value
        );
    }
}

#[test]
fn test_extract_severity_field_priority() {
    let mut log = log(
        "test message",
        vec![
            ("level", Value::from_text("error")),
            ("severity", Value::from_text("info")),
            ("log_level", Value::from_text("debug")),
        ],
    );
    let (severity_number, severity_text) = extract_severity(&mut log);
    assert_eq!(severity_number, 17);
    assert_eq!(severity_text, "ERROR");
    assert!(has(&log, "level"));
    assert!(!has(&log, "severity"));
    assert!(!has(&log, "log_level"));
}

#[test]
fn test_severity_integration_with_encoder() {
    let log = log(
        "test message with severity",
        vec![("level", Value::from_text("warn")), ("user_id", Value::Integer(123))],
    );
    let log_record = record(log);
    assert_eq!(log_record.severity_number, 13);
    assert_eq!(log_record.severity_text, "WARN");
    let level_attr = log_record.attributes.iter().find(|attr| attr.key == "level");
    assert!(level_attr.is_some(), "Level field should be preserved in attributes");
    let user_id_attr = log_record.attributes.iter().find(|attr| attr.key == "user_id");
    assert!(user_id_attr.is_some(), "user_id should be in attributes");
}

#[test]
fn severity_in_the_words_of_the_protocol_counts() {
    let own = record(log(
        "m",
        vec![
            ("severity_number", Value::Integer(5)),
            ("severity_text", Value::from_text("fine")),
            ("severity", Value::from_text("error")),
        ],
    ));
    assert_eq!(own.severity_number, 5);
    assert_eq!(own.severity_text, "fine");
    assert!(own.attributes.iter().any(|attr| attr.key == "severity"));
    let none = record(log("m", vec![("level", Value::Boolean(true))]));
    assert_eq!(none.severity_number, 0);
    assert_eq!(none.severity_text, "");
    let other = record(log(
        "m",
        vec![("severity", Value::Integer(3)), ("priority", Value::Integer(1))],
    ));
    assert_eq!(other.severity_number, 17);
    assert_eq!(other.severity_text, "ERROR");
    assert!(other.attributes.is_empty());
}

#[test]
fn levels_without_a_name_of_their_own() {
    for (level, number, text) in [
        (8, 8, "DEBUG"),
        (12, 12, "INFO"),
        (16, 16, "WARN"),
        (20, 20, "ERROR"),
        (24, 24, "FATAL"),
        (25, 0, "UNKNOWN"),
        (-1, 0, "UNKNOWN"),
    ] {
        assert_eq!(map_severity_to_otlp(Value::Integer(level)), (number, text.to_string()));
    }
    assert_eq!(map_severity_to_otlp(Value::Null), (0, String::new()));
    assert_eq!(map_severity_to_otlp(Value::from_text("stra\u{DF}e")), (0, "STRASSE".to_string()));
    assert_eq!(severity_from_name("WARNING".to_string()), (13, "WARNING".to_string()));
    assert_eq!(severity_from_name("warn".to_string()), (0, "warn".to_string()));
}
