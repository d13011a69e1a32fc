use opentelemetry_proto::tonic::collector::logs::v1::ExportLogsServiceRequest;
use opentelemetry_proto::tonic::collector::metrics::v1::ExportMetricsServiceRequest;
use opentelemetry_proto::tonic::common::v1::any_value::Value as AnyKind;
use opentelemetry_proto::tonic::common::v1::KeyValue as Attribute;
use opentelemetry_sink::convert::convert_value_to_any_value;
use opentelemetry_sink::encoder::OtlpEncoder;
use opentelemetry_sink::event::{Event, LogEvent};
use opentelemetry_sink::metric::{Metric, MetricKind, MetricValue};
use opentelemetry_sink::proto::PbValue;
use opentelemetry_sink::totals::MetricSet;
use opentelemetry_sink::value::{Double, ObjectMap, Timestamp, Value};
use prost::Message;

fn text(s: &str) -> Value {
    Value::from_text(s)
}

fn time(secs: i64, nanos: u32) -> Value {
    Value::Timestamp(Timestamp::new(secs, nanos).unwrap())
}

fn object(entries: Vec<(&str, Value)>) -> ObjectMap {
    let mut map = ObjectMap::new();
    for (name, value) in entries {
        map.insert(name.to_string(), value);
    }
    map
}

/// An event with a message and a time, and more fields.
fn log(message: &str, entries: Vec<(&str, Value)>) -> LogEvent {
    let mut map = object(vec![("message", text(message)), ("timestamp", time(1700000000, 5))]);
    for (name, value) in entries {
        map.insert(name.to_string(), value);
    }
    LogEvent::new(Value::Object(map))
}

fn decode(events: Vec<LogEvent>) -> ExportLogsServiceRequest {
    let encoder = OtlpEncoder::new_default();
    let bytes = encoder.encode_logs(events.into_iter().map(Event::Log).collect()).unwrap();
    ExportLogsServiceRequest::decode(bytes.as_slice()).unwrap()
}

fn has(key: &str, attributes: &[Attribute]) -> bool {
    attributes.iter().any(|kv| kv.key == key)
}

fn kind(key: &str, attributes: &[Attribute]) -> Option<AnyKind> {
    attributes
        .iter()
        .find(|kv| kv.key == key)
        .and_then(|kv| kv.value.as_ref().and_then(|v| v.value.clone()))
}

fn quoted(attributes: &[Attribute]) -> Vec<String> {
    attributes
        .iter()
        .filter(|kv| kv.key.starts_with('"') && kv.key.ends_with('"'))
        .map(|kv| kv.key.clone())
        .collect()
}

#[test]
fn encoder_test_key_quoting_behavior() {
    // "code.file.path" and "code.function.name" as paths
    let flat = LogEvent::new(Value::Object(object(vec![
        (
            "code",
            Value::Object(object(vec![
                ("file", Value::Object(object(vec![("path", text("/path/to/file.py"))]))),
                ("function", Value::Object(object(vec![("name", text("my_function"))]))),
            ])),
        ),
        ("message", text("test log")),
    ])));
    let nested = LogEvent::new(Value::Object(object(vec![
        (
            "attributes",
            Value::Object(object(vec![
                ("file.path", text("/path/to/file.py")),
                ("function.name", text("my_function")),
            ])),
        ),
        ("message", text("test log nested")),
    ])));
    // "resource.service.name" and "resource.host.name" as paths
    let resource = LogEvent::new(Value::Object(object(vec![
        (
            "resource",
            Value::Object(object(vec![
                ("service", Value::Object(object(vec![("name", text("test-service"))]))),
                ("host", Value::Object(object(vec![("name", text("test-host"))]))),
            ])),
        ),
        ("message", text("test log resource")),
    ])));
    let request = decode(vec![flat, nested, resource]);
    let mut found: Vec<String> = Vec::new();
    for resource_log in &request.resource_logs {
        for scope_log in &resource_log.scope_logs {
            for record in &scope_log.log_records {
                found.extend(quoted(&record.attributes));
            }
        }
    }
    assert!(found.is_empty(), "Found quoted keys in OTLP output: {:?}", found);
}

#[test]
fn logs_test_key_quoting_behavior() {
    let flat = LogEvent::new(Value::Object(object(vec![
        (
            "code",
            Value::Object(object(vec![
                ("file", Value::Object(object(vec![("path", text("/path/to/file.py"))]))),
                ("function", Value::Object(object(vec![("name", text("my_function"))]))),
            ])),
        ),
        ("message", text("test log")),
    ])));
    let nested = LogEvent::new(Value::Object(object(vec![
        (
            "attributes",
            Value::Object(object(vec![
                ("file.path", text("/path/to/file.py")),
                ("function.name", text("my_function")),
            ])),
        ),
        ("message", text("test log nested")),
    ])));
    let resource = LogEvent::new(Value::Object(object(vec![
        (
            "resources",
            Value::Object(object(vec![
                ("service.name", text("test-service")),
                ("host.name", text("test-host")),
            ])),
        ),
        ("message", text("test log resource")),
    ])));
    let request = decode(vec![flat, nested, resource]);
    let mut found: Vec<String> = Vec::new();
    for resource_log in &request.resource_logs {
        for scope_log in &resource_log.scope_logs {
            for record in &scope_log.log_records {
                found.extend(quoted(&record.attributes));
            }
        }
    }
    assert!(found.is_empty(), "Found quoted keys in OTLP output: {:?}", found);
    let keys: Vec<&str> = request.resource_logs[1].scope_logs[0].log_records[0]
        .attributes
        .iter()
        .map(|kv| kv.key.as_str())
        .collect();
    assert_eq!(keys, vec!["file.path", "function.name"]);
}

fn check_hex_decoding() {
    let encoder = OtlpEncoder::new_default();
    let record = encoder.convert_log_event_to_log_record(log(
        "test message",
        vec![
            ("trace_id", text("4ac52aadf321c2e531db005df08792f5")),
            ("span_id", text("0b9e4bda2a55530d")),
        ],
    ));
    assert_eq!(record.trace_id.len(), 16);
    assert_eq!(record.span_id.len(), 8);
    assert_eq!(record.trace_id, hex::decode("4ac52aadf321c2e531db005df08792f5").unwrap());
    assert_eq!(record.span_id, hex::decode("0b9e4bda2a55530d").unwrap());
}

#[test]
fn encoder_test_trace_id_hex_decoding() {
    check_hex_decoding();
}

#[test]
fn logs_test_trace_id_hex_decoding() {
    check_hex_decoding();
}

fn check_invalid_hex() {
    let encoder = OtlpEncoder::new_default();
    let record = encoder.convert_log_event_to_log_record(log(
        "test message",
        vec![("trace_id", text("invalid_hex")), ("span_id", text("too_short"))],
    ));
    assert_eq!(record.trace_id.len(), 0);
    assert_eq!(record.span_id.len(), 0);
}

#[test]
fn encoder_test_invalid_trace_id_hex() {
    check_invalid_hex();
}

#[test]
fn logs_test_invalid_trace_id_hex() {
    check_invalid_hex();
}

#[test]
fn test_missing_trace_context() {
    let encoder = OtlpEncoder::new_default();
    let record = encoder.convert_log_event_to_log_record(log("test message", vec![]));
    assert_eq!(record.trace_id.len(), 0);
    assert_eq!(record.span_id.len(), 0);
}

#[test]
fn test_resources_object_to_resource_attributes() {
    let request = decode(vec![log(
        "body",
        vec![
            (
                "resources",
                Value::Object(object(vec![
                    ("service.name", text("svc-a")),
                    ("host.name", text("host-a")),
                    ("count", Value::Integer(42)),
                    ("nested", Value::Object(object(vec![("k", text("v"))]))),
                ])),
            ),
            ("attr", text("x")),
        ],
    )]);
    let rl = &request.resource_logs[0];
    let resource = rl.resource.as_ref().unwrap();
    let record = &rl.scope_logs[0].log_records[0];
    assert!(has("service.name", &resource.attributes));
    assert!(has("host.name", &resource.attributes));
    assert!(has("count", &resource.attributes));
    assert!(has("nested", &resource.attributes));
    assert!(matches!(kind("nested", &resource.attributes), Some(AnyKind::KvlistValue(_))));
    assert!(!has("service.name", &record.attributes));
    assert!(!has("host.name", &record.attributes));
    assert!(!has("count", &record.attributes));
    assert!(!has("nested", &record.attributes));
    assert!(has("attr", &record.attributes));
}

#[test]
fn test_attributes_object_goes_to_log_attributes_not_resource() {
    let request = decode(vec![log(
        "body",
        vec![(
            "attributes",
            Value::Object(object(vec![
                ("a", text("x")),
                ("b", Value::Integer(1)),
                ("c", Value::Object(object(vec![("n", Value::Boolean(true))]))),
            ])),
        )],
    )]);
    let rl = &request.resource_logs[0];
    let resource = rl.resource.as_ref().unwrap();
    let record = &rl.scope_logs[0].log_records[0];
    assert!(resource.attributes.is_empty());
    assert!(has("a", &record.attributes));
    assert!(has("b", &record.attributes));
    assert!(matches!(kind("c", &record.attributes), Some(AnyKind::KvlistValue(_))));
}

#[test]
fn test_mixed_resources_object_and_dotted_keys_no_duplication() {
    let request = decode(vec![log(
        "body",
        vec![
            (
                "resources",
                Value::Object(object(vec![
                    ("service.name", text("svc-c")),
                    ("region", text("eu-central-1")),
                    ("host.name", text("host-c")),
                ])),
            ),
            ("foo", text("bar")),
        ],
    )]);
    let rl = &request.resource_logs[0];
    let resource = rl.resource.as_ref().unwrap();
    let record = &rl.scope_logs[0].log_records[0];
    assert!(has("service.name", &resource.attributes));
    assert!(has("region", &resource.attributes));
    assert!(has("host.name", &resource.attributes));
    assert!(has("foo", &record.attributes));
    assert!(!has("service.name", &record.attributes));
    assert!(!has("region", &record.attributes));
    assert!(!has("host.name", &record.attributes));
}

#[test]
fn test_no_quoted_keys_in_resource_or_log_attributes() {
    let request = decode(vec![log(
        "body",
        vec![
            (
                "resources",
                Value::Object(object(vec![
                    ("file.path", text("/path")),
                    ("function.name", text("f")),
                ])),
            ),
            (
                "attributes",
                Value::Object(object(vec![("log.attr.with.dots", Value::Integer(1))])),
            ),
        ],
    )]);
    for resource_log in &request.resource_logs {
        if let Some(resource) = &resource_log.resource {
            assert!(quoted(&resource.attributes).is_empty());
        }
        for scope_log in &resource_log.scope_logs {
            for record in &scope_log.log_records {
                assert!(quoted(&record.attributes).is_empty());
            }
        }
    }
    assert!(has("file.path", &request.resource_logs[0].resource.as_ref().unwrap().attributes));
}

#[test]
fn test_convert_log_event_to_log_record_fields() {
    let encoder = OtlpEncoder::new_default();
    let record = encoder.convert_log_event_to_log_record(log(
        "body msg",
        vec![
            // 2023-01-01T00:00:10Z and a second before it
            ("timestamp", time(1672531210, 0)),
            ("observed_timestamp", time(1672531209, 0)),
            ("trace_id", text("4ac52aadf321c2e531db005df08792f5")),
            ("span_id", text("0b9e4bda2a55530d")),
            ("severity_text", text("WARN")),
            ("severity_number", Value::Integer(9)),
            ("flags", Value::Integer(1)),
            ("dropped_attributes_count", Value::Integer(2)),
            (
                "attributes",
                Value::Object(object(vec![
                    ("a", Value::Integer(1)),
                    ("nested", Value::Object(object(vec![("x", text("y"))]))),
                ])),
            ),
            ("foo", text("bar")),
            ("source_type", text("should_be_removed")),
        ],
    ));
    assert!(matches!(
        &record.body.as_ref().unwrap().value,
        Some(PbValue::StringValue(s)) if s == "body msg"
    ));
    assert_eq!(record.time_unix_nano, 1672531210000000000);
    assert_eq!(record.observed_time_unix_nano, 1672531209000000000);
    assert_eq!(record.trace_id, hex::decode("4ac52aadf321c2e531db005df08792f5").unwrap());
    assert_eq!(record.span_id, hex::decode("0b9e4bda2a55530d").unwrap());
    assert_eq!(record.severity_text, "WARN");
    assert_eq!(record.severity_number, 9);
    assert_eq!(record.flags, 1);
    assert_eq!(record.dropped_attributes_count, 2);
    let has = |k: &str| record.attributes.iter().any(|kv| kv.key == k);
    assert!(has("a"));
    assert!(has("nested"));
    assert!(has("foo"));
    assert!(!has("source_type"));
    assert!(!has("severity_text"));
    assert!(!has("severity_number"));
    assert!(!has("flags"));
    assert!(!has("dropped_attributes_count"));
    let nested = record.attributes.iter().find(|kv| kv.key == "nested").unwrap();
    assert!(matches!(
        nested.value.as_ref().unwrap().value,
        Some(PbValue::KvlistValue(_))
    ));
    // The object under `attributes` comes first, then the other fields
    let keys: Vec<&str> = record.attributes.iter().map(|kv| kv.key.as_str()).collect();
    assert_eq!(keys, vec!["a", "nested", "foo"]);
}

#[test]
fn test_convert_log_event_to_log_record_without_otlp_fields() {
    let encoder = OtlpEncoder::new_default();
    let record = encoder.convert_log_event_to_log_record(log(
        "non otlp log",
        vec![
            ("level", text("info")),
            ("host", text("example.com")),
            ("count", Value::Integer(42)),
        ],
    ));
    assert!(matches!(
        &record.body.as_ref().unwrap().value,
        Some(PbValue::StringValue(s)) if s == "non otlp log"
    ));
    assert!(record.time_unix_nano > 0);
    assert_eq!(record.observed_time_unix_nano, 0);
    assert_eq!(record.trace_id.len(), 0);
    assert_eq!(record.span_id.len(), 0);
    assert_eq!(record.severity_text, "");
    assert_eq!(record.severity_number, 0);
    assert_eq!(record.flags, 0);
    assert_eq!(record.dropped_attributes_count, 0);
    let has = |k: &str| record.attributes.iter().any(|kv| kv.key == k);
    assert!(has("level"));
    assert!(has("host"));
    assert!(has("count"));
    assert!(!has("message"));
    assert!(!has("timestamp"));
    assert!(!has("source_type"));
}

#[test]
fn test_encoder_resource_extraction() {
    let request = decode(vec![log(
        "test message",
        vec![
            ("host", text("example.com")),
            (
                "resource",
                Value::Object(object(vec![("service.name", text("vector-test-suite"))])),
            ),
        ],
    )]);
    assert_eq!(request.resource_logs.len(), 1);
    let resource = request.resource_logs[0].resource.as_ref().unwrap();
    assert_eq!(resource.attributes.len(), 1);
    let attribute = &resource.attributes[0];
    assert_eq!(attribute.key, "service.name");
    assert_eq!(
        attribute.value.as_ref().unwrap().value,
        Some(AnyKind::StringValue("vector-test-suite".to_string()))
    );
}

#[test]
fn test_encode_logs_method_directly() {
    let encoder = OtlpEncoder::new_default();
    let resource = object(vec![("service.name", text("direct-test-service"))]);
    let log = log(
        "direct test message",
        vec![("test_key", text("test_value")), ("resource", Value::Object(resource))],
    );
    let result = encoder.encode_logs(vec![Event::Log(log)]).unwrap();
    assert!(!result.is_empty());
    let request = ExportLogsServiceRequest::decode(result.as_slice()).unwrap();
    assert_eq!(request.resource_logs.len(), 1);
    let resource = request.resource_logs[0].resource.as_ref().unwrap();
    assert_eq!(resource.attributes.len(), 1);
    assert_eq!(resource.attributes[0].key, "service.name");
}

#[test]
fn test_string_encoding_utf8_vs_bytes() {
    let utf8_string = "Hello, World! \u{1F30D}";
    let any = convert_value_to_any_value(&Value::Bytes(utf8_string.as_bytes().to_vec()));
    assert!(matches!(&any.value, Some(PbValue::StringValue(s)) if s == utf8_string));

    let any = convert_value_to_any_value(&Value::Bytes(vec![0xFF, 0xFE, 0xFD]));
    assert!(matches!(&any.value, Some(PbValue::BytesValue(b)) if *b == vec![0xFF, 0xFE, 0xFD]));

    let any = convert_value_to_any_value(&text("Regular string"));
    assert!(matches!(&any.value, Some(PbValue::StringValue(s)) if s == "Regular string"));
}

#[test]
fn test_encoder_string_attributes() {
    let request = decode(vec![log(
        "test message",
        vec![
            ("host", text("example.com")),
            ("service", text("my-service")),
            ("numeric_value", Value::Integer(42)),
        ],
    )]);
    let record = &request.resource_logs[0].scope_logs[0].log_records[0];
    assert_eq!(
        kind("host", &record.attributes),
        Some(AnyKind::StringValue("example.com".to_string()))
    );
    assert_eq!(
        kind("service", &record.attributes),
        Some(AnyKind::StringValue("my-service".to_string()))
    );
    assert_eq!(kind("numeric_value", &record.attributes), Some(AnyKind::IntValue(42)));
}

#[test]
fn test_encoder_routes_metrics_vs_logs() {
    let encoder = OtlpEncoder::new_default();
    let metric = Metric::new(
        "test_counter",
        MetricKind::Absolute,
        MetricValue::Counter { value: Double { bits: 5.0f64.to_bits() } },
    );
    let bytes = encoder.encode_input(&mut MetricSet::new(), vec![Event::Metric(metric)]);
    assert!(bytes.len() > 0, "Should have written metric data");
    assert!(ExportMetricsServiceRequest::decode(bytes.as_slice()).is_ok());

    let event = Event::Log(log("test log message", vec![("level", text("info"))]));
    let bytes = encoder.encode_input(&mut MetricSet::new(), vec![event]);
    assert!(bytes.len() > 0, "Should have written log data");
    let request = ExportLogsServiceRequest::decode(bytes.as_slice());
    assert!(request.is_ok(), "Should decode as OTLP logs request");
    let bytes = request.unwrap().encode_to_vec();
    assert!(
        ExportMetricsServiceRequest::decode(bytes.as_slice()).is_err(),
        "Log protobuf should not decode as metrics"
    );
}

#[test]
fn no_events_make_no_bytes() {
    assert!(OtlpEncoder::new_default().encode_input(&mut MetricSet::new(), vec![]).is_empty());
    assert!(OtlpEncoder::new_default().encode_logs(vec![]).unwrap().is_empty());
}

#[test]
fn every_kind_of_value_is_decoded_as_it_was_encoded() {
    let request = decode(vec![log(
        "body",
        vec![(
            "attributes",
            Value::Object(object(vec![
                ("array", Value::Array(vec![Value::Integer(-1), Value::Null, text("x")])),
                ("bytes", Value::Bytes(vec![0xC0, 0x80])),
                ("empty", text("")),
                ("false", Value::Boolean(false)),
                ("float", Value::Float(Double { bits: (-0.25f64).to_bits() })),
                ("min", Value::Integer(i64::MIN)),
                ("null", Value::Null),
                ("regex", Value::Regex("^a+$".to_string())),
                ("time", time(1672531210, 500000000)),
                ("zero", Value::Integer(0)),
            ])),
        )],
    )]);
    let attributes = &request.resource_logs[0].scope_logs[0].log_records[0].attributes;
    let Some(AnyKind::ArrayValue(array)) = kind("array", attributes) else {
        panic!("Expected an array");
    };
    assert_eq!(array.values.len(), 3);
    assert_eq!(array.values[0].value, Some(AnyKind::IntValue(-1)));
    assert_eq!(array.values[1].value, None);
    assert_eq!(array.values[2].value, Some(AnyKind::StringValue("x".to_string())));
    assert_eq!(kind("bytes", attributes), Some(AnyKind::BytesValue(vec![0xC0, 0x80])));
    assert_eq!(kind("empty", attributes), Some(AnyKind::StringValue(String::new())));
    assert_eq!(kind("false", attributes), Some(AnyKind::BoolValue(false)));
    assert_eq!(kind("float", attributes), Some(AnyKind::DoubleValue(-0.25)));
    assert_eq!(kind("min", attributes), Some(AnyKind::IntValue(i64::MIN)));
    assert!(has("null", attributes));
    assert_eq!(kind("null", attributes), None);
    assert_eq!(kind("regex", attributes), Some(AnyKind::StringValue("^a+$".to_string())));
    assert_eq!(
        kind("time", attributes),
        Some(AnyKind::StringValue("2023-01-01 00:00:10.500 UTC".to_string()))
    );
    assert_eq!(kind("zero", attributes), Some(AnyKind::IntValue(0)));
}

#[test]
fn whole_record_is_decoded_as_it_was_encoded() {
    let request = decode(vec![log(
        "body",
        vec![
            ("timestamp", time(1672531210, 7)),
            ("observed_timestamp", time(-1, 0)),
            ("trace_id", Value::Bytes((0..16).collect())),
            ("span_id", Value::Bytes((100..108).collect())),
            ("severity_text", Value::Bytes(vec![b'W', 0xFF])),
            ("severity_number", Value::Integer(-3)),
            ("flags", Value::Integer(0x1_0000_0005)),
            ("dropped_attributes_count", Value::Integer(-1)),
        ],
    )]);
    let record = &request.resource_logs[0].scope_logs[0].log_records[0];
    assert_eq!(record.time_unix_nano, 1672531210000000007);
    assert_eq!(record.observed_time_unix_nano, (-1000000000i64) as u64);
    assert_eq!(record.trace_id, (0..16).collect::<Vec<u8>>());
    assert_eq!(record.span_id, (100..108).collect::<Vec<u8>>());
    assert_eq!(record.severity_text, "W\u{FFFD}");
    assert_eq!(record.severity_number, -3);
    assert_eq!(record.flags, 5);
    assert_eq!(record.dropped_attributes_count, u32::MAX);
    assert!(record.attributes.is_empty());
    assert_eq!(request.resource_logs[0].schema_url, "");
    assert!(request.resource_logs[0].scope_logs[0].scope.is_none());
}

#[test]
fn identifiers_of_other_lengths_and_kinds_are_left_out() {
    let encoder = OtlpEncoder::new_default();
    let record = encoder.convert_log_event_to_log_record(log(
        "m",
        vec![("trace_id", text("0102")), ("span_id", Value::Integer(7))],
    ));
    assert!(record.trace_id.is_empty());
    assert!(record.span_id.is_empty());
    // Sixteen characters are taken as they are, even where they are digits
    let record = encoder.convert_log_event_to_log_record(log(
        "m",
        vec![("trace_id", text("0123456789abcdef")), ("span_id", text("0B9E4BDA2A55530D"))],
    ));
    assert_eq!(record.trace_id, b"0123456789abcdef".to_vec());
    assert_eq!(record.span_id, hex::decode("0b9e4bda2a55530d").unwrap());
}

#[test]
fn times_that_nanoseconds_cannot_tell_are_zero() {
    let encoder = OtlpEncoder::new_default();
    let record = encoder.convert_log_event_to_log_record(log(
        "m",
        vec![("timestamp", time(9223372037, 0)), ("observed_timestamp", text("now"))],
    ));
    assert_eq!(record.time_unix_nano, 0);
    assert_eq!(record.observed_time_unix_nano, 0);
}

#[test]
fn messages_and_times_are_read_where_the_event_says() {
    let encoder = OtlpEncoder::new_default();
    let mut event = log(
        "ignored",
        vec![(
            "inner",
            Value::Object(object(vec![("text", Value::Integer(3)), ("at", time(2, 0))])),
        )],
    );
    event.message_path = Some(vec!["inner".to_string(), "text".to_string()]);
    event.timestamp_path = Some(vec!["inner".to_string(), "at".to_string()]);
    let record = encoder.convert_log_event_to_log_record(event);
    assert!(matches!(record.body.as_ref().unwrap().value, Some(PbValue::IntValue(3))));
    assert_eq!(record.time_unix_nano, 2000000000);

    let mut event = log("ignored", vec![]);
    event.message_path = None;
    event.timestamp_path = Some(vec!["message".to_string(), "none".to_string()]);
    let record = encoder.convert_log_event_to_log_record(event);
    assert!(record.body.is_none());
    assert_eq!(record.time_unix_nano, 0);
}

#[test]
fn event_without_fields_has_an_empty_record() {
    let encoder = OtlpEncoder::new_default();
    let record = encoder.convert_log_event_to_log_record(LogEvent::new(text("just text")));
    assert!(record.body.is_none());
    assert!(record.attributes.is_empty());
}

#[test]
fn resource_fields_do_not_come_back_as_attributes() {
    let request = decode(vec![
        log(
            "one",
            vec![
                ("resource", Value::Object(object(vec![("a", Value::Integer(1))]))),
                ("resources", Value::Object(object(vec![("b", Value::Integer(2))]))),
                ("c", Value::Integer(3)),
            ],
        ),
        log("two", vec![("resource", text("kept")), ("resources", text("dropped"))]),
    ]);
    let keys = |attributes: &[Attribute]| -> Vec<String> {
        attributes.iter().map(|kv| kv.key.clone()).collect()
    };
    let first = &request.resource_logs[0];
    assert_eq!(keys(&first.resource.as_ref().unwrap().attributes), vec!["a", "b"]);
    assert_eq!(keys(&first.scope_logs[0].log_records[0].attributes), vec!["c"]);
    let second = &request.resource_logs[1];
    assert!(second.resource.as_ref().unwrap().attributes.is_empty());
    assert_eq!(keys(&second.scope_logs[0].log_records[0].attributes), vec!["resource"]);
}

#[test]
fn payload_of_two_batches_is_the_two_payloads_in_a_row() {
    let encoder = OtlpEncoder::new_default();
    let event = |name: &str| {
        let resource = object(vec![("service.name", text(name))]);
        Event::Log(log(name, vec![("resources", Value::Object(resource))]))
    };
    let mut one = encoder.encode_logs(vec![event("x"), event("y"), event("x")]).unwrap();
    let two = encoder.encode_logs(vec![event("z")]).unwrap();
    let both =
        encoder.encode_logs(vec![event("x"), event("y"), event("x"), event("z")]).unwrap();
    one.extend_from_slice(&two);
    assert_eq!(one, both);
}
