use opentelemetry_proto::tonic::collector::trace::v1::ExportTraceServiceRequest;
use opentelemetry_proto::tonic::common::v1::any_value::Value as AnyKind;
use opentelemetry_proto::tonic::trace::v1::span::SpanKind as ProtoKind;
use opentelemetry_proto::tonic::trace::v1::Span as ProtoSpan;
use opentelemetry_sink::encoder::OtlpEncoder;
use opentelemetry_sink::event::{Event, TraceEvent};
use opentelemetry_sink::proto::SpanKind;
use opentelemetry_sink::totals::MetricSet;
use opentelemetry_sink::traces::{
    convert_value_to_span_event, convert_value_to_span_link, convert_vector_trace_to_otlp_span,
    kind_from_name, status_code_from_name,
};
use opentelemetry_sink::value::{ObjectMap, Timestamp, Value};
use prost::Message;

fn text(s: &str) -> Value {
    Value::from_text(s)
}

fn time(nanos: i64) -> Value {
    let secs = nanos.div_euclid(1000000000);
    Value::Timestamp(Timestamp::new(secs, nanos.rem_euclid(1000000000) as u32).unwrap())
}

fn object(entries: Vec<(&str, Value)>) -> ObjectMap {
    let mut map = ObjectMap::new();
    for (name, value) in entries {
        map.insert(name.to_string(), value);
    }
    map
}

fn trace(entries: Vec<(&str, Value)>) -> TraceEvent {
    TraceEvent::new(object(entries))
}

fn decode(entries: Vec<(&str, Value)>) -> ProtoSpan {
    let bytes = OtlpEncoder::new_default()
        .encode_input(&mut MetricSet::new(), vec![Event::Trace(trace(entries))]);
    let mut request = ExportTraceServiceRequest::decode(bytes.as_slice()).unwrap();
    request.resource_spans.remove(0).scope_spans.remove(0).spans.remove(0)
}

fn check_full_trace() {
    let span = decode(vec![
        ("trace_id", text("7b5a5a5a5a5a5a5a7b5a5a5a5a5a5a5a")),
        ("span_id", text("7b5a5a5a5a5a5a5b")),
        ("parent_span_id", text("7b5a5a5a5a5a5a5c")),
        ("name", text("test-span")),
        ("timestamp", time(1672531210000000000)),
        ("duration_ns", Value::Integer(1_000_000_000)),
        ("kind", text("server")),
        (
            "tags",
            Value::Object(object(vec![
                ("http.method", text("GET")),
                ("otel.status_code", text("Error")),
                ("error", text("something went wrong")),
            ])),
        ),
        (
            "events",
            Value::Array(vec![Value::Object(object(vec![
                ("name", text("test-event")),
                ("timestamp", time(1672531209500000000)),
            ]))]),
        ),
    ]);
    assert_eq!(hex::encode(&span.trace_id), "7b5a5a5a5a5a5a5a7b5a5a5a5a5a5a5a");
    assert_eq!(hex::encode(&span.span_id), "7b5a5a5a5a5a5a5b");
    assert_eq!(hex::encode(&span.parent_span_id), "7b5a5a5a5a5a5a5c");
    assert_eq!(span.name, "test-span");
    assert_eq!(span.end_time_unix_nano, 1672531210000000000);
    assert_eq!(span.start_time_unix_nano, 1672531209000000000);
    assert_eq!(span.kind, ProtoKind::Server as i32);
    let status = span.status.as_ref().unwrap();
    assert_eq!(status.code, 2);
    assert_eq!(status.message, "something went wrong");
    assert_eq!(span.events.len(), 1);
    assert_eq!(span.events[0].name, "test-event");
    assert_eq!(span.events[0].time_unix_nano, 1672531209500000000);
    let method = span.attributes.iter().find(|attr| attr.key == "http.method").unwrap();
    assert_eq!(
        method.value.as_ref().unwrap().value,
        Some(AnyKind::StringValue("GET".to_string()))
    );
    assert_eq!(span.attributes.len(), 1);
}

#[test]
fn encoder_test_full_trace_conversion() {
    check_full_trace();
}

#[test]
fn traces_test_full_trace_conversion() {
    check_full_trace();
}

fn test_trace() -> Vec<(&'static str, Value)> {
    vec![
        ("trace_id", text("0102030405060708090a0b0c0d0e0f10")),
        ("span_id", text("0102030405060708")),
        ("parent_span_id", text("")),
        ("name", text("test_span")),
        ("kind", Value::Integer(1)),
        ("start_time_unix_nano", time(1234567890000000000)),
        ("end_time_unix_nano", time(1234567891000000000)),
        ("attributes", Value::Object(object(vec![]))),
        ("dropped_attributes_count", Value::Integer(0)),
        ("events", Value::Array(vec![])),
        ("dropped_events_count", Value::Integer(0)),
        ("links", Value::Array(vec![])),
        ("dropped_links_count", Value::Integer(0)),
    ]
}

#[test]
fn test_encode_traces_basic() {
    let events = vec![Event::Trace(trace(test_trace()))];
    let bytes = OtlpEncoder::new_default().encode_traces(events).unwrap();
    assert!(!bytes.is_empty());
    let request = ExportTraceServiceRequest::decode(bytes.as_slice()).unwrap();
    assert_eq!(request.resource_spans.len(), 1);
    assert_eq!(request.resource_spans[0].scope_spans.len(), 1);
    assert_eq!(request.resource_spans[0].scope_spans[0].spans.len(), 1);
    let span = &request.resource_spans[0].scope_spans[0].spans[0];
    assert_eq!(span.name, "test_span");
    assert_eq!(hex::encode(&span.trace_id), "0102030405060708090a0b0c0d0e0f10");
    assert_eq!(hex::encode(&span.span_id), "0102030405060708");
    assert_eq!(span.kind, 1);
    assert!(span.end_time_unix_nano > span.start_time_unix_nano);
    assert!(span.start_time_unix_nano > 0);
}

#[test]
fn test_encode_traces_with_attributes() {
    let span = decode(vec![
        ("trace_id", text("0102030405060708090a0b0c0d0e0f10")),
        ("span_id", text("0102030405060708")),
        ("name", text("test_span")),
        ("kind", Value::Integer(1)),
        ("start_time_unix_nano", time(1234567890000000000)),
        ("end_time_unix_nano", time(1234567891000000000)),
        (
            "attributes",
            Value::Object(object(vec![
                ("http.method", text("GET")),
                ("http.status_code", Value::Integer(200)),
            ])),
        ),
    ]);
    assert_eq!(span.attributes.len(), 2);
    let method = span.attributes.iter().find(|attr| attr.key == "http.method").unwrap();
    assert_eq!(
        method.value.as_ref().unwrap().value,
        Some(AnyKind::StringValue("GET".to_string()))
    );
}

#[test]
fn test_encode_traces_with_events() {
    let span = decode(vec![
        ("trace_id", text("0102030405060708090a0b0c0d0e0f10")),
        ("span_id", text("0102030405060708")),
        ("name", text("test_span")),
        (
            "events",
            Value::Array(vec![Value::Object(object(vec![
                ("name", text("test_event")),
                ("time_unix_nano", time(1234567890500000000)),
                ("attributes", Value::Object(object(vec![]))),
                ("dropped_attributes_count", Value::Integer(0)),
            ]))]),
        ),
    ]);
    assert_eq!(span.events.len(), 1);
    assert_eq!(span.events[0].name, "test_event");
}

#[test]
fn whole_span_is_decoded_as_it_was_encoded() {
    let span = decode(vec![
        ("trace_state", text("k=v")),
        ("kind", text("PrOdUcEr")),
        ("start_time_unix_nano", Value::Integer(5)),
        ("end_time_unix_nano", Value::Integer(-1)),
        ("dropped_attributes_count", Value::Integer(1)),
        ("dropped_events_count", Value::Integer(2)),
        ("dropped_links_count", Value::Integer(3)),
        (
            "tags",
            Value::Object(object(vec![
                ("error", text("first")),
                ("otel.status_code", text("OK")),
                ("t", Value::Integer(1)),
            ])),
        ),
        (
            "attributes",
            Value::Object(object(vec![
                ("a", Value::Integer(2)),
                ("error", text("second")),
                ("otel.status_code", text("what")),
            ])),
        ),
        (
            "events",
            Value::Array(vec![
                text("no object"),
                Value::Object(object(vec![("time_unix_nano", Value::Integer(1))])),
                Value::Object(object(vec![
                    ("name", text("e")),
                    ("time_unix_nano", Value::Integer(9)),
                    ("attributes", Value::Object(object(vec![("x", Value::Boolean(true))]))),
                    ("dropped_attributes_count", Value::Integer(4)),
                ])),
            ]),
        ),
        (
            "links",
            Value::Array(vec![
                Value::Object(object(vec![("trace_id", text("0a"))])),
                Value::Object(object(vec![
                    ("trace_id", text("0a0B")),
                    ("span_id", text("zz")),
                    ("trace_state", text("s")),
                    ("attributes", Value::Object(object(vec![("y", Value::Null)]))),
                    ("dropped_attributes_count", Value::Integer(5)),
                ])),
            ]),
        ),
    ]);
    assert!(span.trace_id.is_empty());
    assert_eq!(span.trace_state, "k=v");
    assert_eq!(span.name, "unknown");
    assert_eq!(span.kind, ProtoKind::Producer as i32);
    assert_eq!(span.start_time_unix_nano, 5);
    assert_eq!(span.end_time_unix_nano, u64::MAX);
    assert_eq!(span.dropped_attributes_count, 1);
    assert_eq!(span.dropped_events_count, 2);
    assert_eq!(span.dropped_links_count, 3);
    let keys: Vec<&str> = span.attributes.iter().map(|kv| kv.key.as_str()).collect();
    assert_eq!(keys, vec!["t", "a"]);
    let status = span.status.as_ref().unwrap();
    assert_eq!(status.code, 0);
    assert_eq!(status.message, "second");
    assert_eq!(span.events.len(), 1);
    assert_eq!(span.events[0].name, "e");
    assert_eq!(span.events[0].time_unix_nano, 9);
    assert_eq!(span.events[0].attributes.len(), 1);
    assert_eq!(span.events[0].dropped_attributes_count, 4);
    assert_eq!(span.links.len(), 1);
    assert_eq!(span.links[0].trace_id, vec![0x0A, 0x0B]);
    assert!(span.links[0].span_id.is_empty());
    assert_eq!(span.links[0].trace_state, "s");
    assert_eq!(span.links[0].attributes.len(), 1);
    assert_eq!(span.links[0].dropped_attributes_count, 5);
}

#[test]
fn successful_span_has_no_status() {
    let span = convert_vector_trace_to_otlp_span(&trace(vec![(
        "tags",
        Value::Object(object(vec![
            ("otel.status_code", text("ok")),
            ("error", Value::Boolean(true)),
        ])),
    )]));
    assert!(span.status.is_none());
    assert!(span.attributes.is_empty());
}

#[test]
fn status_code_of_the_tags_counts_where_the_attributes_have_none() {
    let span = convert_vector_trace_to_otlp_span(&trace(vec![
        ("tags", Value::Object(object(vec![("otel.status_code", text("ERROR"))]))),
        ("attributes", Value::Object(object(vec![("otel.status_code", Value::Integer(1))]))),
    ]));
    assert_eq!(span.status.as_ref().unwrap().code, 2);
    assert_eq!(span.status.as_ref().unwrap().message, "");
}

#[test]
fn start_is_worked_out_from_the_duration() {
    let times = |entries: Vec<(&str, Value)>| {
        let span = convert_vector_trace_to_otlp_span(&trace(entries));
        (span.start_time_unix_nano, span.end_time_unix_nano)
    };
    assert_eq!(
        times(vec![("timestamp", time(100)), ("duration_ns", Value::Integer(30))]),
        (70, 100)
    );
    // A duration beyond the epoch ends there
    assert_eq!(
        times(vec![("timestamp", time(100)), ("duration_ns", Value::Integer(101))]),
        (0, 100)
    );
    assert_eq!(times(vec![("timestamp", time(100))]), (0, 100));
    assert_eq!(times(vec![("duration_ns", Value::Integer(30))]), (0, 0));
    assert_eq!(
        times(vec![("end_time_unix_nano", text("x")), ("timestamp", Value::Integer(9))]),
        (0, 0)
    );
    // The time of an `end_time_unix_nano` that nanoseconds cannot tell is passed over
    let far = Value::Timestamp(Timestamp::new(8210266876799, 0).unwrap());
    assert_eq!(times(vec![("end_time_unix_nano", far), ("timestamp", time(7))]), (0, 7));
}

#[test]
fn kinds_and_status_codes_have_names() {
    for (name, kind) in [
        ("server", SpanKind::Server),
        ("client", SpanKind::Client),
        ("producer", SpanKind::Producer),
        ("consumer", SpanKind::Consumer),
        ("internal", SpanKind::Internal),
        ("other", SpanKind::Internal),
        ("", SpanKind::Internal),
    ] {
        assert_eq!(kind_from_name(name), kind);
    }
    assert_eq!(SpanKind::Internal.number(), ProtoKind::Internal as i32);
    assert_eq!(SpanKind::Server.number(), ProtoKind::Server as i32);
    assert_eq!(SpanKind::Client.number(), ProtoKind::Client as i32);
    assert_eq!(SpanKind::Producer.number(), ProtoKind::Producer as i32);
    assert_eq!(SpanKind::Consumer.number(), ProtoKind::Consumer as i32);
    assert_eq!(status_code_from_name("error"), 2);
    assert_eq!(status_code_from_name("ok"), 1);
    assert_eq!(status_code_from_name("unset"), 0);
}

#[test]
fn kelvin_sign_is_lowered_as_unicode_says() {
    // The lower case of the Kelvin sign is the letter k
    let span = convert_vector_trace_to_otlp_span(&trace(vec![(
        "tags",
        Value::Object(object(vec![("otel.status_code", text("O\u{212A}"))])),
    )]));
    assert!(span.status.is_none());
}

#[test]
fn span_events_and_links_need_their_names() {
    assert!(convert_value_to_span_event(&text("x")).is_none());
    assert!(convert_value_to_span_event(&Value::Object(object(vec![]))).is_none());
    assert!(convert_value_to_span_link(&Value::Null).is_none());
    let half = Value::Object(object(vec![("span_id", text("00"))]));
    assert!(convert_value_to_span_link(&half).is_none());
    let event = convert_value_to_span_event(&Value::Object(object(vec![
        ("name", text("n")),
        ("timestamp", time(3)),
        ("time_unix_nano", Value::Integer(4)),
    ])));
    assert_eq!(event.unwrap().time_unix_nano, 3);
}

#[test]
fn traces_payload_of_two_batches_is_the_two_payloads_in_a_row() {
    let encoder = OtlpEncoder::new_default();
    let event = |name: &str| Event::Trace(trace(vec![("resource.service.name", text(name))]));
    let mut one = encoder.encode_traces(vec![event("x"), event("y")]).unwrap();
    let two = encoder.encode_traces(vec![event("z")]).unwrap();
    let both = encoder.encode_traces(vec![event("x"), event("y"), event("z")]).unwrap();
    one.extend_from_slice(&two);
    assert_eq!(one, both);
}
