use opentelemetry_proto::tonic::collector::logs::v1::ExportLogsServiceRequest;
use opentelemetry_proto::tonic::collector::metrics::v1::ExportMetricsServiceRequest;
use opentelemetry_proto::tonic::collector::trace::v1::ExportTraceServiceRequest;
use opentelemetry_proto::tonic::common::v1::any_value::Value as PbValue;
use opentelemetry_proto::tonic::resource::v1::Resource;
use opentelemetry_sink::config::OpenTelemetryConfig;
use opentelemetry_sink::convert::convert_value_to_any_value;
use opentelemetry_sink::encoder::OtlpEncoder;
use opentelemetry_sink::event::{Event, LogEvent, TraceEvent};
use opentelemetry_sink::metric::{Metric, MetricKind, MetricTags, MetricValue};
use opentelemetry_sink::same::same_value;
use opentelemetry_sink::totals::MetricSet;
use opentelemetry_sink::value::{Double, ObjectMap, Value};
use prost::Message;

fn text(s: &str) -> Value {
    Value::from_text(s)
}

fn double(x: f64) -> Double {
    Double { bits: x.to_bits() }
}

fn object(entries: Vec<(&str, Value)>) -> ObjectMap {
    let mut map = ObjectMap::new();
    for (name, value) in entries {
        map.insert(name.to_string(), value);
    }
    map
}

fn log(message: String, own: Vec<(&str, Value)>, resource: [&str; 4]) -> Event {
    let mut fields = object(own);
    fields.insert("message".to_string(), text(&message));
    let resource = object(vec![
        ("service.name", text(resource[0])),
        ("service.version", text(resource[1])),
        ("deployment.environment", text(resource[2])),
        ("host.name", text(resource[3])),
    ]);
    fields.insert("resource".to_string(), Value::Object(resource));
    Event::Log(LogEvent::new(Value::Object(fields)))
}

fn metric(name: String, value: MetricValue, tag: (&str, String), resource: [&str; 4]) -> Event {
    let mut tags = MetricTags::new();
    tags.replace(tag.0.to_string(), tag.1);
    tags.replace("resources.\"service.name\"".to_string(), resource[0].to_string());
    tags.replace("resources.\"service.version\"".to_string(), resource[1].to_string());
    tags.replace("resources.\"deployment.environment\"".to_string(), resource[2].to_string());
    tags.replace("resources.\"host.name\"".to_string(), resource[3].to_string());
    Event::Metric(Metric::new(&name, MetricKind::Absolute, value).with_tags(Some(tags)))
}

fn trace(fields: Vec<(&str, Value)>, resource: [&str; 4]) -> Event {
    let mut fields = object(fields);
    fields.insert("resources.\"service.name\"".to_string(), text(resource[0]));
    fields.insert("resources.\"service.version\"".to_string(), text(resource[1]));
    fields.insert("resources.\"deployment.environment\"".to_string(), text(resource[2]));
    fields.insert("resources.\"host.name\"".to_string(), text(resource[3]));
    Event::Trace(TraceEvent::new(fields))
}

fn is_service(resource: &Option<Resource>, name: &str) -> bool {
    resource.as_ref().unwrap().attributes.iter().any(|attr| {
        attr.key == "service.name"
            && matches!(
                attr.value.as_ref().unwrap().value.as_ref().unwrap(),
                PbValue::StringValue(s) if s == name
            )
    })
}

const A: [&str; 4] = ["service-a", "1.0.0", "production", "host-1"];
const B: [&str; 4] = ["service-b", "2.1.0", "staging", "host-2"];
const C: [&str; 4] = ["service-c", "3.0.0", "development", "host-3"];

#[test]
fn test_mixed_signal_resource_attribute_grouping() {
    let encoder = OtlpEncoder::new_default();
    let mut logs = Vec::new();
    let mut metrics = Vec::new();
    let mut traces = Vec::new();
    for i in 0..3 {
        logs.push(log(
            format!("Log message {} from service A", i),
            vec![("level", text("info")), ("user_id", Value::Integer(i))],
            A,
        ));
    }
    for i in 0..2 {
        logs.push(log(
            format!("Log message {} from service B", i),
            vec![("level", text("warn")), ("error_code", Value::Integer(500 + i))],
            B,
        ));
    }
    for i in 0..2 {
        metrics.push(metric(
            format!("counter_a_{}", i),
            MetricValue::Counter { value: double((i + 1) as f64 * 10.0) },
            ("endpoint", format!("/api/v{}", i + 1)),
            A,
        ));
    }
    metrics.push(metric(
        format!("gauge_c_{}", 0),
        MetricValue::Gauge { value: double(42.5) },
        ("region", "us-west-2".to_string()),
        C,
    ));
    for i in 0..2i64 {
        traces.push(trace(
            vec![
                ("trace_id", text(&format!("{:032x}", i + 100))),
                ("span_id", text(&format!("{:016x}", i + 10))),
                ("name", text(&format!("span_a_{}", i))),
                ("kind", Value::Integer(1)),
                ("start_time_unix_nano", Value::Integer(1234567890000000000 + i * 1000000)),
                ("end_time_unix_nano", Value::Integer(1234567891000000000 + i * 1000000)),
                (
                    "attributes",
                    Value::Object(object(vec![("operation", text(&format!("op_{}", i)))])),
                ),
            ],
            A,
        ));
    }
    traces.push(trace(
        vec![
            ("trace_id", text(&format!("{:032x}", 200))),
            ("span_id", text(&format!("{:016x}", 20))),
            ("name", text("span_b_0")),
            ("kind", Value::Integer(2)),
            ("start_time_unix_nano", Value::Integer(1234567892000000000)),
            ("end_time_unix_nano", Value::Integer(1234567893000000000)),
            ("attributes", Value::Object(object(vec![("http.method", text("POST"))]))),
        ],
        B,
    ));

    let result = encoder.encode_logs(logs).unwrap();
    let request = ExportLogsServiceRequest::decode(result.as_slice()).unwrap();
    assert_eq!(request.resource_logs.len(), 2, "Should have 2 log resource groups");
    let records = |name: &str| -> usize {
        request
            .resource_logs
            .iter()
            .find(|rl| is_service(&rl.resource, name))
            .expect("Should find the logs of the service")
            .scope_logs
            .iter()
            .map(|sl| sl.log_records.len())
            .sum()
    };
    assert_eq!(records("service-a"), 3, "Service A should have 3 log records");
    assert_eq!(records("service-b"), 2, "Service B should have 2 log records");

    let result = encoder.encode_metrics(&mut MetricSet::new(), metrics).unwrap();
    let request = ExportMetricsServiceRequest::decode(result.as_slice()).unwrap();
    assert_eq!(request.resource_metrics.len(), 2, "Should have 2 metric resource groups");
    let points = |name: &str| -> usize {
        request
            .resource_metrics
            .iter()
            .find(|rm| is_service(&rm.resource, name))
            .expect("Should find the metrics of the service")
            .scope_metrics
            .iter()
            .map(|sm| sm.metrics.len())
            .sum()
    };
    assert_eq!(points("service-a"), 2, "Service A should have 2 metrics");
    assert_eq!(points("service-c"), 1, "Service C should have 1 metric");

    let result = encoder.encode_traces(traces).unwrap();
    let request = ExportTraceServiceRequest::decode(result.as_slice()).unwrap();
    assert_eq!(request.resource_spans.len(), 2, "Should have 2 trace resource groups");
    let spans = |name: &str| -> usize {
        request
            .resource_spans
            .iter()
            .find(|rs| is_service(&rs.resource, name))
            .expect("Should find the spans of the service")
            .scope_spans
            .iter()
            .map(|ss| ss.spans.len())
            .sum()
    };
    assert_eq!(spans("service-a"), 2, "Service A should have 2 spans");
    assert_eq!(spans("service-b"), 1, "Service B should have 1 span");
}

#[test]
fn groups_and_their_events_keep_their_order() {
    let events = [("1", B), ("2", A), ("3", B), ("4", C), ("5", A), ("6", B)]
        .into_iter()
        .map(|(message, resource)| log(message.to_string(), vec![], resource))
        .collect();
    let result = OtlpEncoder::new_default().encode_logs(events).unwrap();
    let request = ExportLogsServiceRequest::decode(result.as_slice()).unwrap();
    let messages: Vec<Vec<String>> = request
        .resource_logs
        .iter()
        .map(|group| {
            assert_eq!(group.scope_logs.len(), 1);
            group.scope_logs[0]
                .log_records
                .iter()
                .map(|record| match &record.body.as_ref().unwrap().value {
                    Some(PbValue::StringValue(text)) => text.clone(),
                    _ => panic!("Expected a text"),
                })
                .collect()
        })
        .collect();
    assert_eq!(messages, vec![vec!["1", "3", "6"], vec!["2", "5"], vec!["4"]]);
}

#[test]
fn metrics_without_a_resource_stand_alone() {
    let plain = |name: &str| {
        Event::Metric(Metric::new(
            name,
            MetricKind::Absolute,
            MetricValue::Gauge { value: double(1.0) },
        ))
    };
    let mut config = OpenTelemetryConfig::default();
    config.otlp.service_name = Some("s".to_string());
    for encoder in [OtlpEncoder::new_default(), OtlpEncoder::new(&config)] {
        let result = encoder
            .encode_metrics(&mut MetricSet::new(), vec![plain("a"), plain("b")]).unwrap();
        let request = ExportMetricsServiceRequest::decode(result.as_slice()).unwrap();
        assert_eq!(request.resource_metrics.len(), 2);
    }
}

#[test]
fn settings_bring_resources_together() {
    let named = |name: &str| {
        let resource = object(vec![("service.name", text(name))]);
        let fields = object(vec![("resources", Value::Object(resource))]);
        Event::Log(LogEvent::new(Value::Object(fields)))
    };
    let mut config = OpenTelemetryConfig::default();
    config.otlp.service_name = Some("s".to_string());
    let result = OtlpEncoder::new(&config).encode_logs(vec![named("a"), named("b")]).unwrap();
    let request = ExportLogsServiceRequest::decode(result.as_slice()).unwrap();
    assert_eq!(request.resource_logs.len(), 1);
    assert_eq!(request.resource_logs[0].scope_logs[0].log_records.len(), 2);
}

#[test]
fn values_are_the_same_where_all_of_them_is() {
    let values = || {
        vec![
            Value::Null,
            Value::Boolean(true),
            Value::Boolean(false),
            Value::Integer(1),
            Value::Float(double(1.0)),
            Value::Float(double(0.0)),
            Value::Float(double(-0.0)),
            text("1"),
            text(""),
            Value::Bytes(vec![0xFF]),
            Value::Bytes(vec![0xFF, 0xFE]),
            Value::Array(vec![]),
            Value::Array(vec![Value::Integer(1), Value::Null]),
            Value::Array(vec![Value::Integer(1), Value::Integer(2)]),
            Value::Object(object(vec![])),
            Value::Object(object(vec![("a", Value::Integer(1))])),
            Value::Object(object(vec![("b", Value::Integer(1))])),
            Value::Object(object(vec![("a", Value::Integer(2))])),
        ]
    };
    for (i, a) in values().iter().enumerate() {
        for (j, b) in values().iter().enumerate() {
            let same = same_value(&convert_value_to_any_value(a), &convert_value_to_any_value(b));
            assert_eq!(same, i == j, "{} {}", i, j);
        }
    }
}

#[test]
fn other_names_tell_no_resource() {
    let mut tags = MetricTags::new();
    for name in ["resources.a", "resources.\"a", "resources.\"", "resource", "x.resource.a"] {
        tags.replace(name.to_string(), "v".to_string());
    }
    tags.replace("resources.\"a.b\"".to_string(), "w".to_string());
    tags.replace("resource.\"c\"".to_string(), "x".to_string());
    let event = Event::Metric(
        Metric::new("m", MetricKind::Absolute, MetricValue::Gauge { value: double(1.0) })
            .with_tags(Some(tags)),
    );
    let result = OtlpEncoder::new_default()
        .encode_metrics(&mut MetricSet::new(), vec![event]).unwrap();
    let request = ExportMetricsServiceRequest::decode(result.as_slice()).unwrap();
    let resource = request.resource_metrics[0].resource.as_ref().unwrap();
    let keys: Vec<&str> = resource.attributes.iter().map(|attr| attr.key.as_str()).collect();
    assert_eq!(keys, vec!["\"c\"", "a.b"]);
}

#[test]
fn logs_and_traces_without_a_resource_stand_alone() {
    let encoder = OtlpEncoder::new_default();
    let plain = || Event::Log(LogEvent::new(Value::Object(object(vec![("a", text("b"))]))));
    let result = encoder.encode_logs(vec![plain(), plain()]).unwrap();
    let request = ExportLogsServiceRequest::decode(result.as_slice()).unwrap();
    assert_eq!(request.resource_logs.len(), 2);
    assert_eq!(request.resource_logs[1].scope_logs[0].log_records.len(), 1);
    let plain = || Event::Trace(TraceEvent::new(object(vec![("name", text("s"))])));
    let result = encoder.encode_traces(vec![plain(), plain()]).unwrap();
    let request = ExportTraceServiceRequest::decode(result.as_slice()).unwrap();
    assert_eq!(request.resource_spans.len(), 2);
    assert_eq!(request.resource_spans[1].scope_spans[0].spans.len(), 1);
}
