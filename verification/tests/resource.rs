use opentelemetry_proto::tonic::collector::logs::v1::ExportLogsServiceRequest;
use opentelemetry_proto::tonic::collector::metrics::v1::ExportMetricsServiceRequest;
use opentelemetry_proto::tonic::collector::trace::v1::ExportTraceServiceRequest;
use opentelemetry_proto::tonic::common::v1::any_value::Value as AnyKind;
use opentelemetry_proto::tonic::common::v1::KeyValue as Attribute;
use opentelemetry_sink::config::OpenTelemetryConfig;
use opentelemetry_sink::encoder::OtlpEncoder;
use opentelemetry_sink::event::{Event, LogEvent, TraceEvent};
use opentelemetry_sink::metric::{Metric, MetricKind, MetricTags, MetricValue};
use opentelemetry_sink::metrics::make_text_pair;
use opentelemetry_sink::proto::{KeyValue, PbValue};
use opentelemetry_sink::resource::ResourceAttributeExtractor;
use opentelemetry_sink::settings::ResourceSettings;
use opentelemetry_sink::totals::MetricSet;
use opentelemetry_sink::value::{Double, ObjectMap, Timestamp, Value};
use prost::Message;
use std::collections::HashMap;

fn text(s: &str) -> Value {
    Value::from_text(s)
}

fn object(entries: Vec<(&str, Value)>) -> ObjectMap {
    let mut map = ObjectMap::new();
    for (name, value) in entries {
        map.insert(name.to_string(), value);
    }
    map
}

fn log(message: &str, entries: Vec<(&str, Value)>) -> LogEvent {
    let time = Value::Timestamp(Timestamp::new(1700000000, 0).unwrap());
    let mut map = object(vec![("message", text(message)), ("timestamp", time)]);
    for (name, value) in entries {
        map.insert(name.to_string(), value);
    }
    LogEvent::new(Value::Object(map))
}

fn present(log: &LogEvent, path: &[&str]) -> bool {
    log.get(&path.iter().map(|s| s.to_string()).collect()).is_some()
}

fn counter(name: &str, kind: MetricKind) -> Metric {
    Metric::new(name, kind, MetricValue::Counter { value: Double { bits: 1.0f64.to_bits() } })
}

fn string_of(key: &str, attributes: &[KeyValue]) -> Option<String> {
    let pair = attributes.iter().find(|attr| attr.key == key)?;
    match &pair.value.as_ref()?.value {
        Some(PbValue::StringValue(s)) => Some(s.clone()),
        _ => None,
    }
}

fn strings(attributes: &[Attribute]) -> HashMap<String, String> {
    attributes
        .iter()
        .map(|kv| match kv.value.as_ref().unwrap().value.as_ref().unwrap() {
            AnyKind::StringValue(s) => (kv.key.clone(), s.clone()),
            _ => (kv.key.clone(), "".to_string()),
        })
        .collect()
}

#[test]
fn test_metric_resource_extraction() {
    let mut tags = MetricTags::new();
    tags.replace("resource.service.name".to_string(), "test-service".to_string());
    tags.replace("resource.deployment.environment".to_string(), "production".to_string());
    tags.replace("resource.host.name".to_string(), "test-host".to_string());
    tags.replace("normal.tag".to_string(), "normal-value".to_string());
    let metric = counter("test_counter", MetricKind::Incremental).with_tags(Some(tags));
    let bytes = OtlpEncoder::new_default()
        .encode_metrics(&mut MetricSet::new(), vec![Event::Metric(metric)]).unwrap();
    let request = ExportMetricsServiceRequest::decode(bytes.as_slice()).unwrap();
    let resource = request.resource_metrics[0].resource.as_ref().unwrap();
    let attributes = strings(&resource.attributes);
    assert_eq!(attributes.get("service.name"), Some(&"test-service".to_string()));
    assert_eq!(attributes.get("deployment.environment"), Some(&"production".to_string()));
    assert_eq!(attributes.get("host.name"), Some(&"test-host".to_string()));
    assert!(!attributes.contains_key("normal.tag"));
}

#[test]
fn test_trace_resource_extraction() {
    let trace = TraceEvent::new(object(vec![
        ("trace_id", text("test_trace_id")),
        ("span_id", text("test_span_id")),
        ("name", text("test_span")),
        ("resource.service.name", text("trace-service")),
        ("resource.service.version", text("1.0.0")),
        ("resource.k8s.cluster", text("test-cluster")),
    ]));
    let bytes = OtlpEncoder::new_default().encode_traces(vec![Event::Trace(trace)]).unwrap();
    let request = ExportTraceServiceRequest::decode(bytes.as_slice()).unwrap();
    let resource = request.resource_spans[0].resource.as_ref().unwrap();
    let attributes = strings(&resource.attributes);
    assert_eq!(attributes.get("service.name"), Some(&"trace-service".to_string()));
    assert_eq!(attributes.get("service.version"), Some(&"1.0.0".to_string()));
    assert_eq!(attributes.get("k8s.cluster"), Some(&"test-cluster".to_string()));
}

#[test]
fn test_resource_attribute_extractor_trait_logs() {
    let mut log = log(
        "test message",
        vec![
            (
                "resource",
                Value::Object(object(vec![
                    ("service", Value::Object(object(vec![("name", text("test-service"))]))),
                    ("environment", text("production")),
                ])),
            ),
            ("normal_field", text("normal_value")),
        ],
    );
    let attributes = log.extract_resource_attributes();
    assert_eq!(attributes.len(), 2);
    assert_eq!(string_of("service.name", &attributes), Some("test-service".to_string()));
    assert!(present(&log, &["resource", "service", "name"]));
    assert!(present(&log, &["resource", "environment"]));
    assert!(present(&log, &["normal_field"]));
}

#[test]
fn test_resource_attribute_extractor_trait_metrics() {
    let mut tags = MetricTags::new();
    tags.replace("resource.service.name".to_string(), "metric-service".to_string());
    tags.replace("resource.version".to_string(), "2.0.0".to_string());
    tags.replace("normal_tag".to_string(), "normal_value".to_string());
    let mut metric = counter("test_metric", MetricKind::Absolute).with_tags(Some(tags));
    let attributes = metric.extract_resource_attributes();
    assert_eq!(attributes.len(), 2);
    assert_eq!(string_of("service.name", &attributes), Some("metric-service".to_string()));
    let tags = metric.tags.as_ref().unwrap();
    assert!(tags.contains_key("resource.service.name"));
    assert!(tags.contains_key("resource.version"));
    assert!(tags.contains_key("normal_tag"));
}

#[test]
fn test_resource_attribute_extractor_trait_traces() {
    let mut trace = TraceEvent::new(object(vec![
        ("trace_id", text("test_trace")),
        ("resource.service.name", text("trace-service")),
        ("resource.cluster", text("test-cluster")),
        ("span_name", text("test-span")),
    ]));
    let attributes = trace.extract_resource_attributes();
    assert_eq!(attributes.len(), 2);
    assert_eq!(string_of("service.name", &attributes), Some("trace-service".to_string()));
    assert!(trace.as_map().contains_key("resource.service.name"));
    assert!(trace.as_map().contains_key("resource.cluster"));
    assert!(trace.as_map().contains_key("span_name"));
}

fn check_edge_cases() {
    let mut plain = log("test", vec![]);
    assert_eq!(plain.extract_resource_attributes().len(), 0);
    let mut metric = counter("test", MetricKind::Absolute);
    assert_eq!(metric.extract_resource_attributes().len(), 0);
    let mut partial = log(
        "test",
        vec![("resource", text("not-extracted")), ("resources", text("also-not-extracted"))],
    );
    assert_eq!(partial.extract_resource_attributes().len(), 0);
    assert!(present(&partial, &["resource"]));
    assert!(present(&partial, &["resources"]));
}

#[test]
fn encoder_test_resource_attribute_edge_cases() {
    check_edge_cases();
}

#[test]
fn common_test_resource_attribute_edge_cases() {
    check_edge_cases();
}

#[test]
fn test_extract_all_resource_attributes() {
    let mut log = log(
        "test message",
        vec![
            (
                "resource",
                Value::Object(object(vec![
                    ("service.name", text("nested-service")),
                    ("version", text("1.0.0")),
                    ("environment", text("production")),
                    ("cluster", text("us-west-1")),
                ])),
            ),
            ("normal_field", text("keep_me")),
        ],
    );
    let all = log.extract_all_resource_attributes();
    assert_eq!(all.len(), 8);
    assert!(all.iter().any(|attr| attr.key == "service.name"));
    assert!(all.iter().any(|attr| attr.key == "version"));
    assert!(all.iter().any(|attr| attr.key == "environment"));
    assert!(all.iter().any(|attr| attr.key == "cluster"));
    assert!(present(&log, &["resource"]));
    assert!(present(&log, &["resource", "environment"]));
    assert!(present(&log, &["resource", "cluster"]));
    assert!(present(&log, &["normal_field"]));
}

#[test]
fn object_under_resources_is_taken_out() {
    let mut log = log(
        "m",
        vec![("resources", Value::Object(object(vec![("a", Value::Integer(1))])))],
    );
    let attributes = log.extract_resource_attributes();
    assert_eq!(attributes.len(), 1);
    assert_eq!(attributes[0].key, "a");
    assert!(!present(&log, &["resources"]));
    assert!(log.extract_resource_attributes().is_empty());
}

#[test]
fn leaves_have_dotted_names() {
    let mut log = log(
        "m",
        vec![(
            "resource",
            Value::Object(object(vec![
                (
                    "a",
                    Value::Object(object(vec![
                        ("b", Value::Object(object(vec![("c", Value::Integer(1))]))),
                        ("d", Value::Array(vec![Value::Integer(2)])),
                        ("e", Value::Object(object(vec![]))),
                    ])),
                ),
                ("f", Value::Null),
            ])),
        )],
    );
    let attributes = log.extract_resource_attributes();
    let keys: Vec<&str> = attributes.iter().map(|attr| attr.key.as_str()).collect();
    assert_eq!(keys, vec!["a.b.c", "a.d", "a.e", "f"]);
}

#[test]
fn nested_attributes_of_a_trace() {
    let keys = |entries: Vec<(&str, Value)>| -> Vec<String> {
        let mut trace = TraceEvent::new(object(entries));
        let attributes = trace.extract_all_resource_attributes();
        attributes.into_iter().map(|attr| attr.key).collect()
    };
    let inner = Value::Object(object(vec![("x", Value::Integer(1))]));
    assert_eq!(
        keys(vec![
            (
                "resource",
                Value::Object(object(vec![("attributes", inner), ("y", Value::Integer(2))])),
            ),
            ("resource.z", Value::Integer(3)),
        ]),
        vec!["x", "z"]
    );
    assert_eq!(
        keys(vec![(
            "resource",
            Value::Object(object(vec![("attributes", Value::Null), ("y", Value::Integer(2))])),
        )]),
        vec!["attributes", "y"]
    );
    assert_eq!(keys(vec![("resource", text("x"))]), Vec::<String>::new());
}

#[test]
fn tag_of_several_values_tells_its_last() {
    let mut tags = MetricTags::new();
    tags.set_values(
        "resource.a".to_string(),
        vec![Some("1".to_string()), Some("2".to_string()), None],
    );
    tags.set_values("resource.b".to_string(), vec![None]);
    tags.replace("resource".to_string(), "x".to_string());
    let mut metric = counter("m", MetricKind::Absolute).with_tags(Some(tags));
    let attributes = metric.extract_all_resource_attributes();
    assert_eq!(attributes.len(), 1);
    assert_eq!(string_of("a", &attributes), Some("2".to_string()));
}

fn configured(service_name: Option<&str>, defaults: &[(&str, &str)]) -> OtlpEncoder {
    let mut config = OpenTelemetryConfig::default();
    for (name, value) in defaults {
        config.otlp.resource_attributes.insert(name.to_string(), value.to_string());
    }
    config.otlp.service_name = service_name.map(|name| name.to_string());
    OtlpEncoder::new(&config)
}

fn log_resource(encoder: &OtlpEncoder, entries: Vec<(&str, Value)>) -> HashMap<String, String> {
    let event = Event::Log(log("m", vec![("resources", Value::Object(object(entries)))]));
    let bytes = encoder.encode_logs(vec![event]).unwrap();
    let request = ExportLogsServiceRequest::decode(bytes.as_slice()).unwrap();
    let attributes = &request.resource_logs[0].resource.as_ref().unwrap().attributes;
    let told = strings(attributes);
    assert_eq!(told.len(), attributes.len());
    told
}

#[test]
fn default_attributes_fill_in_what_events_do_not_tell() {
    let encoder = configured(None, &[("service.name", "default"), ("zone", "a")]);
    let told = log_resource(&encoder, vec![("service.name", text("own"))]);
    assert_eq!(told["service.name"], "own");
    assert_eq!(told["zone"], "a");
    assert_eq!(told.len(), 2);
    let told = log_resource(&encoder, vec![]);
    assert_eq!(told["service.name"], "default");
    assert_eq!(told["zone"], "a");
    let metric = Event::Metric(counter("c", MetricKind::Absolute));
    let bytes = encoder.encode_metrics(&mut MetricSet::new(), vec![metric]).unwrap();
    let request = ExportMetricsServiceRequest::decode(bytes.as_slice()).unwrap();
    let resource = request.resource_metrics[0].resource.as_ref().unwrap();
    assert_eq!(strings(&resource.attributes)["zone"], "a");
    let trace = Event::Trace(TraceEvent::new(object(vec![("resource.zone", text("b"))])));
    let bytes = encoder.encode_traces(vec![trace]).unwrap();
    let request = ExportTraceServiceRequest::decode(bytes.as_slice()).unwrap();
    let resource = request.resource_spans[0].resource.as_ref().unwrap();
    assert_eq!(strings(&resource.attributes)["zone"], "b");
    assert_eq!(strings(&resource.attributes)["service.name"], "default");
}

#[test]
fn configured_service_name_comes_in_place_of_any_other() {
    let encoder = configured(Some("configured"), &[("service.name", "default")]);
    let told = log_resource(&encoder, vec![("service.name", text("own")), ("zone", text("a"))]);
    assert_eq!(told["service.name"], "configured");
    assert_eq!(told["zone"], "a");
    assert_eq!(told.len(), 2);
    let told = log_resource(&encoder, vec![("service.version", text("1"))]);
    assert_eq!(told["service.name"], "configured");
    assert_eq!(told["service.version"], "1");
    let mut config = OpenTelemetryConfig::default();
    config.otlp.service_version = Some("2".to_string());
    let told = log_resource(&OtlpEncoder::new(&config), vec![("service.version", text("1"))]);
    assert_eq!(told["service.version"], "2");
    assert_eq!(told.len(), 1);
}

#[test]
fn settings_add_in_their_order() {
    let settings = ResourceSettings {
        defaults: vec![("b".to_string(), "1".to_string()), ("a".to_string(), "2".to_string())],
        service_name: Some("s".to_string()),
        service_version: None,
    };
    let pair = |key: &str, value: &str| make_text_pair(key.to_string(), value.to_string());
    let told = vec![pair("service.name", "x"), pair("a", "3"), pair("service.name", "y")];
    let keys: Vec<String> = settings.apply(told).into_iter().map(|pair| pair.key).collect();
    assert_eq!(keys, vec!["a", "b", "service.name"]);
    assert!(ResourceSettings::none().apply(vec![]).is_empty());
}
