use opentelemetry_sink::config::{Compression, CompressionLevel, OpenTelemetryConfig};
use opentelemetry_sink::event::{Event, LogEvent, TraceEvent};
use opentelemetry_sink::metric::{Metric, MetricKind, MetricValue};
use opentelemetry_sink::request_builder::OtlpRequestBuilder;
use opentelemetry_sink::sink::{
    BatcherSettings, KeyPartitioner, OpenTelemetrySink, PartitionKey, SignalKind,
};
use opentelemetry_sink::totals::MetricSet;
use opentelemetry_sink::value::{Double, ObjectMap, Value};

fn partitioner() -> KeyPartitioner {
    KeyPartitioner::new(
        "http://localhost:4318/v1/logs".to_string(),
        "http://localhost:4318/v1/traces".to_string(),
        "http://localhost:4318/v1/metrics".to_string(),
    )
}

fn metric() -> Event {
    Event::Metric(Metric::new(
        "test_metric",
        MetricKind::Absolute,
        MetricValue::Counter { value: Double { bits: 1.0f64.to_bits() } },
    ))
}

fn trace() -> Event {
    Event::Trace(TraceEvent::new(ObjectMap::new()))
}

fn log() -> Event {
    let mut map = ObjectMap::new();
    map.insert("message".to_string(), Value::from_text("hello world"));
    Event::Log(LogEvent::new(Value::Object(map)))
}

#[test]
fn test_metrics_partitioner() {
    let key = partitioner().partition(&metric());
    assert_eq!(key.endpoint, "http://localhost:4318/v1/metrics");
}

#[test]
fn test_traces_partitioner() {
    let key = partitioner().partition(&trace());
    assert_eq!(key.endpoint, "http://localhost:4318/v1/traces");
}

#[test]
fn test_partitioner() {
    assert_eq!(partitioner().partition(&log()).endpoint, "http://localhost:4318/v1/logs");
    assert_eq!(partitioner().partition(&metric()).endpoint, "http://localhost:4318/v1/metrics");
    assert_eq!(partitioner().partition(&trace()).endpoint, "http://localhost:4318/v1/traces");
}

#[test]
fn request_carries_the_encoded_batch() {
    let config = OpenTelemetryConfig::default();
    let compression = Compression::Gzip(CompressionLevel::Default);
    let builder = OtlpRequestBuilder::new(compression, &config);
    assert_eq!(builder.compression(), compression);
    let key = partitioner().partition(&log());
    let request = builder.encode_request(&mut MetricSet::new(), key, vec![log()]);
    assert_eq!(request.key.endpoint, "http://localhost:4318/v1/logs");
    assert_eq!(request.payload, builder.encoder().encode_logs(vec![log()]).unwrap());
}

#[test]
fn sink_sends_each_kind_to_its_endpoint() {
    let settings = BatcherSettings { timeout_nanos: 1, size_limit: 2, item_limit: 3 };
    let builder = OtlpRequestBuilder::new(Compression::Snappy, &OpenTelemetryConfig::default());
    let sink = OpenTelemetrySink::new(
        "service",
        settings,
        builder,
        "l".to_string(),
        "t".to_string(),
        "m".to_string(),
    );
    assert_eq!(sink.service, "service");
    assert_eq!(sink.batch_settings, settings);
    assert_eq!(sink.request_builder.compression(), Compression::Snappy);
    assert_eq!(sink.key_partitioner.partition(&log()).endpoint, "l");
    assert_eq!(sink.key_partitioner.partition(&trace()).endpoint, "t");
    assert_eq!(sink.key_partitioner.partition(&metric()).endpoint, "m");
}

#[test]
fn keys_are_equal_where_the_signals_are() {
    let same = KeyPartitioner::new("e".to_string(), "e".to_string(), "e".to_string());
    for partitioner in [partitioner(), same] {
        let keys: Vec<PartitionKey> = [log(), metric(), trace()]
            .iter()
            .map(|event| partitioner.partition(event))
            .collect();
        assert_eq!(keys[0], partitioner.partition(&log()));
        assert_eq!(keys[1], partitioner.partition(&metric()));
        assert_eq!(keys[2], partitioner.partition(&trace()));
        assert!(keys[0] != keys[1] && keys[1] != keys[2] && keys[0] != keys[2]);
        assert_eq!(keys[0].kind, SignalKind::Log);
        assert_eq!(keys[1].kind, SignalKind::Metric);
        assert_eq!(keys[2].kind, SignalKind::Trace);
    }
}

#[test]
fn batches_are_limited_by_events_and_bytes() {
    let settings = BatcherSettings { timeout_nanos: 1, size_limit: 10, item_limit: 3 };
    assert!(settings.has_room(0, 0, 100));
    assert!(settings.has_room(2, 4, 6));
    assert!(!settings.has_room(2, 4, 7));
    assert!(!settings.has_room(3, 4, 1));
    assert!(!settings.has_room(1, usize::MAX, usize::MAX));
    assert!(!settings.is_filled(2, 9));
    assert!(settings.is_filled(3, 0));
    assert!(settings.is_filled(1, 10));
}
