use opentelemetry_sink::config::{
    combine, default_export_timeout_secs, default_health_path, default_logs_path,
    default_max_export_batch_size, default_metrics_path, default_traces_path,
    resource_attributes_examples, Compression, CompressionLevel, ContentEncoding, GrpcConfig,
    HealthcheckConfig, HttpConfig, HttpMethod, OpenTelemetryConfig, OtlpConfig, OtlpProtocol,
};
use opentelemetry_sink::event::{Event, TraceEvent};
use opentelemetry_sink::sink::BatcherSettings;
use opentelemetry_sink::value::ObjectMap;

#[test]
fn test_healthcheck_config_defaults() {
    let config = HealthcheckConfig::default();
    assert_eq!(config.path, "/health");
    assert!(!config.skip);
}

#[test]
fn test_opentelemetry_config_defaults() {
    let config = OpenTelemetryConfig::default();
    assert_eq!(config.healthcheck.path, "/health");
    assert!(!config.healthcheck.skip);
}

#[test]
fn test_default_config_values() {
    let config = OpenTelemetryConfig::default();
    assert_eq!(config.endpoint, "http://localhost:4318");
    assert_eq!(config.logs_path, "/v1/logs");
    assert_eq!(config.metrics_path, "/v1/metrics");
    assert_eq!(config.traces_path, "/v1/traces");
    assert!(matches!(config.protocol, OtlpProtocol::Http));
}

#[test]
fn test_default_config() {
    let config = OpenTelemetryConfig::default();
    assert_eq!(config.endpoint, "http://localhost:4318");
    assert_eq!(config.logs_path, "/v1/logs");
    assert_eq!(config.metrics_path, "/v1/metrics");
    assert_eq!(config.traces_path, "/v1/traces");
    assert!(matches!(config.protocol, OtlpProtocol::Http));
    assert!(matches!(config.http.method, HttpMethod::Post));
    assert!(matches!(config.http.compression, Compression::Uncompressed));
    assert!(matches!(config.http.encoding, ContentEncoding::Protobuf));
}

#[test]
fn defaults_of_the_parts() {
    assert_eq!(default_logs_path(), "/v1/logs");
    assert_eq!(default_metrics_path(), "/v1/metrics");
    assert_eq!(default_traces_path(), "/v1/traces");
    assert_eq!(default_health_path(), "/health");
    assert_eq!(default_max_export_batch_size(), 512);
    assert_eq!(default_export_timeout_secs(), 30);
    let otlp = OtlpConfig::default();
    assert!(otlp.resource_attributes.is_empty());
    assert_eq!(otlp.service_name, None);
    assert_eq!(otlp.service_version, None);
    assert_eq!(otlp.max_export_batch_size, 512);
    assert_eq!(otlp.export_timeout_secs, 30);
    assert_eq!(HttpConfig::default().compression, Compression::Uncompressed);
    assert_eq!(GrpcConfig::default().compression, Compression::Uncompressed);
}

#[test]
fn examples_of_resource_attributes_keep_their_order() {
    let examples = resource_attributes_examples();
    let pairs: Vec<(&str, &str)> =
        examples.iter().map(|(k, v)| (k.as_str(), v.as_str())).collect();
    assert_eq!(
        pairs,
        vec![
            ("service.name", "my-service"),
            ("service.version", "1.0.0"),
            ("deployment.environment", "production"),
        ]
    );
    let otlp = OtlpConfig { resource_attributes: examples, ..OtlpConfig::default() };
    let copy = otlp.clone();
    assert_eq!(copy.resource_attributes, otlp.resource_attributes);
    assert_eq!(copy.resource_attributes.len(), 3);
}

#[test]
fn endpoints_are_the_paths_under_the_base() {
    let mut config = OpenTelemetryConfig::default();
    let endpoints = config.endpoints().unwrap();
    assert_eq!(endpoints.logs, "http://localhost:4318/v1/logs");
    assert_eq!(endpoints.metrics, "http://localhost:4318/v1/metrics");
    assert_eq!(endpoints.traces, "http://localhost:4318/v1/traces");

    config.endpoint = "https://otel.example.com:4318/base//".to_string();
    config.logs_path = "custom/logs".to_string();
    config.metrics_path = "/custom/metrics".to_string();
    config.traces_path = "//custom/traces".to_string();
    let endpoints = config.endpoints().unwrap();
    assert_eq!(endpoints.logs, "https://otel.example.com:4318/base/custom/logs");
    assert_eq!(endpoints.metrics, "https://otel.example.com:4318/base/custom/metrics");
    assert_eq!(endpoints.traces, "https://otel.example.com:4318/base/custom/traces");
}

#[test]
fn endpoints_that_are_no_uris_are_refused() {
    let mut config = OpenTelemetryConfig::default();
    config.endpoint = "http://local host".to_string();
    assert_eq!(config.endpoints().unwrap_err(), "invalid uri character");
    let mut config = OpenTelemetryConfig::default();
    config.traces_path = "/v1 traces".to_string();
    assert_eq!(config.endpoints().unwrap_err(), "invalid uri character");
    let settings = BatcherSettings { timeout_nanos: 1, size_limit: 2, item_limit: 3 };
    assert!(config.build_http_sink((), settings).is_err());
}

#[test]
fn sink_is_built_from_the_configuration() {
    let mut config = OpenTelemetryConfig::default();
    config.http.compression = Compression::Zstd(CompressionLevel::Best);
    config.headers.insert("x-a".to_string(), "1".to_string());
    let settings = BatcherSettings { timeout_nanos: 1, size_limit: 2, item_limit: 3 };
    let sink = config.build_http_sink(7u8, settings).unwrap();
    assert_eq!(sink.service, 7);
    assert_eq!(sink.request_builder.compression(), config.http.compression);
    let event = Event::Trace(TraceEvent::new(ObjectMap::new()));
    assert_eq!(
        sink.key_partitioner.partition(&event).endpoint,
        "http://localhost:4318/v1/traces"
    );
    let builder = config.service_request_builder();
    assert_eq!(builder.method, HttpMethod::Post);
    assert_eq!(builder.compression, config.http.compression);
    assert_eq!(builder.headers, config.headers);
    let input = config.input();
    assert!(input.logs && input.metrics && input.traces);
    assert_eq!(*config.acknowledgements(), None);
}

#[test]
fn first_error_of_the_endpoints_comes_back() {
    let good = || Ok("e".to_string());
    let bad = |text: &str| Err(text.to_string());
    let endpoints = combine(Ok("l".to_string()), Ok("t".to_string()), Ok("m".to_string())).unwrap();
    assert_eq!(endpoints.logs, "l");
    assert_eq!(endpoints.traces, "t");
    assert_eq!(endpoints.metrics, "m");
    assert_eq!(combine(bad("l"), bad("t"), bad("m")).unwrap_err(), "l");
    assert_eq!(combine(good(), bad("t"), bad("m")).unwrap_err(), "t");
    assert_eq!(combine(good(), good(), bad("m")).unwrap_err(), "m");
}

#[test]
fn batches_hold_no_more_than_an_export_may() {
    let mut config = OpenTelemetryConfig::default();
    let settings = BatcherSettings { timeout_nanos: 1, size_limit: 2, item_limit: 1000 };
    let sink = config.build_http_sink((), settings).unwrap();
    assert_eq!(
        sink.batch_settings,
        BatcherSettings { timeout_nanos: 1, size_limit: 2, item_limit: 512 }
    );
    config.otlp.max_export_batch_size = 2000;
    config.otlp.service_name = Some("s".to_string());
    let sink = config.build_http_sink((), settings).unwrap();
    assert_eq!(sink.batch_settings, settings);
    assert_eq!(sink.request_builder.encoder().settings.service_name, config.otlp.service_name);
}
