//! Configuration of the sink.
use vstd::prelude::*;
use vstd::string::*;
use indexmap::IndexMap;
use crate::keys;
use crate::request_builder::OtlpRequestBuilder;
use crate::ordered::{copy_map, insert_entry, new_map, ordered_entries};
use crate::service::OtlpServiceRequestBuilder;
use crate::settings::settings_of;
use crate::sink::{BatcherSettings, OpenTelemetrySink, SpecKeyPartitioner};
use crate::uri::{append_path, endpoint_of, parse_uri, view_result};

verus! {

broadcast use vstd::string::group_string_axioms;

/// Where logs go, under the base endpoint, unless the configuration says otherwise.
pub const DEFAULT_LOGS_PATH: &'static str = "/v1/logs";

/// Where metrics go, under the base endpoint, unless the configuration says otherwise.
pub const DEFAULT_METRICS_PATH: &'static str = "/v1/metrics";

/// Where traces go, under the base endpoint, unless the configuration says otherwise.
pub const DEFAULT_TRACES_PATH: &'static str = "/v1/traces";

/// The default path for logs.
pub fn default_logs_path() -> (path: String)
    ensures
        path@ == "/v1/logs"@,
{
    DEFAULT_LOGS_PATH.to_string()
}

/// The default path for metrics.
pub fn default_metrics_path() -> (path: String)
    ensures
        path@ == "/v1/metrics"@,
{
    DEFAULT_METRICS_PATH.to_string()
}

/// The default path for traces.
pub fn default_traces_path() -> (path: String)
    ensures
        path@ == "/v1/traces"@,
{
    DEFAULT_TRACES_PATH.to_string()
}

/// The default number of items in an export batch.
pub fn default_max_export_batch_size() -> (size: usize)
    ensures
        size == 512,
{
    512
}

/// The default time to wait for an export, in seconds.
pub fn default_export_timeout_secs() -> (seconds: u64)
    ensures
        seconds == 30,
{
    30
}

/// HTTP method to use for OTLP requests.
#[derive(Clone, Copy, Debug, PartialEq, Eq, Structural)]
pub enum HttpMethod {
    /// POST method (recommended for OTLP).
    Post,
    /// PUT method.
    Put,
}

impl Default for HttpMethod {
    fn default() -> (method: Self)
        ensures
            method == HttpMethod::Post,
    {
        HttpMethod::Post
    }
}

/// Content encoding format for OTLP data.
#[derive(Clone, Copy, Debug, PartialEq, Eq, Structural)]
pub enum ContentEncoding {
    /// Protocol Buffers binary encoding (recommended).
    Protobuf,
}

impl Default for ContentEncoding {
    fn default() -> (encoding: Self)
        ensures
            encoding == ContentEncoding::Protobuf,
    {
        ContentEncoding::Protobuf
    }
}

/// How hard a compressor works.
#[derive(Clone, Copy, Debug, PartialEq, Eq, Structural)]
pub enum CompressionLevel {
    Store,
    Best,
    Default,
    Fast,
    Val(u32),
}

/// Compression of request bodies.
#[derive(Clone, Copy, Debug, PartialEq, Eq, Structural)]
pub enum Compression {
    /// No compression.
    Uncompressed,
    /// Gzip compression.
    Gzip(CompressionLevel),
    /// Zlib compression.
    Zlib(CompressionLevel),
    /// Zstandard compression.
    Zstd(CompressionLevel),
    /// Snappy compression.
    Snappy,
}

impl Default for Compression {
    fn default() -> (compression: Self)
        ensures
            compression == Compression::Uncompressed,
    {
        Compression::Uncompressed
    }
}

/// The default path of the health endpoint.
pub fn default_health_path() -> (path: String)
    ensures
        path@ == "/health"@,
{
    "/health".to_string()
}

/// Healthcheck configuration for the OTLP sink.
#[derive(Debug)]
pub struct HealthcheckConfig {
    /// Health endpoint path (relative to base endpoint).
    ///
    /// The healthcheck will first try this path, and if it returns 404,
    /// it will fall back to the root path. Common health paths include
    /// "/health", "/healthz", and "/status".
    pub path: String,
    /// Skip healthcheck entirely.
    ///
    /// This can be useful in environments where healthcheck requests
    /// are not allowed or cause issues during startup.
    pub skip: bool,
}

impl Default for HealthcheckConfig {
    fn default() -> (config: Self)
        ensures
            config.path@ == "/health"@,
            !config.skip,
    {
        HealthcheckConfig { path: default_health_path(), skip: false }
    }
}

impl Clone for HealthcheckConfig {
    fn clone(&self) -> (copy: Self)
        ensures
            copy == *self,
    {
        HealthcheckConfig { path: self.path.clone(), skip: self.skip }
    }
}

/// HTTP transport configuration for OTLP.
#[derive(Clone, Copy, Debug)]
pub struct HttpConfig {
    /// The HTTP method to use when sending requests.
    pub method: HttpMethod,
    /// Compression algorithm to use for request bodies.
    pub compression: Compression,
    /// Content encoding format for the request body.
    pub encoding: ContentEncoding,
}

impl Default for HttpConfig {
    fn default() -> (config: Self)
        ensures
            config == (HttpConfig {
                method: HttpMethod::Post,
                compression: Compression::Uncompressed,
                encoding: ContentEncoding::Protobuf,
            }),
    {
        HttpConfig {
            method: HttpMethod::default(),
            compression: Compression::default(),
            encoding: ContentEncoding::default(),
        }
    }
}

/// gRPC transport configuration for OTLP.
///
/// Reserved: data is sent over HTTP only.
#[derive(Clone, Copy, Debug)]
pub struct GrpcConfig {
    /// Compression algorithm to use for gRPC requests.
    pub compression: Compression,
    /// Content encoding format for the request body.
    pub encoding: ContentEncoding,
}

impl Default for GrpcConfig {
    fn default() -> (config: Self)
        ensures
            config == (GrpcConfig {
                compression: Compression::Uncompressed,
                encoding: ContentEncoding::Protobuf,
            }),
    {
        GrpcConfig { compression: Compression::default(), encoding: ContentEncoding::default() }
    }
}

/// OTLP-specific configuration options.
#[derive(Debug)]
pub struct OtlpConfig {
    /// Default resource attributes to add to all telemetry data.
    ///
    /// They describe the source of the data, such as the service name, version and environment.
    pub resource_attributes: IndexMap<String, String>,
    /// Override the service name for all telemetry data.
    ///
    /// If not specified, the service name from individual events or a default is used.
    pub service_name: Option<String>,
    /// Override the service version for all telemetry data.
    ///
    /// If not specified, the service version from individual events or a default is used.
    pub service_version: Option<String>,
    /// Maximum number of items in a single export batch.
    pub max_export_batch_size: usize,
    /// Maximum time to wait for a batch to be exported, in seconds.
    pub export_timeout_secs: u64,
}

impl Default for OtlpConfig {
    fn default() -> (config: Self)
        ensures
            ordered_entries(config.resource_attributes) == Seq::<(Seq<char>, Seq<char>)>::empty(),
            config.service_name is None,
            config.service_version is None,
            config.max_export_batch_size == 512,
            config.export_timeout_secs == 30,
    {
        OtlpConfig {
            resource_attributes: new_map(),
            service_name: None,
            service_version: None,
            max_export_batch_size: default_max_export_batch_size(),
            export_timeout_secs: default_export_timeout_secs(),
        }
    }
}

impl OtlpConfig {
    /// Whether two configurations say the same.
    pub open spec fn same(self, other: Self) -> bool {
        &&& ordered_entries(self.resource_attributes) == ordered_entries(
            other.resource_attributes,
        )
        &&& self.service_name == other.service_name
        &&& self.service_version == other.service_version
        &&& self.max_export_batch_size == other.max_export_batch_size
        &&& self.export_timeout_secs == other.export_timeout_secs
    }
}

impl Clone for OtlpConfig {
    fn clone(&self) -> (copy: Self)
        ensures
            copy.same(*self),
    {
        OtlpConfig {
            resource_attributes: copy_map(&self.resource_attributes),
            service_name: self.service_name.clone(),
            service_version: self.service_version.clone(),
            max_export_batch_size: self.max_export_batch_size,
            export_timeout_secs: self.export_timeout_secs,
        }
    }
}

/// An example of resource attributes: the name, version and environment of a service.
pub fn resource_attributes_examples() -> (examples: IndexMap<String, String>)
    ensures
        ordered_entries(examples) == seq![
            ("service.name"@, "my-service"@),
            ("service.version"@, "1.0.0"@),
            ("deployment.environment"@, "production"@),
        ],
{
    let mut examples = new_map();
    proof {
        reveal_strlit("service.name");
        reveal_strlit("service.version");
        reveal_strlit("deployment.environment");
        reveal_with_fuel(keys::key_index, 3);
        assert(keys::keys_of(ordered_entries(examples)) =~= Seq::empty());
    }
    insert_entry(&mut examples, "service.name".to_string(), "my-service".to_string());
    proof {
        assert(keys::keys_of(ordered_entries(examples)) =~= seq!["service.name"@]);
        assert("service.name"@.len() == 12);
        assert("service.version"@.len() == 15);
        assert("deployment.environment"@.len() == 22);
    }
    insert_entry(&mut examples, "service.version".to_string(), "1.0.0".to_string());
    proof {
        assert(keys::keys_of(ordered_entries(examples)) =~= seq![
            "service.name"@,
            "service.version"@,
        ]);
        assert(seq!["service.name"@, "service.version"@].drop_last() =~= seq!["service.name"@]);
    }
    insert_entry(
        &mut examples,
        "deployment.environment".to_string(),
        "production".to_string(),
    );
    examples
}

/// The protocol used to send OTLP data.
///
/// The OTLP specification supports both HTTP and gRPC transports; this sink sends over HTTP.
#[derive(Clone, Copy, Debug, PartialEq, Eq, Structural)]
pub enum OtlpProtocol {
    /// Send data over HTTP with Protobuf encoding.
    Http,
}

impl Default for OtlpProtocol {
    fn default() -> (protocol: Self)
        ensures
            protocol == OtlpProtocol::Http,
    {
        OtlpProtocol::Http
    }
}

/// Configuration for the `opentelemetry` sink.
///
/// This sink sends observability data to OpenTelemetry-compatible collectors
/// using the OTLP (OpenTelemetry Protocol) specification, over HTTP.
#[derive(Debug)]
pub struct OpenTelemetryConfig {
    /// The base endpoint for the OTLP collector.
    ///
    /// The path values are appended to this base URL.
    pub endpoint: String,
    /// The path to use for logs.
    pub logs_path: String,
    /// The path to use for metrics.
    pub metrics_path: String,
    /// The path to use for traces.
    pub traces_path: String,
    /// The protocol to use for sending data.
    pub protocol: OtlpProtocol,
    /// HTTP transport configuration.
    pub http: HttpConfig,
    /// gRPC transport configuration, reserved.
    pub grpc: GrpcConfig,
    /// OTLP-specific configuration options.
    pub otlp: OtlpConfig,
    /// Headers to send with every request, in addition to those of the protocol.
    pub headers: IndexMap<String, String>,
    /// Whether deliveries are acknowledged, where the configuration says so.
    pub acknowledgements: Option<bool>,
    /// Healthcheck configuration.
    pub healthcheck: HealthcheckConfig,
}

impl Default for OpenTelemetryConfig {
    fn default() -> (config: Self)
        ensures
            config.endpoint@ == "http://localhost:4318"@,
            config.logs_path@ == "/v1/logs"@,
            config.metrics_path@ == "/v1/metrics"@,
            config.traces_path@ == "/v1/traces"@,
            config.protocol == OtlpProtocol::Http,
            config.http == (HttpConfig {
                method: HttpMethod::Post,
                compression: Compression::Uncompressed,
                encoding: ContentEncoding::Protobuf,
            }),
            config.grpc == (GrpcConfig {
                compression: Compression::Uncompressed,
                encoding: ContentEncoding::Protobuf,
            }),
            ordered_entries(config.otlp.resource_attributes) == Seq::<
                (Seq<char>, Seq<char>),
            >::empty(),
            config.otlp.service_name is None,
            config.otlp.service_version is None,
            config.otlp.max_export_batch_size == 512,
            config.otlp.export_timeout_secs == 30,
            ordered_entries(config.headers) == Seq::<(Seq<char>, Seq<char>)>::empty(),
            config.acknowledgements is None,
            config.healthcheck.path@ == "/health"@,
            !config.healthcheck.skip,
    {
        OpenTelemetryConfig {
            endpoint: "http://localhost:4318".to_string(),
            logs_path: DEFAULT_LOGS_PATH.to_string(),
            metrics_path: DEFAULT_METRICS_PATH.to_string(),
            traces_path: DEFAULT_TRACES_PATH.to_string(),
            protocol: OtlpProtocol::default(),
            http: HttpConfig::default(),
            grpc: GrpcConfig::default(),
            otlp: OtlpConfig::default(),
            headers: new_map(),
            acknowledgements: None,
            healthcheck: HealthcheckConfig::default(),
        }
    }
}

/// The kinds of events that the sink takes.
#[derive(Clone, Copy, Debug, PartialEq, Eq, Structural)]
pub struct Input {
    pub logs: bool,
    pub metrics: bool,
    pub traces: bool,
}

/// Where each kind of event is sent.
#[derive(Debug)]
pub struct Endpoints {
    pub logs: String,
    pub traces: String,
    pub metrics: String,
}

/// What an `Endpoints` says.
#[verifier::ext_equal]
pub struct SpecEndpoints {
    pub logs: Seq<char>,
    pub traces: Seq<char>,
    pub metrics: Seq<char>,
}

impl View for Endpoints {
    type V = SpecEndpoints;

    open spec fn view(&self) -> SpecEndpoints {
        SpecEndpoints { logs: self.logs@, traces: self.traces@, metrics: self.metrics@ }
    }
}

/// The endpoints made of three results; where one of these is an error, the first such error.
pub open spec fn combined(
    logs: Result<Seq<char>, Seq<char>>,
    traces: Result<Seq<char>, Seq<char>>,
    metrics: Result<Seq<char>, Seq<char>>,
) -> Result<SpecEndpoints, Seq<char>> {
    match (logs, traces, metrics) {
        (Ok(logs), Ok(traces), Ok(metrics)) => Ok(SpecEndpoints { logs, traces, metrics }),
        (Err(error), _, _) => Err(error),
        (_, Err(error), _) => Err(error),
        (_, _, Err(error)) => Err(error),
    }
}

/// What a result of endpoints stands for.
pub open spec fn view_endpoints(endpoints: Result<Endpoints, String>) -> Result<
    SpecEndpoints,
    Seq<char>,
> {
    match endpoints {
        Ok(e) => Ok(e@),
        Err(error) => Err(error@),
    }
}

/// Makes endpoints of three results; where one of these is an error, the first such error comes
/// back.
pub fn combine(
    logs: Result<String, String>,
    traces: Result<String, String>,
    metrics: Result<String, String>,
) -> (endpoints: Result<Endpoints, String>)
    ensures
        view_endpoints(endpoints) == combined(
            view_result(logs),
            view_result(traces),
            view_result(metrics),
        ),
{
    match (logs, traces, metrics) {
        (Ok(logs), Ok(traces), Ok(metrics)) => Ok(Endpoints { logs, traces, metrics }),
        (Err(error), _, _) => Err(error),
        (_, Err(error), _) => Err(error),
        (_, _, Err(error)) => Err(error),
    }
}

impl Clone for OpenTelemetryConfig {
    fn clone(&self) -> (copy: Self)
        ensures
            copy.endpoint == self.endpoint,
            copy.logs_path == self.logs_path,
            copy.metrics_path == self.metrics_path,
            copy.traces_path == self.traces_path,
            copy.protocol == self.protocol,
            copy.http == self.http,
            copy.grpc == self.grpc,
            copy.otlp.same(self.otlp),
            ordered_entries(copy.headers) == ordered_entries(self.headers),
            copy.acknowledgements == self.acknowledgements,
            copy.healthcheck == self.healthcheck,
    {
        OpenTelemetryConfig {
            endpoint: self.endpoint.clone(),
            logs_path: self.logs_path.clone(),
            metrics_path: self.metrics_path.clone(),
            traces_path: self.traces_path.clone(),
            protocol: self.protocol,
            http: self.http,
            grpc: self.grpc,
            otlp: self.otlp.clone(),
            headers: copy_map(&self.headers),
            acknowledgements: self.acknowledgements,
            healthcheck: self.healthcheck.clone(),
        }
    }
}

impl OpenTelemetryConfig {
    /// The kinds of events that the sink takes: all three.
    pub fn input(&self) -> (input: Input)
        ensures
            input == (Input { logs: true, metrics: true, traces: true }),
    {
        Input { logs: true, metrics: true, traces: true }
    }

    /// Whether deliveries are acknowledged, where the configuration says so.
    pub fn acknowledgements(&self) -> (acknowledgements: &Option<bool>)
        ensures
            *acknowledgements == self.acknowledgements,
    {
        &self.acknowledgements
    }

    /// Where each kind of event is sent: to its path under the base endpoint.
    pub open spec fn endpoints_of(self) -> Result<SpecEndpoints, Seq<char>> {
        combined(
            endpoint_of(self.endpoint@, self.logs_path@),
            endpoint_of(self.endpoint@, self.traces_path@),
            endpoint_of(self.endpoint@, self.metrics_path@),
        )
    }

    /// Where each kind of event is sent; the first URI that is not valid is the error.
    pub fn endpoints(&self) -> (endpoints: Result<Endpoints, String>)
        ensures
            view_endpoints(endpoints) == self.endpoints_of(),
    {
        match parse_uri(self.endpoint.as_str()) {
            Ok(base) => combine(
                append_path(base.as_str(), self.logs_path.as_str()),
                append_path(base.as_str(), self.traces_path.as_str()),
                append_path(base.as_str(), self.metrics_path.as_str()),
            ),
            Err(error) => Err(error),
        }
    }

    /// What builds the requests that the service sends.
    pub fn service_request_builder(&self) -> (builder: OtlpServiceRequestBuilder)
        ensures
            builder.method == self.http.method,
            builder.compression == self.http.compression,
            builder.encoding == self.http.encoding,
            ordered_entries(builder.headers) == ordered_entries(self.headers),
    {
        OtlpServiceRequestBuilder {
            method: self.http.method,
            compression: self.http.compression,
            encoding: self.http.encoding,
            headers: copy_map(&self.headers),
        }
    }

    /// Builds the sink over a service that sends requests; the first URI that is not valid is the
    /// error. Batches hold at most `max_export_batch_size` events.
    pub fn build_http_sink<S>(&self, service: S, batch_settings: BatcherSettings) -> (sink: Result<
        OpenTelemetrySink<S>,
        String,
    >)
        ensures
            (match self.endpoints_of() {
                Ok(endpoints) => {
                    &&& sink is Ok
                    &&& sink->Ok_0.service == service
                    &&& sink->Ok_0.batch_settings == batch_settings.limited(
                        self.otlp.max_export_batch_size,
                    )
                    &&& sink->Ok_0.request_builder.compression == self.http.compression
                    &&& sink->Ok_0.request_builder.encoder.settings@ == settings_of(self.otlp)
                    &&& sink->Ok_0.key_partitioner@ == (SpecKeyPartitioner {
                        log_endpoint: endpoints.logs,
                        trace_endpoint: endpoints.traces,
                        metric_endpoint: endpoints.metrics,
                    })
                },
                Err(error) => sink matches Err(message) && message@ == error,
            }),
    {
        let endpoints = match self.endpoints() {
            Ok(endpoints) => endpoints,
            Err(error) => {
                return Err(error);
            },
        };
        let request_builder = OtlpRequestBuilder::new(self.http.compression, self);
        Ok(
            OpenTelemetrySink::new(
                service,
                batch_settings.limit_items(self.otlp.max_export_batch_size),
                request_builder,
                endpoints.logs,
                endpoints.traces,
                endpoints.metrics,
            ),
        )
    }
}

}
