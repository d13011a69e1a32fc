use opentelemetry_sink::config::{Compression, CompressionLevel, ContentEncoding, HttpMethod};
use opentelemetry_sink::request_builder::HttpRequest;
use opentelemetry_sink::service::OtlpServiceRequestBuilder;
use opentelemetry_sink::sink::{PartitionKey, SignalKind};

fn builder(compression: Compression, headers: Vec<(&str, &str)>) -> OtlpServiceRequestBuilder {
    OtlpServiceRequestBuilder {
        method: HttpMethod::Put,
        compression,
        encoding: ContentEncoding::Protobuf,
        headers: headers.into_iter().map(|(k, v)| (k.to_string(), v.to_string())).collect(),
    }
}

fn request(endpoint: &str) -> HttpRequest {
    HttpRequest {
        key: PartitionKey { endpoint: endpoint.to_string(), kind: SignalKind::Log },
        payload: vec![1, 2, 3],
    }
}

fn pairs(headers: &[(String, String)]) -> Vec<(&str, &str)> {
    headers.iter().map(|(k, v)| (k.as_str(), v.as_str())).collect()
}

#[test]
fn uncompressed_request_has_no_content_encoding() {
    let parts = builder(Compression::Uncompressed, vec![])
        .build(request("http://localhost:4318/v1/logs"))
        .unwrap();
    assert_eq!(parts.method, HttpMethod::Put);
    assert_eq!(parts.uri, "http://localhost:4318/v1/logs");
    assert_eq!(pairs(&parts.headers), vec![("content-type", "application/x-protobuf")]);
    assert_eq!(parts.body, vec![1, 2, 3]);
}

#[test]
fn compressed_requests_announce_their_encoding() {
    let level = CompressionLevel::Val(3);
    for (compression, name) in [
        (Compression::Gzip(level), "gzip"),
        (Compression::Zlib(level), "deflate"),
        (Compression::Zstd(CompressionLevel::Fast), "zstd"),
        (Compression::Snappy, "snappy"),
    ] {
        let parts = builder(compression, vec![]).build(request("http://h/p")).unwrap();
        assert_eq!(
            pairs(&parts.headers),
            vec![("content-type", "application/x-protobuf"), ("content-encoding", name)]
        );
    }
}

#[test]
fn configured_headers_come_over_those_of_the_protocol() {
    let parts = builder(
        Compression::Snappy,
        vec![("x-token", "abc"), ("content-type", "text/plain")],
    )
    .build(request("http://h/p"))
    .unwrap();
    assert_eq!(
        pairs(&parts.headers),
        vec![
            ("content-type", "text/plain"),
            ("content-encoding", "snappy"),
            ("x-token", "abc"),
        ]
    );
}

#[test]
fn uri_is_parsed_and_written_again() {
    // A URI without a path gets the root path
    let parts = builder(Compression::Snappy, vec![]).build(request("http://host")).unwrap();
    assert_eq!(parts.uri, "http://host/");
}

#[test]
fn endpoint_that_is_no_uri_is_refused() {
    let error = builder(Compression::Snappy, vec![]).build(request("not a uri")).unwrap_err();
    assert_eq!(error, "Invalid URI: invalid uri character");
    let error = builder(Compression::Snappy, vec![]).build(request("")).unwrap_err();
    assert_eq!(error, "Invalid URI: empty string");
}

#[test]
fn header_names_are_the_same_in_letters_of_any_case() {
    let parts = builder(
        Compression::Snappy,
        vec![("Content-Type", "text/plain"), ("X-Token", "Abc"), ("x-token", "Def")],
    )
    .build(request("http://h/p"))
    .unwrap();
    assert_eq!(
        pairs(&parts.headers),
        vec![
            ("content-type", "text/plain"),
            ("content-encoding", "snappy"),
            ("x-token", "Def"),
        ]
    );
}
