//! What holds of where batches go, of the requests that carry them, and of healthchecks.
use vstd::prelude::*;
use vstd::string::*;
use crate::config::{Compression, HealthcheckConfig, OpenTelemetryConfig, SpecEndpoints};
use crate::encoder::{payload_of, totals_after_batch};
use crate::entries::{holds, lacks, law_held_is_found, law_lacking_is_not_found};
use crate::event::SpecEvent;
use crate::health::{
    first_step, next_step, url_of, HealthTarget, SpecHealthStep, SpecHealthcheckError,
};
use crate::keys::lookup;
use crate::metric::SpecMetricValue;
use crate::ordered::ordered_entries;
use crate::service::{
    law_configured_headers_win, law_protocol_headers, with_small_names, OtlpServiceRequestBuilder,
};
use crate::settings::SpecResourceSettings;
use crate::sink::{BatcherSettings, SignalKind, SpecKeyPartitioner};
use crate::text::ascii_lowercase;
use crate::totals::SpecSeries;
use crate::uri::{joined, uri_written};

verus! {

/// A path is joined to a base by one slash: where neither has one there, nothing else is added or
/// taken away.
pub proof fn law_path_follows_its_base(base: Seq<char>, path: Seq<char>)
    requires
        base.len() == 0 || base.last() != '/',
        path.len() == 0 || path[0] != '/',
    ensures
        joined(base, path) == base + "/"@ + path,
{
}

/// The endpoint of each kind of event is its own path under the base. The first that is not valid is
/// the error, and so is a base that is not valid.
pub proof fn law_endpoints_are_paths_under_the_base(config: OpenTelemetryConfig, base: Seq<char>)
    ensures
        uri_written(config.endpoint@) matches Err(error) ==> config.endpoints_of()
            == Err::<SpecEndpoints, Seq<char>>(error),
        uri_written(config.endpoint@) == Ok::<Seq<char>, Seq<char>>(base) ==> {
            let logs = uri_written(joined(base, config.logs_path@));
            let traces = uri_written(joined(base, config.traces_path@));
            let metrics = uri_written(joined(base, config.metrics_path@));
            &&& logs is Ok && traces is Ok && metrics is Ok ==> (config.endpoints_of() matches Ok(
                endpoints,
            ) && endpoints.logs == logs->Ok_0 && endpoints.traces == traces->Ok_0
                && endpoints.metrics == metrics->Ok_0)
            &&& logs is Err ==> config.endpoints_of() == Err::<SpecEndpoints, Seq<char>>(
                logs->Err_0,
            )
            &&& logs is Ok && traces is Err ==> config.endpoints_of() == Err::<
                SpecEndpoints,
                Seq<char>,
            >(traces->Err_0)
            &&& logs is Ok && traces is Ok && metrics is Err ==> config.endpoints_of() == Err::<
                SpecEndpoints,
                Seq<char>,
            >(metrics->Err_0)
        },
{
}

/// Each event goes to the endpoint of its own kind.
pub proof fn law_events_go_to_their_endpoints(partitioner: SpecKeyPartitioner, event: SpecEvent)
    ensures
        event is Log ==> partitioner.key_for(event).endpoint == partitioner.log_endpoint
            && partitioner.key_for(event).kind == SignalKind::Log,
        event is Metric ==> partitioner.key_for(event).endpoint == partitioner.metric_endpoint
            && partitioner.key_for(event).kind == SignalKind::Metric,
        event is Trace ==> partitioner.key_for(event).endpoint == partitioner.trace_endpoint
            && partitioner.key_for(event).kind == SignalKind::Trace,
{
}

/// A limit on the events in a batch lowers the limit that there was, and never raises it. It changes
/// nothing else.
pub proof fn law_limits_only_lower(settings: BatcherSettings, max: usize)
    ensures
        settings.limited(max).item_limit <= max,
        settings.limited(max).item_limit <= settings.item_limit,
        settings.limited(max).item_limit == max || settings.limited(max).item_limit
            == settings.item_limit,
        settings.limited(max).size_limit == settings.size_limit,
        settings.limited(max).timeout_nanos == settings.timeout_nanos,
{
}

/// A batch takes an event where it then stays within both limits, and only there; but an empty batch
/// takes every event. It is filled once it reaches one of the limits, and takes no more then.
pub proof fn law_batches_stay_within_limits(
    settings: BatcherSettings,
    items: usize,
    bytes: usize,
    size: usize,
)
    ensures
        items > 0 ==> (settings.takes(items, bytes, size) <==> items + 1 <= settings.item_limit
            && bytes + size <= settings.size_limit),
        settings.takes(0, bytes, size),
        settings.filled(items, bytes) <==> !(items < settings.item_limit && bytes
            < settings.size_limit),
        items > 0 && size > 0 && settings.filled(items, bytes) ==> !settings.takes(
            items,
            bytes,
            size,
        ),
{
}

/// A request carries its payload to its URI, by the method of the configuration.
pub proof fn law_request_carries_its_payload(
    builder: OtlpServiceRequestBuilder,
    uri: Seq<char>,
    payload: Seq<u8>,
)
    ensures
        builder.request_to(uri, payload).uri == uri,
        builder.request_to(uri, payload).body == payload,
        builder.request_to(uri, payload).method == builder.method,
{
}

/// A request has each configured header, with the last value that is configured for its name.
pub proof fn law_configured_headers_are_sent(
    builder: OtlpServiceRequestBuilder,
    uri: Seq<char>,
    payload: Seq<u8>,
    i: int,
)
    requires
        0 <= i < ordered_entries(builder.headers).len(),
        forall|j: int|
            i < j < ordered_entries(builder.headers).len() ==> ascii_lowercase(
                (#[trigger] ordered_entries(builder.headers)[j]).0,
            ) != ascii_lowercase(ordered_entries(builder.headers)[i].0),
    ensures
        lookup(
            builder.request_to(uri, payload).headers,
            ascii_lowercase(ordered_entries(builder.headers)[i].0),
        ) == Some(ordered_entries(builder.headers)[i].1),
{
    let more = ordered_entries(builder.headers);
    let small = with_small_names(more);
    let name = ascii_lowercase(more[i].0);
    assert(small[i] == (name, more[i].1));
    assert forall|j: int| i < j < small.len() implies (#[trigger] small[j]).0 != name by {
        assert(ascii_lowercase(more[j].0) != name);
    }
    assert(holds(small, name, more[i].1));
    law_held_is_found(small, name, more[i].1);
    law_configured_headers_win(
        crate::service::protocol_headers(builder.encoding, builder.compression),
        small,
        name,
    );
}

/// Unless the configuration has other values for them, a request says that its payload is Protobuf,
/// and how it is compressed where it is.
pub proof fn law_requests_describe_their_payloads(
    builder: OtlpServiceRequestBuilder,
    uri: Seq<char>,
    payload: Seq<u8>,
)
    ensures
        lacks(with_small_names(ordered_entries(builder.headers)), "content-type"@) ==> lookup(
            builder.request_to(uri, payload).headers,
            "content-type"@,
        ) == Some("application/x-protobuf"@),
        lacks(with_small_names(ordered_entries(builder.headers)), "content-encoding"@) ==> lookup(
            builder.request_to(uri, payload).headers,
            "content-encoding"@,
        ) == (match builder.compression {
            Compression::Uncompressed => None,
            Compression::Gzip(_) => Some("gzip"@),
            Compression::Zlib(_) => Some("deflate"@),
            Compression::Zstd(_) => Some("zstd"@),
            Compression::Snappy => Some("snappy"@),
        }),
{
    let small = with_small_names(ordered_entries(builder.headers));
    let first = crate::service::protocol_headers(builder.encoding, builder.compression);
    law_protocol_headers(builder.encoding, builder.compression);
    law_configured_headers_win(first, small, "content-type"@);
    law_configured_headers_win(first, small, "content-encoding"@);
    if lacks(small, "content-type"@) {
        law_lacking_is_not_found(small, "content-type"@);
    }
    if lacks(small, "content-encoding"@) {
        law_lacking_is_not_found(small, "content-encoding"@);
    }
}

/// The URL of a path follows the endpoint, without the slashes at its end.
pub proof fn law_health_url(endpoint: Seq<char>, path: Seq<char>)
    ensures
        endpoint.len() == 0 || endpoint.last() != '/' ==> url_of(endpoint, path) == endpoint + path,
        url_of(endpoint.push('/'), path) == url_of(endpoint, path),
{
    assert(endpoint.push('/').drop_last() =~= endpoint);
}

/// A check that is not skipped fetches the health path first, and fails where its URL is not valid.
pub proof fn law_check_fetches_the_health_path(
    config: HealthcheckConfig,
    endpoint: Seq<char>,
    uri: Seq<char>,
    error: Seq<char>,
)
    requires
        !config.skip,
    ensures
        uri_written(url_of(endpoint, config.path@)) == Ok::<Seq<char>, Seq<char>>(uri)
            ==> first_step(config, endpoint) == (SpecHealthStep::Fetch {
            target: HealthTarget::Health,
            uri,
        }),
        uri_written(url_of(endpoint, config.path@)) == Err::<Seq<char>, Seq<char>>(error)
            ==> first_step(config, endpoint) == (SpecHealthStep::Finished {
            result: Err(SpecHealthcheckError::InvalidUri { error }),
        }),
{
}

/// Where nothing is found at the health path, the root path is fetched. Any other status ends the
/// check: in success from 200 to 299 and from 400 to 499, in an error with this status else.
pub proof fn law_status_decides(
    target: HealthTarget,
    endpoint: Seq<char>,
    status: u16,
    uri: Seq<char>,
    error: Seq<char>,
)
    ensures
        target == HealthTarget::Health && status == 404 && uri_written(url_of(endpoint, "/"@))
            == Ok::<Seq<char>, Seq<char>>(uri) ==> next_step(target, endpoint, status) == (
        SpecHealthStep::Fetch { target: HealthTarget::Root, uri }),
        target == HealthTarget::Health && status == 404 && uri_written(url_of(endpoint, "/"@))
            == Err::<Seq<char>, Seq<char>>(error) ==> next_step(target, endpoint, status) == (
        SpecHealthStep::Finished { result: Err(SpecHealthcheckError::InvalidUri { error }) }),
        (target == HealthTarget::Root || status != 404) && (200 <= status <= 299 || 400 <= status
            <= 499) ==> next_step(target, endpoint, status) == (SpecHealthStep::Finished {
            result: Ok(()),
        }),
        status < 200 || 300 <= status < 400 || status >= 500 ==> next_step(target, endpoint, status)
            == (SpecHealthStep::Finished {
            result: Err(SpecHealthcheckError::UnexpectedStatus { status }),
        }),
{
}

/// Without events there is no payload, and only metrics change the totals.
pub proof fn law_only_metrics_change_the_totals(
    settings: SpecResourceSettings,
    totals: Seq<(SpecSeries, SpecMetricValue)>,
    events: Seq<SpecEvent>,
)
    ensures
        events.len() == 0 ==> payload_of(settings, totals, events).len() == 0,
        events.len() == 0 || events[0] is Log || events[0] is Trace ==> totals_after_batch(
            totals,
            events,
        ) == totals,
{
}

}
