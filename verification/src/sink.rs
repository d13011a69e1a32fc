//! The sink.
use vstd::prelude::*;
use vstd::string::*;
use crate::encoder::same_kind;
use crate::event::{Event, SpecEvent};
use crate::request_builder::OtlpRequestBuilder;

verus! {

/// The types of signals.
#[derive(Clone, Copy, Debug, PartialEq, Eq, Hash, Structural)]
pub enum SignalKind {
    Log,
    Metric,
    Trace,
}

/// The type of signal that an event is.
pub open spec fn signal_of(event: SpecEvent) -> SignalKind {
    match event {
        SpecEvent::Log(_) => SignalKind::Log,
        SpecEvent::Metric(_) => SignalKind::Metric,
        SpecEvent::Trace(_) => SignalKind::Trace,
    }
}

/// The key used to partition events by their signal type (log, metric, trace).
///
/// Events are grouped by this key, so that batches contain only one type of signal, which can then
/// be routed to the correct OTLP endpoint.
#[derive(Debug, PartialEq, Eq, Hash)]
pub struct PartitionKey {
    /// The full endpoint URI for this signal type.
    pub endpoint: String,
    /// The signal type.
    pub kind: SignalKind,
}

/// What a `PartitionKey` says.
#[verifier::ext_equal]
pub struct SpecPartitionKey {
    pub endpoint: Seq<char>,
    pub kind: SignalKind,
}

impl View for PartitionKey {
    type V = SpecPartitionKey;

    open spec fn view(&self) -> SpecPartitionKey {
        SpecPartitionKey { endpoint: self.endpoint@, kind: self.kind }
    }
}

impl Clone for PartitionKey {
    fn clone(&self) -> (copy: Self)
        ensures
            copy == *self,
    {
        PartitionKey { endpoint: self.endpoint.clone(), kind: self.kind }
    }
}

/// Partitions events based on their signal type.
#[derive(Debug)]
pub struct KeyPartitioner {
    log_endpoint: String,
    trace_endpoint: String,
    metric_endpoint: String,
}

/// Where each kind of event goes.
#[verifier::ext_equal]
pub struct SpecKeyPartitioner {
    pub log_endpoint: Seq<char>,
    pub trace_endpoint: Seq<char>,
    pub metric_endpoint: Seq<char>,
}

impl View for KeyPartitioner {
    type V = SpecKeyPartitioner;

    closed spec fn view(&self) -> SpecKeyPartitioner {
        SpecKeyPartitioner {
            log_endpoint: self.log_endpoint@,
            trace_endpoint: self.trace_endpoint@,
            metric_endpoint: self.metric_endpoint@,
        }
    }
}

impl SpecKeyPartitioner {
    /// The endpoint that an event goes to.
    pub open spec fn endpoint_for(self, event: SpecEvent) -> Seq<char> {
        match event {
            SpecEvent::Log(_) => self.log_endpoint,
            SpecEvent::Metric(_) => self.metric_endpoint,
            SpecEvent::Trace(_) => self.trace_endpoint,
        }
    }

    /// The key of an event.
    pub open spec fn key_for(self, event: SpecEvent) -> SpecPartitionKey {
        SpecPartitionKey { endpoint: self.endpoint_for(event), kind: signal_of(event) }
    }
}

impl KeyPartitioner {
    /// Creates a new `KeyPartitioner`.
    pub fn new(
        log_endpoint: String,
        trace_endpoint: String,
        metric_endpoint: String,
    ) -> (partitioner: Self)
        ensures
            partitioner@ == (SpecKeyPartitioner {
                log_endpoint: log_endpoint@,
                trace_endpoint: trace_endpoint@,
                metric_endpoint: metric_endpoint@,
            }),
    {
        KeyPartitioner { log_endpoint, trace_endpoint, metric_endpoint }
    }

    /// The key of an event.
    pub fn partition(&self, event: &Event) -> (key: PartitionKey)
        ensures
            key@ == self@.key_for(event@),
    {
        match event {
            Event::Log(_) => PartitionKey {
                endpoint: self.log_endpoint.clone(),
                kind: SignalKind::Log,
            },
            Event::Metric(_) => PartitionKey {
                endpoint: self.metric_endpoint.clone(),
                kind: SignalKind::Metric,
            },
            Event::Trace(_) => PartitionKey {
                endpoint: self.trace_endpoint.clone(),
                kind: SignalKind::Trace,
            },
        }
    }
}

/// The keys of two events are equal if and only if the events are of one signal type, whatever the
/// endpoints are.
pub proof fn law_keys_are_equal_where_signals_are(
    partitioner: SpecKeyPartitioner,
    a: SpecEvent,
    b: SpecEvent,
)
    ensures
        partitioner.key_for(a) == partitioner.key_for(b) <==> signal_of(a) == signal_of(b),
{
}

/// Events with one key are of one signal type: a batch by key can be encoded.
pub proof fn law_batch_of_one_key_is_of_one_kind(
    partitioner: SpecKeyPartitioner,
    events: Seq<SpecEvent>,
    key: SpecPartitionKey,
)
    requires
        forall|i: int|
            0 <= i < events.len() ==> partitioner.key_for(#[trigger] events[i]) == key,
    ensures
        same_kind(events),
{
    assert forall|i: int| 0 <= i < events.len() implies signal_of(#[trigger] events[i])
        == key.kind by {
        assert(partitioner.key_for(events[i]) == key);
    }
    match key.kind {
        SignalKind::Log => {
            assert forall|i: int| 0 <= i < events.len() implies (#[trigger] events[i]) is Log by {
                assert(signal_of(events[i]) == SignalKind::Log);
            }
        },
        SignalKind::Metric => {
            assert forall|i: int| 0 <= i < events.len() implies (
            #[trigger] events[i]) is Metric by {
                assert(signal_of(events[i]) == SignalKind::Metric);
            }
        },
        SignalKind::Trace => {
            assert forall|i: int| 0 <= i < events.len() implies (#[trigger] events[i]) is Trace by {
                assert(signal_of(events[i]) == SignalKind::Trace);
            }
        },
    }
}

/// When batches are sent.
#[derive(Clone, Copy, Debug, PartialEq, Eq, Structural)]
pub struct BatcherSettings {
    /// The time after which a batch is sent, in nanoseconds.
    pub timeout_nanos: u64,
    /// The number of bytes after which a batch is sent.
    pub size_limit: usize,
    /// The number of events after which a batch is sent.
    pub item_limit: usize,
}

impl BatcherSettings {
    /// The settings with at most `max` events in a batch.
    pub open spec fn limited(self, max: usize) -> BatcherSettings {
        BatcherSettings {
            timeout_nanos: self.timeout_nanos,
            size_limit: self.size_limit,
            item_limit: if self.item_limit <= max {
                self.item_limit
            } else {
                max
            },
        }
    }

    /// Whether a batch of so many events and bytes is to be sent before more comes to it.
    pub open spec fn filled(self, items: usize, bytes: usize) -> bool {
        items >= self.item_limit || bytes >= self.size_limit
    }

    /// Whether a batch takes one more event of so many bytes. An empty batch takes every event.
    pub open spec fn takes(self, items: usize, bytes: usize, size: usize) -> bool {
        items == 0 || (items < self.item_limit && bytes + size <= self.size_limit)
    }

    /// Whether a batch is to be sent before more comes to it.
    pub fn is_filled(&self, items: usize, bytes: usize) -> (filled: bool)
        ensures
            filled == self.filled(items, bytes),
    {
        items >= self.item_limit || bytes >= self.size_limit
    }

    /// Whether a batch takes one more event.
    pub fn has_room(&self, items: usize, bytes: usize, size: usize) -> (room: bool)
        ensures
            room == self.takes(items, bytes, size),
    {
        items == 0 || (items < self.item_limit && bytes <= self.size_limit && size
            <= self.size_limit - bytes)
    }

    /// Limits the number of events in a batch.
    pub fn limit_items(self, max: usize) -> (settings: BatcherSettings)
        ensures
            settings == self.limited(max),
    {
        let item_limit: usize = if self.item_limit <= max {
            self.item_limit
        } else {
            max
        };
        BatcherSettings {
            timeout_nanos: self.timeout_nanos,
            size_limit: self.size_limit,
            item_limit,
        }
    }
}

/// The `opentelemetry` sink: a service, and what makes the requests that it is to send.
#[derive(Debug)]
pub struct OpenTelemetrySink<S> {
    pub service: S,
    pub batch_settings: BatcherSettings,
    pub request_builder: OtlpRequestBuilder,
    pub key_partitioner: KeyPartitioner,
}

impl<S> OpenTelemetrySink<S> {
    /// Creates a new `OpenTelemetrySink`.
    pub fn new(
        service: S,
        batch_settings: BatcherSettings,
        request_builder: OtlpRequestBuilder,
        log_endpoint: String,
        trace_endpoint: String,
        metric_endpoint: String,
    ) -> (sink: Self)
        ensures
            sink.service == service,
            sink.batch_settings == batch_settings,
            sink.request_builder == request_builder,
            sink.key_partitioner@ == (SpecKeyPartitioner {
                log_endpoint: log_endpoint@,
                trace_endpoint: trace_endpoint@,
                metric_endpoint: metric_endpoint@,
            }),
    {
        let key_partitioner = KeyPartitioner::new(log_endpoint, trace_endpoint, metric_endpoint);
        OpenTelemetrySink { service, batch_settings, request_builder, key_partitioner }
    }
}

}
