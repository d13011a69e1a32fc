//! The requests that carry batches.
use vstd::prelude::*;
use crate::config::{Compression, OpenTelemetryConfig};
use crate::encoder::{payload_of, same_kind, totals_after_batch, OtlpEncoder};
use crate::event::Event;
use crate::settings::settings_of;
use crate::sink::PartitionKey;
use crate::totals::MetricSet;
use crate::views::views;

verus! {

/// A payload with the key of its batch.
#[derive(Debug)]
pub struct HttpRequest {
    pub key: PartitionKey,
    pub payload: Vec<u8>,
}

/// Builds `HttpRequest`s for the OTLP sink.
#[derive(Clone, Debug)]
pub struct OtlpRequestBuilder {
    pub encoder: OtlpEncoder,
    pub compression: Compression,
}

impl OtlpRequestBuilder {
    /// Creates a new `OtlpRequestBuilder`.
    pub fn new(compression: Compression, config: &OpenTelemetryConfig) -> (builder: Self)
        ensures
            builder.compression == compression,
            builder.encoder.settings@ == settings_of(config.otlp),
    {
        OtlpRequestBuilder { encoder: OtlpEncoder::new(config), compression }
    }

    /// The compression of payloads.
    pub fn compression(&self) -> (compression: Compression)
        ensures
            compression == self.compression,
    {
        self.compression
    }

    /// The encoder of batches.
    pub fn encoder(&self) -> (encoder: &OtlpEncoder)
        ensures
            *encoder == self.encoder,
    {
        &self.encoder
    }

    /// Builds the request for an encoded batch.
    pub fn build_request(&self, key: PartitionKey, payload: Vec<u8>) -> (request: HttpRequest)
        ensures
            request == (HttpRequest { key, payload }),
    {
        HttpRequest { key, payload }
    }

    /// Encodes a batch of events of one kind and builds its request; the payload is yet to be
    /// compressed.
    /// Changes that metrics tell are added to the totals in `state`.
    pub fn encode_request(
        &self,
        state: &mut MetricSet,
        key: PartitionKey,
        events: Vec<Event>,
    ) -> (request: HttpRequest)
        requires
            same_kind(views(events@)),
        ensures
            request.key == key,
            request.payload@ == payload_of(
                self.encoder.settings@,
                old(state)@,
                views(events@),
            ),
            final(state)@ == totals_after_batch(old(state)@, views(events@)),
    {
        let payload = self.encoder.encode_input(state, events);
        self.build_request(key, payload)
    }
}

}
