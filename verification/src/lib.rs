//! The `opentelemetry` sink.
//!
//! The sink sends logs, metrics and traces to a collector, as Protobuf messages of the OpenTelemetry
//! Protocol (OTLP) over HTTP. This crate decides all that the sink does: which message an event
//! becomes and which bytes the message is written as, where a batch goes and with which headers, and
//! what a healthcheck fetches next. What reads and sends stands outside.
//!
//! - Events and what they hold: `value`, `event`, `metric`; their parts: `text`, `keys`, `number`,
//!   `addition`, `views`, `fields`.
//! - Messages and the bytes that they are written as and read from: `proto`, `wire`, `encode`,
//!   `read`, `read_back`.
//! - From events to messages: `convert`, `ids`, `logs`, `severity`, `totals`, `metrics`,
//!   `distribution`, `sketch`, `traces`, `resource`, `settings`, `same`, `groups`, `encoder`.
//! - The sink around them: `config`, `ordered`, `uri`, `sink`, `request_builder`, `service`,
//!   `health`.
//! - What holds of the whole: `laws`; and of what is sent, part by part: `span_laws`, `log_laws`,
//!   `metric_laws`, `total_laws`, `resource_laws`, `sending_laws`, `wire_laws`, over what objects hold
//!   in `entries`.
pub mod views;
pub mod text;
pub mod keys;
pub mod value;
pub mod event;
pub mod metric;
pub mod number;
pub mod addition;
pub mod fields;
pub mod entries;
pub mod proto;
pub mod wire;
pub mod encode;
pub mod read;
pub mod read_back;
pub mod convert;
pub mod ids;
pub mod logs;
pub mod severity;
pub mod totals;
pub mod metrics;
pub mod distribution;
pub mod sketch;
pub mod traces;
pub mod resource;
pub mod settings;
pub mod same;
pub mod groups;
pub mod encoder;
pub mod config;
pub mod ordered;
pub mod uri;
pub mod sink;
pub mod request_builder;
pub mod service;
pub mod health;
pub mod span_laws;
pub mod log_laws;
pub mod metric_laws;
pub mod total_laws;
pub mod resource_laws;
pub mod sending_laws;
pub mod wire_laws;
pub mod laws;
