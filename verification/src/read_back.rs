//! Payloads are read as what was written.
use vstd::prelude::*;
use vstd::utf8::*;
use crate::encode::{
    any_value_fields, data_field, gauge_fields, histogram_fields, key_value_fields, list_fields,
    optional_field, pairs_fields, repeated_fields, span_head_fields, sum_fields, summary_fields,
    Message,
};
use crate::proto::{
    AnyValue, ExportLogsServiceRequest, ExportMetricsServiceRequest, ExportTraceServiceRequest,
    HistogramDataPoint, KeyValue, Link, LogRecord, NumberDataPoint, OtlpMetric, Resource,
    ResourceLogs, ResourceMetrics, ResourceSpans, ScopeLogs, ScopeMetrics, ScopeSpans, Span,
    SpanEvent, SpanStatus, SpecAnyValue, SpecData, SpecHistogramDataPoint, SpecKeyValue, SpecLink,
    SpecLogRecord, SpecNumberDataPoint, SpecOtlpMetric, SpecResource, SpecResourceLogs,
    SpecResourceMetrics, SpecResourceSpans, SpecScopeLogs, SpecScopeMetrics, SpecScopeSpans,
    SpecSpan, SpecSpanEvent, SpecSpanStatus, SpecSummaryDataPoint, SummaryDataPoint,
    ValueAtQuantile,
};
use crate::read::{
    all_with, fields_in, group_read_fields, last_with, lemma_int32_read_back, lemma_int64_read_back,
    lemma_text_read_back, lemma_unpacked, read_bool, read_bytes, read_double, read_fixed32,
    read_fixed64, read_int32, read_optional_double, read_packed, read_packed_doubles, read_string,
    read_uint32,
};
use crate::value::Double;
use crate::wire::{
    double_bits, field_bytes, law_message_read_back, message_bytes, message_field, WireField,
    WireValue,
};

verus! {

/// The value that bytes are read as: the last of its fields tells its kind.
pub open spec fn read_any_value(bytes: Seq<u8>) -> SpecAnyValue
    decreases bytes.len(),
{
    let fields = fields_in(bytes);
    if fields.len() == 0 {
        SpecAnyValue::Empty
    } else {
        let number = fields.last().number;
        match fields.last().value {
            WireValue::Varint(n) => if number == 2 {
                SpecAnyValue::Truth(n != 0)
            } else if number == 3 {
                SpecAnyValue::Number(n as u64 as i64)
            } else {
                SpecAnyValue::Empty
            },
            WireValue::Fixed64(bits) => if number == 4 {
                SpecAnyValue::Real(Double { bits })
            } else {
                SpecAnyValue::Empty
            },
            WireValue::Bytes(inner) => if number == 1 {
                SpecAnyValue::Text(decode_utf8(inner))
            } else if number == 5 && inner.len() < bytes.len() {
                SpecAnyValue::List(read_list(inner))
            } else if number == 6 && inner.len() < bytes.len() {
                SpecAnyValue::Pairs(read_pairs(inner))
            } else if number == 7 {
                SpecAnyValue::Binary(inner)
            } else {
                SpecAnyValue::Empty
            },
            WireValue::Fixed32(_) => SpecAnyValue::Empty,
        }
    }
}

/// The values that bytes are read as.
pub open spec fn read_list(bytes: Seq<u8>) -> Seq<SpecAnyValue>
    decreases bytes.len(),
{
    let items = all_with(fields_in(bytes), 1);
    Seq::new(
        items.len(),
        |i: int|
            if items[i].len() < bytes.len() {
                read_any_value(items[i])
            } else {
                SpecAnyValue::Empty
            },
    )
}

/// The pairs that bytes are read as.
pub open spec fn read_pairs(bytes: Seq<u8>) -> Seq<SpecKeyValue>
    decreases bytes.len(),
{
    let items = all_with(fields_in(bytes), 1);
    Seq::new(
        items.len(),
        |i: int|
            if items[i].len() < bytes.len() {
                read_key_value(items[i])
            } else {
                SpecKeyValue { key: Seq::empty(), value: None }
            },
    )
}

/// The pair that bytes are read as.
pub open spec fn read_key_value(bytes: Seq<u8>) -> SpecKeyValue
    decreases bytes.len(),
{
    let fields = fields_in(bytes);
    SpecKeyValue {
        key: read_string(fields, 1),
        value: match last_with(fields, 2) {
            Some(WireValue::Bytes(inner)) => if inner.len() < bytes.len() {
                Some(read_any_value(inner))
            } else {
                None
            },
            _ => None,
        },
    }
}

/// What a field holds is shorter than the message.
proof fn lemma_inner_is_shorter(fields: Seq<WireField>, i: int)
    requires
        0 <= i < fields.len(),
    ensures
        fields[i].value matches WireValue::Bytes(inner) ==> inner.len() < message_bytes(
            fields,
        ).len(),
    decreases fields.len(),
{
    let first = fields[0];
    assert(message_bytes(fields) == field_bytes(first) + message_bytes(fields.drop_first()));
    if i == 0 {
        crate::wire::lemma_read_varint(
            first.number * 8 + crate::wire::wire_type(first.value),
            Seq::empty(),
        );
    } else {
        lemma_inner_is_shorter(fields.drop_first(), i - 1);
        assert(fields.drop_first()[i - 1] == fields[i]);
    }
}

/// Among fields with one number and bytes, all are read under that number, and none under another.
pub proof fn lemma_all_of_one_number(fields: Seq<WireField>, own: nat, number: nat)
    requires
        forall|i: int|
            0 <= i < fields.len() ==> (#[trigger] fields[i]).number == own
                && fields[i].value is Bytes,
    ensures
        own == number ==> all_with(fields, number) == Seq::new(
            fields.len(),
            |i: int| fields[i].value->Bytes_0,
        ),
        own != number ==> all_with(fields, number) == Seq::<Seq<u8>>::empty(),
        own != number ==> last_with(fields, number) is None,
    decreases fields.len(),
{
    reveal(last_with);
    reveal(all_with);
    if fields.len() > 0 {
        let rest = fields.drop_last();
        assert forall|i: int| 0 <= i < rest.len() implies (#[trigger] rest[i]).number == own
            && rest[i].value is Bytes by {
            assert(rest[i] == fields[i]);
        }
        lemma_all_of_one_number(rest, own, number);
        assert(fields[fields.len() - 1].number == own);
        if own == number {
            assert(all_with(fields, number) =~= Seq::new(
                fields.len(),
                |i: int| fields[i].value->Bytes_0,
            ));
        }
    } else {
        assert(all_with(fields, number) =~= Seq::empty());
        assert(all_with(fields, number) =~= Seq::new(
            fields.len(),
            |i: int| fields[i].value->Bytes_0,
        ));
    }
}

/// A value is read as it was written.
pub proof fn lemma_any_value_read_back(value: SpecAnyValue)
    ensures
        read_any_value(message_bytes(any_value_fields(value))) == value,
    decreases value,
{
    let fields = any_value_fields(value);
    let bytes = message_bytes(fields);
    law_message_read_back(fields);
    match value {
        SpecAnyValue::Empty => {},
        SpecAnyValue::Text(text) => {
            lemma_text_read_back(text);
        },
        SpecAnyValue::Truth(_) => {},
        SpecAnyValue::Number(number) => {
            lemma_int64_read_back(number);
        },
        SpecAnyValue::Real(_) => {},
        SpecAnyValue::List(values) => {
            lemma_inner_is_shorter(fields, 0);
            lemma_list_read_back(values);
        },
        SpecAnyValue::Pairs(pairs) => {
            lemma_inner_is_shorter(fields, 0);
            lemma_pairs_read_back(pairs);
        },
        SpecAnyValue::Binary(_) => {},
    }
}

proof fn lemma_list_read_back(values: Seq<SpecAnyValue>)
    ensures
        read_list(message_bytes(list_fields(values))) == values,
    decreases values,
{
    let fields = list_fields(values);
    let bytes = message_bytes(fields);
    law_message_read_back(fields);
    lemma_all_of_one_number(fields, 1, 1);
    assert forall|i: int| 0 <= i < values.len() implies #[trigger] read_list(bytes)[i]
        == values[i] by {
        lemma_inner_is_shorter(fields, i);
        lemma_any_value_read_back(values[i]);
    }
    assert(read_list(bytes) =~= values);
}

proof fn lemma_pairs_read_back(pairs: Seq<SpecKeyValue>)
    ensures
        read_pairs(message_bytes(pairs_fields(1, pairs))) == pairs,
    decreases pairs,
{
    let fields = pairs_fields(1, pairs);
    let bytes = message_bytes(fields);
    law_message_read_back(fields);
    lemma_all_of_one_number(fields, 1, 1);
    assert forall|i: int| 0 <= i < pairs.len() implies #[trigger] read_pairs(bytes)[i]
        == pairs[i] by {
        lemma_inner_is_shorter(fields, i);
        lemma_key_value_read_back(pairs[i]);
    }
    assert(read_pairs(bytes) =~= pairs);
}

/// A pair is read as it was written.
pub proof fn lemma_key_value_read_back(pair: SpecKeyValue)
    ensures
        read_key_value(message_bytes(key_value_fields(pair))) == pair,
    decreases pair,
{
    broadcast use group_read_fields;

    let fields = key_value_fields(pair);
    law_message_read_back(fields);
    lemma_text_read_back(pair.key);
    if let Some(value) = pair.value {
        let last = fields.len() - 1;
        assert(fields[last] == message_field(2, any_value_fields(value))[0]);
        lemma_inner_is_shorter(fields, last);
        lemma_any_value_read_back(value);
    }
    assert(read_string(fields, 1) == pair.key);
}

/// A message that is read as it was written.
pub trait ReadBack: Message {
    /// The message that bytes are read as.
    spec fn read(bytes: Seq<u8>) -> Self::V;

    /// Whether nothing of a message is lost when it is written: negative zero is, in a place where
    /// zero is not written.
    spec fn lossless(model: Self::V) -> bool;

    /// A message of which nothing is lost is read as it was written.
    proof fn law_read_back(model: Self::V)
        requires
            Self::lossless(model),
        ensures
            Self::read(message_bytes(Self::fields_of(model))) == model,
    ;
}

/// Messages under a number.
pub open spec fn read_messages<M: ReadBack>(fields: Seq<WireField>, number: nat) -> Seq<M::V> {
    let items = all_with(fields, number);
    Seq::new(items.len(), |i: int| M::read(items[i]))
}

/// A message under a number, where there is one.
pub open spec fn read_optional<M: ReadBack>(fields: Seq<WireField>, number: nat) -> Option<M::V> {
    match last_with(fields, number) {
        Some(WireValue::Bytes(bytes)) => Some(M::read(bytes)),
        _ => None,
    }
}

/// Whether nothing is lost of any of the messages.
pub open spec fn all_lossless<M: ReadBack>(models: Seq<M::V>) -> bool {
    forall|i: int| 0 <= i < models.len() ==> M::lossless(#[trigger] models[i])
}

/// Whether nothing is lost of an optional message.
pub open spec fn optional_lossless<M: ReadBack>(model: Option<M::V>) -> bool {
    model matches Some(m) ==> M::lossless(m)
}

/// The bytes of messages.
pub open spec fn bytes_of_all<M: Message>(models: Seq<M::V>) -> Seq<Seq<u8>> {
    Seq::new(models.len(), |i: int| message_bytes(M::fields_of(models[i])))
}

pub broadcast proof fn lemma_all_repeated<M: Message>(own: nat, models: Seq<M::V>, number: nat)
    ensures
        #[trigger] all_with(repeated_fields::<M>(own, models), number) == (if own == number {
            bytes_of_all::<M>(models)
        } else {
            Seq::empty()
        }),
{
    let fields = repeated_fields::<M>(own, models);
    lemma_all_of_one_number(fields, own, number);
    if own == number {
        assert(Seq::new(fields.len(), |i: int| fields[i].value->Bytes_0) =~= bytes_of_all::<M>(
            models,
        ));
    }
}

pub broadcast proof fn lemma_last_repeated<M: Message>(own: nat, models: Seq<M::V>, number: nat)
    requires
        own != number,
    ensures
        #[trigger] last_with(repeated_fields::<M>(own, models), number) is None,
{
    lemma_all_of_one_number(repeated_fields::<M>(own, models), own, number);
}

pub broadcast group group_read_repeated {
    lemma_all_repeated,
    lemma_last_repeated,
}

/// Messages are read as they were written.
proof fn lemma_messages_read_back<M: ReadBack>(
    fields: Seq<WireField>,
    number: nat,
    models: Seq<M::V>,
)
    requires
        all_with(fields, number) == bytes_of_all::<M>(models),
        all_lossless::<M>(models),
    ensures
        read_messages::<M>(fields, number) == models,
{
    assert forall|i: int| 0 <= i < models.len() implies #[trigger] read_messages::<M>(
        fields,
        number,
    )[i] == models[i] by {
        M::law_read_back(models[i]);
    }
    assert(read_messages::<M>(fields, number) =~= models);
}

/// An optional message is read as it was written.
proof fn lemma_optional_read_back<M: ReadBack>(
    fields: Seq<WireField>,
    number: nat,
    model: Option<M::V>,
)
    requires
        last_with(fields, number) == last_with(optional_field::<M>(number, model), number),
        optional_lossless::<M>(model),
    ensures
        read_optional::<M>(fields, number) == model,
{
    broadcast use group_read_fields;

    if let Some(m) = model {
        M::law_read_back(m);
    }
}

/// Whether a double is not negative zero.
pub open spec fn not_negative_zero(number: Double) -> bool {
    number.bits != 0x8000_0000_0000_0000
}

impl ReadBack for AnyValue {
    open spec fn read(bytes: Seq<u8>) -> SpecAnyValue {
        read_any_value(bytes)
    }

    open spec fn lossless(model: SpecAnyValue) -> bool {
        true
    }

    proof fn law_read_back(model: SpecAnyValue) {
        lemma_any_value_read_back(model);
    }
}

impl ReadBack for KeyValue {
    open spec fn read(bytes: Seq<u8>) -> SpecKeyValue {
        read_key_value(bytes)
    }

    open spec fn lossless(model: SpecKeyValue) -> bool {
        true
    }

    proof fn law_read_back(model: SpecKeyValue) {
        lemma_key_value_read_back(model);
    }
}

impl ReadBack for Resource {
    open spec fn read(bytes: Seq<u8>) -> SpecResource {
        let fields = fields_in(bytes);
        SpecResource {
            attributes: read_messages::<KeyValue>(fields, 1),
            dropped_attributes_count: read_uint32(fields, 2),
        }
    }

    open spec fn lossless(model: SpecResource) -> bool {
        true
    }

    proof fn law_read_back(model: SpecResource) {
        let fields = Self::fields_of(model);
        law_message_read_back(fields);
        assert(all_with(fields, 1) =~= bytes_of_all::<KeyValue>(model.attributes)) by {
            broadcast use group_read_fields;
            broadcast use group_read_repeated;

        }
        lemma_messages_read_back::<KeyValue>(fields, 1, model.attributes);
        assert(read_uint32(fields, 2) == model.dropped_attributes_count) by {
            broadcast use group_read_fields;
            broadcast use group_read_repeated;

        }
        assert(Self::read(message_bytes(fields)) =~= model);
    }
}

impl ReadBack for LogRecord {
    open spec fn read(bytes: Seq<u8>) -> SpecLogRecord {
        let fields = fields_in(bytes);
        SpecLogRecord {
            time_unix_nano: read_fixed64(fields, 1),
            severity_number: read_int32(fields, 2),
            severity_text: read_string(fields, 3),
            body: read_optional::<AnyValue>(fields, 5),
            attributes: read_messages::<KeyValue>(fields, 6),
            dropped_attributes_count: read_uint32(fields, 7),
            flags: read_fixed32(fields, 8),
            trace_id: read_bytes(fields, 9),
            span_id: read_bytes(fields, 10),
            observed_time_unix_nano: read_fixed64(fields, 11),
        }
    }

    open spec fn lossless(model: SpecLogRecord) -> bool {
        true
    }

    #[verifier::rlimit(60)]
    #[verifier::spinoff_prover]
    proof fn law_read_back(model: SpecLogRecord) {
        let fields = Self::fields_of(model);
        law_message_read_back(fields);
        assert(read_fixed64(fields, 1) == model.time_unix_nano) by {
            broadcast use group_read_fields;
            broadcast use group_read_repeated;

        }
        assert(read_int32(fields, 2) == model.severity_number) by {
            broadcast use group_read_fields;
            broadcast use group_read_repeated;

            lemma_int32_read_back(model.severity_number);
        }
        assert(read_string(fields, 3) == model.severity_text) by {
            broadcast use group_read_fields;
            broadcast use group_read_repeated;

            lemma_text_read_back(model.severity_text);
        }
        assert(last_with(fields, 5) == last_with(
            optional_field::<AnyValue>(5, model.body),
            5,
        )) by {
            broadcast use group_read_fields;
            broadcast use group_read_repeated;

        }
        lemma_optional_read_back::<AnyValue>(fields, 5, model.body);
        assert(all_with(fields, 6) =~= bytes_of_all::<KeyValue>(model.attributes)) by {
            broadcast use group_read_fields;
            broadcast use group_read_repeated;

        }
        lemma_messages_read_back::<KeyValue>(fields, 6, model.attributes);
        assert(read_uint32(fields, 7) == model.dropped_attributes_count) by {
            broadcast use group_read_fields;
            broadcast use group_read_repeated;

        }
        assert(read_fixed32(fields, 8) == model.flags) by {
            broadcast use group_read_fields;
            broadcast use group_read_repeated;

        }
        assert(read_bytes(fields, 9) =~= model.trace_id) by {
            broadcast use group_read_fields;
            broadcast use group_read_repeated;

        }
        assert(read_bytes(fields, 10) =~= model.span_id) by {
            broadcast use group_read_fields;
            broadcast use group_read_repeated;

        }
        assert(read_fixed64(fields, 11) == model.observed_time_unix_nano) by {
            broadcast use group_read_fields;
            broadcast use group_read_repeated;

        }
        assert(Self::read(message_bytes(fields)) =~= model);
    }
}

impl ReadBack for ScopeLogs {
    open spec fn read(bytes: Seq<u8>) -> SpecScopeLogs {
        let fields = fields_in(bytes);
        SpecScopeLogs {
            log_records: read_messages::<LogRecord>(fields, 2),
            schema_url: read_string(fields, 3),
        }
    }

    open spec fn lossless(model: SpecScopeLogs) -> bool {
        all_lossless::<LogRecord>(model.log_records)
    }

    proof fn law_read_back(model: SpecScopeLogs) {
        let fields = Self::fields_of(model);
        law_message_read_back(fields);
        assert(all_with(fields, 2) =~= bytes_of_all::<LogRecord>(model.log_records)) by {
            broadcast use group_read_fields;
            broadcast use group_read_repeated;

        }
        lemma_messages_read_back::<LogRecord>(fields, 2, model.log_records);
        assert(read_string(fields, 3) == model.schema_url) by {
            broadcast use group_read_fields;
            broadcast use group_read_repeated;

            lemma_text_read_back(model.schema_url);
        }
        assert(Self::read(message_bytes(fields)) =~= model);
    }
}

impl ReadBack for ResourceLogs {
    open spec fn read(bytes: Seq<u8>) -> SpecResourceLogs {
        let fields = fields_in(bytes);
        SpecResourceLogs {
            resource: read_optional::<Resource>(fields, 1),
            scope_logs: read_messages::<ScopeLogs>(fields, 2),
            schema_url: read_string(fields, 3),
        }
    }

    open spec fn lossless(model: SpecResourceLogs) -> bool {
        &&& optional_lossless::<Resource>(model.resource)
        &&& all_lossless::<ScopeLogs>(model.scope_logs)
    }

    proof fn law_read_back(model: SpecResourceLogs) {
        let fields = Self::fields_of(model);
        law_message_read_back(fields);
        assert(last_with(fields, 1) == last_with(
            optional_field::<Resource>(1, model.resource),
            1,
        )) by {
            broadcast use group_read_fields;
            broadcast use group_read_repeated;

        }
        lemma_optional_read_back::<Resource>(fields, 1, model.resource);
        assert(all_with(fields, 2) =~= bytes_of_all::<ScopeLogs>(model.scope_logs)) by {
            broadcast use group_read_fields;
            broadcast use group_read_repeated;

        }
        lemma_messages_read_back::<ScopeLogs>(fields, 2, model.scope_logs);
        assert(read_string(fields, 3) == model.schema_url) by {
            broadcast use group_read_fields;
            broadcast use group_read_repeated;

            lemma_text_read_back(model.schema_url);
        }
        assert(Self::read(message_bytes(fields)) =~= model);
    }
}

impl ReadBack for ExportLogsServiceRequest {
    open spec fn read(bytes: Seq<u8>) -> Seq<SpecResourceLogs> {
        let fields = fields_in(bytes);
        read_messages::<ResourceLogs>(fields, 1)
    }

    open spec fn lossless(model: Seq<SpecResourceLogs>) -> bool {
        all_lossless::<ResourceLogs>(model)
    }

    proof fn law_read_back(model: Seq<SpecResourceLogs>) {
        let fields = Self::fields_of(model);
        law_message_read_back(fields);
        assert(all_with(fields, 1) =~= bytes_of_all::<ResourceLogs>(model)) by {
            broadcast use group_read_fields;
            broadcast use group_read_repeated;

        }
        lemma_messages_read_back::<ResourceLogs>(fields, 1, model);
        assert(Self::read(message_bytes(fields)) =~= model);
    }
}

impl ReadBack for NumberDataPoint {
    open spec fn read(bytes: Seq<u8>) -> SpecNumberDataPoint {
        let fields = fields_in(bytes);
        SpecNumberDataPoint {
            start_time_unix_nano: read_fixed64(fields, 2),
            time_unix_nano: read_fixed64(fields, 3),
            value: read_optional_double(fields, 4),
            attributes: read_messages::<KeyValue>(fields, 7),
            flags: read_uint32(fields, 8),
        }
    }

    open spec fn lossless(model: SpecNumberDataPoint) -> bool {
        true
    }

    proof fn law_read_back(model: SpecNumberDataPoint) {
        let fields = Self::fields_of(model);
        law_message_read_back(fields);
        assert(read_fixed64(fields, 2) == model.start_time_unix_nano) by {
            broadcast use group_read_fields;
            broadcast use group_read_repeated;

        }
        assert(read_fixed64(fields, 3) == model.time_unix_nano) by {
            broadcast use group_read_fields;
            broadcast use group_read_repeated;

        }
        assert(read_optional_double(fields, 4) == model.value) by {
            broadcast use group_read_fields;
            broadcast use group_read_repeated;

        }
        assert(all_with(fields, 7) =~= bytes_of_all::<KeyValue>(model.attributes)) by {
            broadcast use group_read_fields;
            broadcast use group_read_repeated;

        }
        lemma_messages_read_back::<KeyValue>(fields, 7, model.attributes);
        assert(read_uint32(fields, 8) == model.flags) by {
            broadcast use group_read_fields;
            broadcast use group_read_repeated;

        }
        assert(Self::read(message_bytes(fields)) =~= model);
    }
}

impl ReadBack for HistogramDataPoint {
    open spec fn read(bytes: Seq<u8>) -> SpecHistogramDataPoint {
        let fields = fields_in(bytes);
        SpecHistogramDataPoint {
            start_time_unix_nano: read_fixed64(fields, 2),
            time_unix_nano: read_fixed64(fields, 3),
            count: read_fixed64(fields, 4),
            sum: read_optional_double(fields, 5),
            bucket_counts: read_packed(fields, 6),
            explicit_bounds: read_packed_doubles(fields, 7),
            attributes: read_messages::<KeyValue>(fields, 9),
            flags: read_uint32(fields, 10),
            min: read_optional_double(fields, 11),
            max: read_optional_double(fields, 12),
        }
    }

    open spec fn lossless(model: SpecHistogramDataPoint) -> bool {
        true
    }

    #[verifier::rlimit(60)]
    #[verifier::spinoff_prover]
    proof fn law_read_back(model: SpecHistogramDataPoint) {
        let fields = Self::fields_of(model);
        law_message_read_back(fields);
        assert(read_fixed64(fields, 2) == model.start_time_unix_nano) by {
            broadcast use group_read_fields;
            broadcast use group_read_repeated;

        }
        assert(read_fixed64(fields, 3) == model.time_unix_nano) by {
            broadcast use group_read_fields;
            broadcast use group_read_repeated;

        }
        assert(read_fixed64(fields, 4) == model.count) by {
            broadcast use group_read_fields;
            broadcast use group_read_repeated;

        }
        assert(read_optional_double(fields, 5) == model.sum) by {
            broadcast use group_read_fields;
            broadcast use group_read_repeated;

        }
        assert(read_packed(fields, 6) =~= model.bucket_counts) by {
            broadcast use group_read_fields;
            broadcast use group_read_repeated;

            lemma_unpacked(model.bucket_counts);
        }
        assert(read_packed_doubles(fields, 7) =~= model.explicit_bounds) by {
            broadcast use group_read_fields;
            broadcast use group_read_repeated;

            lemma_unpacked(double_bits(model.explicit_bounds));
        }
        assert(all_with(fields, 9) =~= bytes_of_all::<KeyValue>(model.attributes)) by {
            broadcast use group_read_fields;
            broadcast use group_read_repeated;

        }
        lemma_messages_read_back::<KeyValue>(fields, 9, model.attributes);
        assert(read_uint32(fields, 10) == model.flags) by {
            broadcast use group_read_fields;
            broadcast use group_read_repeated;

        }
        assert(read_optional_double(fields, 11) == model.min) by {
            broadcast use group_read_fields;
            broadcast use group_read_repeated;

        }
        assert(read_optional_double(fields, 12) == model.max) by {
            broadcast use group_read_fields;
            broadcast use group_read_repeated;

        }
        assert(Self::read(message_bytes(fields)) =~= model);
    }
}

impl ReadBack for ValueAtQuantile {
    open spec fn read(bytes: Seq<u8>) -> ValueAtQuantile {
        let fields = fields_in(bytes);
        ValueAtQuantile {
            quantile: read_double(fields, 1),
            value: read_double(fields, 2),
        }
    }

    open spec fn lossless(model: ValueAtQuantile) -> bool {
        &&& not_negative_zero(model.quantile)
        &&& not_negative_zero(model.value)
    }

    proof fn law_read_back(model: ValueAtQuantile) {
        let fields = Self::fields_of(model);
        law_message_read_back(fields);
        assert(read_double(fields, 1) == model.quantile) by {
            broadcast use group_read_fields;
            broadcast use group_read_repeated;

        }
        assert(read_double(fields, 2) == model.value) by {
            broadcast use group_read_fields;
            broadcast use group_read_repeated;

        }
        assert(Self::read(message_bytes(fields)) =~= model);
    }
}

impl ReadBack for SummaryDataPoint {
    open spec fn read(bytes: Seq<u8>) -> SpecSummaryDataPoint {
        let fields = fields_in(bytes);
        SpecSummaryDataPoint {
            start_time_unix_nano: read_fixed64(fields, 2),
            time_unix_nano: read_fixed64(fields, 3),
            count: read_fixed64(fields, 4),
            sum: read_double(fields, 5),
            quantile_values: read_messages::<ValueAtQuantile>(fields, 6),
            attributes: read_messages::<KeyValue>(fields, 7),
            flags: read_uint32(fields, 8),
        }
    }

    open spec fn lossless(model: SpecSummaryDataPoint) -> bool {
        &&& not_negative_zero(model.sum)
        &&& all_lossless::<ValueAtQuantile>(model.quantile_values)
    }

    proof fn law_read_back(model: SpecSummaryDataPoint) {
        let fields = Self::fields_of(model);
        law_message_read_back(fields);
        assert(read_fixed64(fields, 2) == model.start_time_unix_nano) by {
            broadcast use group_read_fields;
            broadcast use group_read_repeated;

        }
        assert(read_fixed64(fields, 3) == model.time_unix_nano) by {
            broadcast use group_read_fields;
            broadcast use group_read_repeated;

        }
        assert(read_fixed64(fields, 4) == model.count) by {
            broadcast use group_read_fields;
            broadcast use group_read_repeated;

        }
        assert(read_double(fields, 5) == model.sum) by {
            broadcast use group_read_fields;
            broadcast use group_read_repeated;

        }
        assert(all_with(fields, 6) =~= bytes_of_all::<ValueAtQuantile>(model.quantile_values)) by {
            broadcast use group_read_fields;
            broadcast use group_read_repeated;

        }
        lemma_messages_read_back::<ValueAtQuantile>(fields, 6, model.quantile_values);
        assert(all_with(fields, 7) =~= bytes_of_all::<KeyValue>(model.attributes)) by {
            broadcast use group_read_fields;
            broadcast use group_read_repeated;

        }
        lemma_messages_read_back::<KeyValue>(fields, 7, model.attributes);
        assert(read_uint32(fields, 8) == model.flags) by {
            broadcast use group_read_fields;
            broadcast use group_read_repeated;

        }
        assert(Self::read(message_bytes(fields)) =~= model);
    }
}

/// The data of a metric: the number of its field tells its kind.
pub open spec fn read_data(fields: Seq<WireField>) -> Option<SpecData> {
    match (
        last_with(fields, 5),
        last_with(fields, 7),
        last_with(fields, 9),
        last_with(fields, 11),
    ) {
        (Some(WireValue::Bytes(gauge)), _, _, _) => Some(
            SpecData::Gauge {
                gauge_points: read_messages::<NumberDataPoint>(fields_in(gauge), 1),
            },
        ),
        (_, Some(WireValue::Bytes(sum)), _, _) => Some(
            SpecData::Sum {
                sum_points: read_messages::<NumberDataPoint>(fields_in(sum), 1),
                aggregation_temporality: read_int32(fields_in(sum), 2),
                is_monotonic: read_bool(fields_in(sum), 3),
            },
        ),
        (_, _, Some(WireValue::Bytes(histogram)), _) => Some(
            SpecData::Histogram {
                histogram_points: read_messages::<HistogramDataPoint>(fields_in(histogram), 1),
                aggregation_temporality: read_int32(fields_in(histogram), 2),
            },
        ),
        (_, _, _, Some(WireValue::Bytes(summary))) => Some(
            SpecData::Summary {
                summary_points: read_messages::<SummaryDataPoint>(fields_in(summary), 1),
            },
        ),
        _ => None,
    }
}

/// Whether nothing is lost of the data of a metric.
pub open spec fn data_lossless(data: Option<SpecData>) -> bool {
    data matches Some(SpecData::Summary { summary_points }) ==> all_lossless::<SummaryDataPoint>(
        summary_points,
    )
}

/// The data of a metric is read as it was written.
proof fn lemma_data_read_back(fields: Seq<WireField>, data: Option<SpecData>)
    requires
        forall|number: nat|
            number >= 5 ==> #[trigger] last_with(fields, number) == last_with(
                data_field(data),
                number,
            ),
        data_lossless(data),
    ensures
        read_data(fields) == data,
{
    broadcast use group_read_fields;
    broadcast use group_read_repeated;

    match data {
        Some(SpecData::Gauge { gauge_points }) => {
            let inner = gauge_fields(gauge_points);
            law_message_read_back(inner);
            assert(all_lossless::<NumberDataPoint>(gauge_points));
            lemma_messages_read_back::<NumberDataPoint>(inner, 1, gauge_points);
        },
        Some(SpecData::Sum { sum_points, aggregation_temporality, is_monotonic }) => {
            let inner = sum_fields(sum_points, aggregation_temporality, is_monotonic);
            law_message_read_back(inner);
            assert(all_with(inner, 1) =~= bytes_of_all::<NumberDataPoint>(sum_points));
            lemma_messages_read_back::<NumberDataPoint>(inner, 1, sum_points);
            lemma_int32_read_back(aggregation_temporality);
        },
        Some(SpecData::Histogram { histogram_points, aggregation_temporality }) => {
            let inner = histogram_fields(histogram_points, aggregation_temporality);
            law_message_read_back(inner);
            assert(all_with(inner, 1) =~= bytes_of_all::<HistogramDataPoint>(histogram_points));
            lemma_messages_read_back::<HistogramDataPoint>(inner, 1, histogram_points);
            lemma_int32_read_back(aggregation_temporality);
        },
        Some(SpecData::Summary { summary_points }) => {
            let inner = summary_fields(summary_points);
            law_message_read_back(inner);
            lemma_messages_read_back::<SummaryDataPoint>(inner, 1, summary_points);
        },
        None => {},
    }
}

impl ReadBack for OtlpMetric {
    open spec fn read(bytes: Seq<u8>) -> SpecOtlpMetric {
        let fields = fields_in(bytes);
        SpecOtlpMetric {
            name: read_string(fields, 1),
            description: read_string(fields, 2),
            unit: read_string(fields, 3),
            data: read_data(fields),
        }
    }

    open spec fn lossless(model: SpecOtlpMetric) -> bool {
        data_lossless(model.data)
    }

    proof fn law_read_back(model: SpecOtlpMetric) {
        let fields = Self::fields_of(model);
        law_message_read_back(fields);
        assert(read_string(fields, 1) == model.name) by {
            broadcast use group_read_fields;
            broadcast use group_read_repeated;

            lemma_text_read_back(model.name);
        }
        assert(read_string(fields, 2) == model.description) by {
            broadcast use group_read_fields;
            broadcast use group_read_repeated;

            lemma_text_read_back(model.description);
        }
        assert(read_string(fields, 3) == model.unit) by {
            broadcast use group_read_fields;
            broadcast use group_read_repeated;

            lemma_text_read_back(model.unit);
        }
        assert forall|number: nat| number >= 5 implies #[trigger] last_with(fields, number)
            == last_with(data_field(model.data), number) by {
            broadcast use group_read_fields;
            broadcast use group_read_repeated;

        }
        lemma_data_read_back(fields, model.data);
        assert(Self::read(message_bytes(fields)) =~= model);
    }
}

impl ReadBack for ScopeMetrics {
    open spec fn read(bytes: Seq<u8>) -> SpecScopeMetrics {
        let fields = fields_in(bytes);
        SpecScopeMetrics {
            metrics: read_messages::<OtlpMetric>(fields, 2),
            schema_url: read_string(fields, 3),
        }
    }

    open spec fn lossless(model: SpecScopeMetrics) -> bool {
        all_lossless::<OtlpMetric>(model.metrics)
    }

    proof fn law_read_back(model: SpecScopeMetrics) {
        let fields = Self::fields_of(model);
        law_message_read_back(fields);
        assert(all_with(fields, 2) =~= bytes_of_all::<OtlpMetric>(model.metrics)) by {
            broadcast use group_read_fields;
            broadcast use group_read_repeated;

        }
        lemma_messages_read_back::<OtlpMetric>(fields, 2, model.metrics);
        assert(read_string(fields, 3) == model.schema_url) by {
            broadcast use group_read_fields;
            broadcast use group_read_repeated;

            lemma_text_read_back(model.schema_url);
        }
        assert(Self::read(message_bytes(fields)) =~= model);
    }
}

impl ReadBack for ResourceMetrics {
    open spec fn read(bytes: Seq<u8>) -> SpecResourceMetrics {
        let fields = fields_in(bytes);
        SpecResourceMetrics {
            resource: read_optional::<Resource>(fields, 1),
            scope_metrics: read_messages::<ScopeMetrics>(fields, 2),
            schema_url: read_string(fields, 3),
        }
    }

    open spec fn lossless(model: SpecResourceMetrics) -> bool {
        &&& optional_lossless::<Resource>(model.resource)
        &&& all_lossless::<ScopeMetrics>(model.scope_metrics)
    }

    proof fn law_read_back(model: SpecResourceMetrics) {
        let fields = Self::fields_of(model);
        law_message_read_back(fields);
        assert(last_with(fields, 1) == last_with(
            optional_field::<Resource>(1, model.resource),
            1,
        )) by {
            broadcast use group_read_fields;
            broadcast use group_read_repeated;

        }
        lemma_optional_read_back::<Resource>(fields, 1, model.resource);
        assert(all_with(fields, 2) =~= bytes_of_all::<ScopeMetrics>(model.scope_metrics)) by {
            broadcast use group_read_fields;
            broadcast use group_read_repeated;

        }
        lemma_messages_read_back::<ScopeMetrics>(fields, 2, model.scope_metrics);
        assert(read_string(fields, 3) == model.schema_url) by {
            broadcast use group_read_fields;
            broadcast use group_read_repeated;

            lemma_text_read_back(model.schema_url);
        }
        assert(Self::read(message_bytes(fields)) =~= model);
    }
}

impl ReadBack for ExportMetricsServiceRequest {
    open spec fn read(bytes: Seq<u8>) -> Seq<SpecResourceMetrics> {
        let fields = fields_in(bytes);
        read_messages::<ResourceMetrics>(fields, 1)
    }

    open spec fn lossless(model: Seq<SpecResourceMetrics>) -> bool {
        all_lossless::<ResourceMetrics>(model)
    }

    proof fn law_read_back(model: Seq<SpecResourceMetrics>) {
        let fields = Self::fields_of(model);
        law_message_read_back(fields);
        assert(all_with(fields, 1) =~= bytes_of_all::<ResourceMetrics>(model)) by {
            broadcast use group_read_fields;
            broadcast use group_read_repeated;

        }
        lemma_messages_read_back::<ResourceMetrics>(fields, 1, model);
        assert(Self::read(message_bytes(fields)) =~= model);
    }
}

impl ReadBack for SpanEvent {
    open spec fn read(bytes: Seq<u8>) -> SpecSpanEvent {
        let fields = fields_in(bytes);
        SpecSpanEvent {
            time_unix_nano: read_fixed64(fields, 1),
            name: read_string(fields, 2),
            attributes: read_messages::<KeyValue>(fields, 3),
            dropped_attributes_count: read_uint32(fields, 4),
        }
    }

    open spec fn lossless(model: SpecSpanEvent) -> bool {
        true
    }

    proof fn law_read_back(model: SpecSpanEvent) {
        let fields = Self::fields_of(model);
        law_message_read_back(fields);
        assert(read_fixed64(fields, 1) == model.time_unix_nano) by {
            broadcast use group_read_fields;
            broadcast use group_read_repeated;

        }
        assert(read_string(fields, 2) == model.name) by {
            broadcast use group_read_fields;
            broadcast use group_read_repeated;

            lemma_text_read_back(model.name);
        }
        assert(all_with(fields, 3) =~= bytes_of_all::<KeyValue>(model.attributes)) by {
            broadcast use group_read_fields;
            broadcast use group_read_repeated;

        }
        lemma_messages_read_back::<KeyValue>(fields, 3, model.attributes);
        assert(read_uint32(fields, 4) == model.dropped_attributes_count) by {
            broadcast use group_read_fields;
            broadcast use group_read_repeated;

        }
        assert(Self::read(message_bytes(fields)) =~= model);
    }
}

impl ReadBack for Link {
    open spec fn read(bytes: Seq<u8>) -> SpecLink {
        let fields = fields_in(bytes);
        SpecLink {
            trace_id: read_bytes(fields, 1),
            span_id: read_bytes(fields, 2),
            trace_state: read_string(fields, 3),
            attributes: read_messages::<KeyValue>(fields, 4),
            dropped_attributes_count: read_uint32(fields, 5),
        }
    }

    open spec fn lossless(model: SpecLink) -> bool {
        true
    }

    proof fn law_read_back(model: SpecLink) {
        let fields = Self::fields_of(model);
        law_message_read_back(fields);
        assert(read_bytes(fields, 1) =~= model.trace_id) by {
            broadcast use group_read_fields;
            broadcast use group_read_repeated;

        }
        assert(read_bytes(fields, 2) =~= model.span_id) by {
            broadcast use group_read_fields;
            broadcast use group_read_repeated;

        }
        assert(read_string(fields, 3) == model.trace_state) by {
            broadcast use group_read_fields;
            broadcast use group_read_repeated;

            lemma_text_read_back(model.trace_state);
        }
        assert(all_with(fields, 4) =~= bytes_of_all::<KeyValue>(model.attributes)) by {
            broadcast use group_read_fields;
            broadcast use group_read_repeated;

        }
        lemma_messages_read_back::<KeyValue>(fields, 4, model.attributes);
        assert(read_uint32(fields, 5) == model.dropped_attributes_count) by {
            broadcast use group_read_fields;
            broadcast use group_read_repeated;

        }
        assert(Self::read(message_bytes(fields)) =~= model);
    }
}

impl ReadBack for SpanStatus {
    open spec fn read(bytes: Seq<u8>) -> SpecSpanStatus {
        let fields = fields_in(bytes);
        SpecSpanStatus {
            message: read_string(fields, 2),
            code: read_int32(fields, 3),
        }
    }

    open spec fn lossless(model: SpecSpanStatus) -> bool {
        true
    }

    proof fn law_read_back(model: SpecSpanStatus) {
        let fields = Self::fields_of(model);
        law_message_read_back(fields);
        assert(read_string(fields, 2) == model.message) by {
            broadcast use group_read_fields;
            broadcast use group_read_repeated;

            lemma_text_read_back(model.message);
        }
        assert(read_int32(fields, 3) == model.code) by {
            broadcast use group_read_fields;
            broadcast use group_read_repeated;

            lemma_int32_read_back(model.code);
        }
        assert(Self::read(message_bytes(fields)) =~= model);
    }
}

/// What a span is and when it was is read as it was written.
#[verifier::rlimit(40)]
proof fn lemma_span_head_read_back(model: SpecSpan)
    ensures
        read_bytes(span_head_fields(model), 1) == model.trace_id,
        read_bytes(span_head_fields(model), 2) == model.span_id,
        read_string(span_head_fields(model), 3) == model.trace_state,
        read_bytes(span_head_fields(model), 4) == model.parent_span_id,
        read_string(span_head_fields(model), 5) == model.name,
        read_int32(span_head_fields(model), 6) == model.kind,
        read_fixed64(span_head_fields(model), 7) == model.start_time_unix_nano,
        read_fixed64(span_head_fields(model), 8) == model.end_time_unix_nano,
        forall|number: nat|
            number > 8 ==> #[trigger] last_with(span_head_fields(model), number) is None,
        forall|number: nat|
            number > 8 ==> #[trigger] all_with(span_head_fields(model), number) == Seq::<
                Seq<u8>,
            >::empty(),
{
    broadcast use group_read_fields;

    reveal(span_head_fields);
    lemma_text_read_back(model.trace_state);
    lemma_text_read_back(model.name);
    lemma_int32_read_back(model.kind);
    let fields = span_head_fields(model);
    assert(read_bytes(fields, 1) =~= model.trace_id);
    assert(read_bytes(fields, 2) =~= model.span_id);
    assert(read_bytes(fields, 4) =~= model.parent_span_id);
    assert forall|number: nat| number > 8 implies #[trigger] all_with(fields, number) == Seq::<
        Seq<u8>,
    >::empty() by {
        assert(all_with(fields, number) =~= Seq::empty());
    }
}

impl ReadBack for Span {
    open spec fn read(bytes: Seq<u8>) -> SpecSpan {
        let fields = fields_in(bytes);
        SpecSpan {
            trace_id: read_bytes(fields, 1),
            span_id: read_bytes(fields, 2),
            trace_state: read_string(fields, 3),
            parent_span_id: read_bytes(fields, 4),
            name: read_string(fields, 5),
            kind: read_int32(fields, 6),
            start_time_unix_nano: read_fixed64(fields, 7),
            end_time_unix_nano: read_fixed64(fields, 8),
            attributes: read_messages::<KeyValue>(fields, 9),
            dropped_attributes_count: read_uint32(fields, 10),
            events: read_messages::<SpanEvent>(fields, 11),
            dropped_events_count: read_uint32(fields, 12),
            links: read_messages::<Link>(fields, 13),
            dropped_links_count: read_uint32(fields, 14),
            status: read_optional::<SpanStatus>(fields, 15),
        }
    }

    open spec fn lossless(model: SpecSpan) -> bool {
        &&& all_lossless::<SpanEvent>(model.events)
        &&& all_lossless::<Link>(model.links)
        &&& optional_lossless::<SpanStatus>(model.status)
    }

    #[verifier::rlimit(40)]
    proof fn law_read_back(model: SpecSpan) {
        let fields = Self::fields_of(model);
        law_message_read_back(fields);
        lemma_span_head_read_back(model);
        assert(last_with(fields, 1) == last_with(span_head_fields(model), 1)) by {
            broadcast use group_read_fields;
            broadcast use group_read_repeated;

        }
        assert(last_with(fields, 2) == last_with(span_head_fields(model), 2)) by {
            broadcast use group_read_fields;
            broadcast use group_read_repeated;

        }
        assert(last_with(fields, 3) == last_with(span_head_fields(model), 3)) by {
            broadcast use group_read_fields;
            broadcast use group_read_repeated;

        }
        assert(last_with(fields, 4) == last_with(span_head_fields(model), 4)) by {
            broadcast use group_read_fields;
            broadcast use group_read_repeated;

        }
        assert(last_with(fields, 5) == last_with(span_head_fields(model), 5)) by {
            broadcast use group_read_fields;
            broadcast use group_read_repeated;

        }
        assert(last_with(fields, 6) == last_with(span_head_fields(model), 6)) by {
            broadcast use group_read_fields;
            broadcast use group_read_repeated;

        }
        assert(last_with(fields, 7) == last_with(span_head_fields(model), 7)) by {
            broadcast use group_read_fields;
            broadcast use group_read_repeated;

        }
        assert(last_with(fields, 8) == last_with(span_head_fields(model), 8)) by {
            broadcast use group_read_fields;
            broadcast use group_read_repeated;

        }
        assert(all_with(fields, 9) =~= bytes_of_all::<KeyValue>(model.attributes)) by {
            broadcast use group_read_fields;
            broadcast use group_read_repeated;

        }
        lemma_messages_read_back::<KeyValue>(fields, 9, model.attributes);
        assert(read_uint32(fields, 10) == model.dropped_attributes_count) by {
            broadcast use group_read_fields;
            broadcast use group_read_repeated;

        }
        assert(all_with(fields, 11) =~= bytes_of_all::<SpanEvent>(model.events)) by {
            broadcast use group_read_fields;
            broadcast use group_read_repeated;

        }
        lemma_messages_read_back::<SpanEvent>(fields, 11, model.events);
        assert(read_uint32(fields, 12) == model.dropped_events_count) by {
            broadcast use group_read_fields;
            broadcast use group_read_repeated;

        }
        assert(all_with(fields, 13) =~= bytes_of_all::<Link>(model.links)) by {
            broadcast use group_read_fields;
            broadcast use group_read_repeated;

        }
        lemma_messages_read_back::<Link>(fields, 13, model.links);
        assert(read_uint32(fields, 14) == model.dropped_links_count) by {
            broadcast use group_read_fields;
            broadcast use group_read_repeated;

        }
        assert(last_with(fields, 15) == last_with(
            optional_field::<SpanStatus>(15, model.status),
            15,
        )) by {
            broadcast use group_read_fields;
            broadcast use group_read_repeated;

        }
        lemma_optional_read_back::<SpanStatus>(fields, 15, model.status);
        assert(Self::read(message_bytes(fields)) =~= model);
    }
}

impl ReadBack for ScopeSpans {
    open spec fn read(bytes: Seq<u8>) -> SpecScopeSpans {
        let fields = fields_in(bytes);
        SpecScopeSpans {
            spans: read_messages::<Span>(fields, 2),
            schema_url: read_string(fields, 3),
        }
    }

    open spec fn lossless(model: SpecScopeSpans) -> bool {
        all_lossless::<Span>(model.spans)
    }

    proof fn law_read_back(model: SpecScopeSpans) {
        let fields = Self::fields_of(model);
        law_message_read_back(fields);
        assert(all_with(fields, 2) =~= bytes_of_all::<Span>(model.spans)) by {
            broadcast use group_read_fields;
            broadcast use group_read_repeated;

        }
        lemma_messages_read_back::<Span>(fields, 2, model.spans);
        assert(read_string(fields, 3) == model.schema_url) by {
            broadcast use group_read_fields;
            broadcast use group_read_repeated;

            lemma_text_read_back(model.schema_url);
        }
        assert(Self::read(message_bytes(fields)) =~= model);
    }
}

impl ReadBack for ResourceSpans {
    open spec fn read(bytes: Seq<u8>) -> SpecResourceSpans {
        let fields = fields_in(bytes);
        SpecResourceSpans {
            resource: read_optional::<Resource>(fields, 1),
            scope_spans: read_messages::<ScopeSpans>(fields, 2),
            schema_url: read_string(fields, 3),
        }
    }

    open spec fn lossless(model: SpecResourceSpans) -> bool {
        &&& optional_lossless::<Resource>(model.resource)
        &&& all_lossless::<ScopeSpans>(model.scope_spans)
    }

    proof fn law_read_back(model: SpecResourceSpans) {
        let fields = Self::fields_of(model);
        law_message_read_back(fields);
        assert(last_with(fields, 1) == last_with(
            optional_field::<Resource>(1, model.resource),
            1,
        )) by {
            broadcast use group_read_fields;
            broadcast use group_read_repeated;

        }
        lemma_optional_read_back::<Resource>(fields, 1, model.resource);
        assert(all_with(fields, 2) =~= bytes_of_all::<ScopeSpans>(model.scope_spans)) by {
            broadcast use group_read_fields;
            broadcast use group_read_repeated;

        }
        lemma_messages_read_back::<ScopeSpans>(fields, 2, model.scope_spans);
        assert(read_string(fields, 3) == model.schema_url) by {
            broadcast use group_read_fields;
            broadcast use group_read_repeated;

            lemma_text_read_back(model.schema_url);
        }
        assert(Self::read(message_bytes(fields)) =~= model);
    }
}

impl ReadBack for ExportTraceServiceRequest {
    open spec fn read(bytes: Seq<u8>) -> Seq<SpecResourceSpans> {
        let fields = fields_in(bytes);
        read_messages::<ResourceSpans>(fields, 1)
    }

    open spec fn lossless(model: Seq<SpecResourceSpans>) -> bool {
        all_lossless::<ResourceSpans>(model)
    }

    proof fn law_read_back(model: Seq<SpecResourceSpans>) {
        let fields = Self::fields_of(model);
        law_message_read_back(fields);
        assert(all_with(fields, 1) =~= bytes_of_all::<ResourceSpans>(model)) by {
            broadcast use group_read_fields;
            broadcast use group_read_repeated;

        }
        lemma_messages_read_back::<ResourceSpans>(fields, 1, model);
        assert(Self::read(message_bytes(fields)) =~= model);
    }
}

}
