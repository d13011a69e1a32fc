//! What holds of the sink as a whole.
use vstd::prelude::*;
use vstd::string::*;
use crate::convert::{any_value_of, key_value_of, key_values_of};
use crate::encode::Message;
use crate::encoder::{
    all_logs, all_metrics, all_traces, log_resource_attributes, logs_payload, logs_request,
    metric_resource_attributes, metrics_in, metrics_payload, metrics_request, record_of,
    resource_logs_of, resource_metrics_of, resource_spans_of, resource_with, told_log, told_logs,
    told_metrics, told_traces, totals_after_batch, totals_in, traces_payload, traces_request,
    without_resource,
};
use crate::event::{fields_of, SpecEvent, SpecLogEvent};
use crate::fields::{integer_at, object_at, object_or_empty};
use crate::groups::{
    grouped, groups, items_in, law_group_holds_items_of_its_resource,
    law_groups_are_for_different_resources, law_groups_hold_all_items,
    law_groups_of_other_resources, law_item_is_in_its_group, lemma_group_has_a_leader,
};
use crate::keys::{
    ascending, key_index, keys_of, law_removed_value_is_gone, lemma_key_index,
    lemma_lookup_without, lemma_removed_without, lemma_without_absent, lemma_without_union, lookup,
    removed, without,
};
use crate::logs::{log_record_of, reserved_names};
use crate::metric::{SpecMetric, SpecMetricValue};
use crate::metrics::otlp_metric_of;
use crate::proto::{
    ExportLogsServiceRequest, ExportMetricsServiceRequest, ExportTraceServiceRequest, OtlpMetric,
    ResourceMetrics, ScopeMetrics,
};
use crate::read_back::{not_negative_zero, ReadBack};
use crate::resource::trace_resource_attributes;
use crate::settings::{applied, SpecResourceSettings};
use crate::severity::{
    lemma_severity_names_differ, severity_of, tells_severity, without_severity,
};
use crate::totals::{
    absolute_of, law_batches_count_on, totals_from, SpecSeries,
};
use crate::traces::{end_time_of, span_of, time_at};
use crate::value::SpecValue;
use crate::wire::lemma_message_bytes_concat;

verus! {

/// A payload for logs is read as the log records of its events, in groups by their resources. All
/// events are in it.
pub proof fn law_logs_payload_read_back(
    settings: SpecResourceSettings,
    events: Seq<SpecEvent>,
)
    requires
        all_logs(events),
    ensures
        ExportLogsServiceRequest::read(logs_payload(settings, events)) == logs_request(
            settings,
            events,
        ),
        items_in(groups(told_logs(settings, events))) == events.len(),
{
    ExportLogsServiceRequest::law_read_back(logs_request(settings, events));
    law_groups_hold_all_items(told_logs(settings, events));
}

/// A payload for traces is read as the spans of its events, in groups by their resources. All
/// events are in it.
pub proof fn law_traces_payload_read_back(
    settings: SpecResourceSettings,
    events: Seq<SpecEvent>,
)
    requires
        all_traces(events),
    ensures
        ExportTraceServiceRequest::read(traces_payload(settings, events)) == traces_request(
            settings,
            events,
        ),
        items_in(groups(told_traces(settings, events))) == events.len(),
{
    ExportTraceServiceRequest::law_read_back(traces_request(settings, events));
    law_groups_hold_all_items(told_traces(settings, events));
}

/// Whether a metric holds no negative zero where a summary has a number.
pub open spec fn summary_without_negative_zero(metric: SpecMetric) -> bool {
    metric.value matches SpecMetricValue::AggregatedSummary { quantiles, sum, .. } ==> {
        &&& not_negative_zero(sum)
        &&& forall|i: int|
            0 <= i < quantiles.len() ==> not_negative_zero((#[trigger] quantiles[i]).quantile)
                && not_negative_zero(quantiles[i].value)
    }
}

/// A total is a summary only where the metric itself is that summary.
proof fn lemma_summaries_stay(totals: Seq<(SpecSeries, SpecMetricValue)>, metric: SpecMetric)
    requires
        summary_without_negative_zero(metric),
    ensures
        summary_without_negative_zero(absolute_of(totals, metric)),
{
}

/// A payload for metrics is read as the totals of its events, in groups by their resources. All
/// events are in it. Negative zero in a summary is the one thing that is not read back: zero is not
/// written there, so that it is read as zero.
pub proof fn law_metrics_payload_read_back(
    settings: SpecResourceSettings,
    totals: Seq<(SpecSeries, SpecMetricValue)>,
    events: Seq<SpecEvent>,
)
    requires
        all_metrics(events),
        forall|i: int|
            0 <= i < events.len() ==> summary_without_negative_zero(
                (#[trigger] events[i])->Metric_0,
            ),
    ensures
        ExportMetricsServiceRequest::read(metrics_payload(settings, totals, events))
            == metrics_request(settings, totals, events),
        items_in(groups(told_metrics(settings, totals, events))) == events.len(),
{
    let told = told_metrics(settings, totals, events);
    let request = metrics_request(settings, totals, events);
    let metrics = metrics_in(events);
    assert forall|k: int| 0 <= k < told.len() implies OtlpMetric::lossless(
        (#[trigger] told[k]).item,
    ) by {
        assert(summary_without_negative_zero(events[k]->Metric_0));
        assert(metrics[k] == events[k]->Metric_0);
        lemma_summaries_stay(totals_from(totals, metrics.take(k)), metrics[k]);
        assert(totals_in(totals, events)[k] == absolute_of(
            totals_from(totals, metrics.take(k)),
            metrics[k],
        ));
    }
    assert forall|g: int| 0 <= g < request.len() implies ResourceMetrics::lossless(
        #[trigger] request[g],
    ) by {
        let group = groups(told)[g];
        assert forall|i: int| 0 <= i < group.items.len() implies OtlpMetric::lossless(
            #[trigger] group.items[i],
        ) by {
            law_group_holds_items_of_its_resource(told, g, i);
        }
        assert(ScopeMetrics::lossless(request[g].scope_metrics[0]));
    }
    ExportMetricsServiceRequest::law_read_back(request);
    law_groups_hold_all_items(told);
}

/// Where the events of a second batch of logs share no resource with those of a first, the payload
/// for all is the payload for the first batch, then that for the second.
pub proof fn law_logs_payload_of_two_batches(
    settings: SpecResourceSettings,
    a: Seq<SpecEvent>,
    b: Seq<SpecEvent>,
)
    requires
        forall|i: int|
            0 <= i < b.len() && !(#[trigger] told_logs(settings, b)[i]).alone ==> !grouped(
                told_logs(settings, a),
                told_logs(settings, b)[i].attributes,
            ),
    ensures
        logs_payload(settings, a + b) == logs_payload(settings, a) + logs_payload(settings, b),
{
    let x = told_logs(settings, a);
    let y = told_logs(settings, b);
    law_groups_of_other_resources(x, y);
    assert(told_logs(settings, a + b) =~= x + y);
    let first = ExportLogsServiceRequest::fields_of(logs_request(settings, a));
    let second = ExportLogsServiceRequest::fields_of(logs_request(settings, b));
    assert(logs_request(settings, a + b) =~= logs_request(settings, a) + logs_request(settings, b));
    assert(ExportLogsServiceRequest::fields_of(logs_request(settings, a + b)) =~= first + second);
    lemma_message_bytes_concat(first, second);
}

/// Where the events of a second batch of traces share no resource with those of a first, the
/// payload for all is the payload for the first batch, then that for the second.
pub proof fn law_traces_payload_of_two_batches(
    settings: SpecResourceSettings,
    a: Seq<SpecEvent>,
    b: Seq<SpecEvent>,
)
    requires
        forall|i: int|
            0 <= i < b.len() && !(#[trigger] told_traces(settings, b)[i]).alone ==> !grouped(
                told_traces(settings, a),
                told_traces(settings, b)[i].attributes,
            ),
    ensures
        traces_payload(settings, a + b) == traces_payload(settings, a) + traces_payload(
            settings,
            b,
        ),
{
    let x = told_traces(settings, a);
    let y = told_traces(settings, b);
    law_groups_of_other_resources(x, y);
    assert(told_traces(settings, a + b) =~= x + y);
    let first = ExportTraceServiceRequest::fields_of(traces_request(settings, a));
    let second = ExportTraceServiceRequest::fields_of(traces_request(settings, b));
    assert(traces_request(settings, a + b) =~= traces_request(settings, a) + traces_request(
        settings,
        b,
    ));
    assert(ExportTraceServiceRequest::fields_of(traces_request(settings, a + b)) =~= first
        + second);
    lemma_message_bytes_concat(first, second);
}

/// Where the events of a second batch of metrics share no resource with those of a first, and count
/// on from the totals after it, the payload for all is the payload for the first batch, then that
/// for the second.
pub proof fn law_metrics_payload_of_two_batches(
    settings: SpecResourceSettings,
    totals: Seq<(SpecSeries, SpecMetricValue)>,
    a: Seq<SpecEvent>,
    b: Seq<SpecEvent>,
)
    requires
        forall|i: int|
            0 <= i < b.len() && !(#[trigger] told_metrics(
                settings,
                totals_from(totals, metrics_in(a)),
                b,
            )[i]).alone ==> !grouped(
                told_metrics(settings, totals, a),
                told_metrics(settings, totals_from(totals, metrics_in(a)), b)[i].attributes,
            ),
    ensures
        metrics_payload(settings, totals, a + b) == metrics_payload(settings, totals, a)
            + metrics_payload(settings, totals_from(totals, metrics_in(a)), b),
{
    let after = totals_from(totals, metrics_in(a));
    let x = told_metrics(settings, totals, a);
    let y = told_metrics(settings, after, b);
    law_groups_of_other_resources(x, y);
    law_batches_count_on(totals, metrics_in(a), metrics_in(b));
    assert(metrics_in(a + b) =~= metrics_in(a) + metrics_in(b));
    assert(told_metrics(settings, totals, a + b) =~= x + y);
    let one = metrics_request(settings, totals, a);
    let two = metrics_request(settings, after, b);
    let all = metrics_request(settings, totals, a + b);
    let first = ExportMetricsServiceRequest::fields_of(one);
    let second = ExportMetricsServiceRequest::fields_of(two);
    assert(all =~= one + two);
    assert(ExportMetricsServiceRequest::fields_of(all) =~= first + second);
    lemma_message_bytes_concat(first, second);
}

/// Metrics in two batches are sent as the same totals as in one: nothing is forgotten in between.
pub proof fn law_totals_go_on_between_batches(
    totals: Seq<(SpecSeries, SpecMetricValue)>,
    a: Seq<SpecEvent>,
    b: Seq<SpecEvent>,
)
    requires
        all_metrics(a),
        all_metrics(b),
    ensures
        totals_in(totals, a + b) == totals_in(totals, a) + totals_in(
            totals_after_batch(totals, a),
            b,
        ),
        totals_after_batch(totals, a + b) == totals_after_batch(totals_after_batch(totals, a), b),
{
    law_batches_count_on(totals, metrics_in(a), metrics_in(b));
    assert(metrics_in(a + b) =~= metrics_in(a) + metrics_in(b));
    if a.len() > 0 {
        assert((a + b)[0] == a[0]);
    } else {
        assert(metrics_in(a) =~= Seq::empty());
        assert(a + b =~= b);
    }
    if b.len() == 0 {
        assert(metrics_in(b) =~= Seq::empty());
        assert(a + b =~= a);
    }
}

/// Whether all logs tell something of their resources.
pub open spec fn all_logs_tell_a_resource(events: Seq<SpecEvent>) -> bool {
    forall|k: int|
        0 <= k < events.len() ==> log_resource_attributes((#[trigger] events[k])->Log_0).len() > 0
}

/// Whether all traces tell something of their resources.
pub open spec fn all_traces_tell_a_resource(events: Seq<SpecEvent>) -> bool {
    forall|k: int|
        0 <= k < events.len() ==> trace_resource_attributes(
            (#[trigger] events[k])->Trace_0,
        ).len() > 0
}

/// A log is in a group for its resource; where it tells nothing of its resource, it is the only one
/// there. Where all logs tell something, no two groups are for one resource.
pub proof fn law_logs_are_grouped_by_resource(
    settings: SpecResourceSettings,
    events: Seq<SpecEvent>,
    i: int,
)
    requires
        0 <= i < events.len(),
    ensures
        exists|g: int|
            0 <= g < logs_request(settings, events).len() && (#[trigger] logs_request(
                settings,
                events,
            )[g]).resource == Some(
                resource_with(applied(settings, log_resource_attributes(events[i]->Log_0))),
            ) && logs_request(settings, events)[g].scope_logs[0].log_records.contains(
                record_of(without_resource(events[i]->Log_0)),
            ) && (log_resource_attributes(events[i]->Log_0).len() == 0 ==> logs_request(
                settings,
                events,
            )[g].scope_logs[0].log_records.len() == 1),
        all_logs_tell_a_resource(events) ==> (forall|g: int, h: int|
            0 <= g < h < logs_request(settings, events).len() ==> (#[trigger] logs_request(
                settings,
                events,
            )[g]).resource != (#[trigger] logs_request(settings, events)[h]).resource),
{
    let told = told_logs(settings, events);
    let request = logs_request(settings, events);
    law_item_is_in_its_group(told, i);
    let g = choose|g: int|
        0 <= g < groups(told).len() && (#[trigger] groups(told)[g]).alone == told[i].alone
            && groups(told)[g].attributes == told[i].attributes
            && groups(told)[g].items.contains(told[i].item);
    assert(request[g] == resource_logs_of(groups(told)[g]));
    if all_logs_tell_a_resource(events) {
        assert forall|k: int| 0 <= k < told.len() implies !(#[trigger] told[k]).alone by {
            assert(log_resource_attributes(events[k]->Log_0).len() > 0);
        }
        assert forall|g: int, h: int| 0 <= g < h < request.len() implies (
        #[trigger] request[g]).resource != (#[trigger] request[h]).resource by {
            lemma_group_has_a_leader(told, g);
            lemma_group_has_a_leader(told, h);
            law_groups_are_for_different_resources(told, g, h);
            assert(request[g].resource->0.attributes == groups(told)[g].attributes);
            assert(request[h].resource->0.attributes == groups(told)[h].attributes);
        }
    }
}

/// A span is in a group for its resource; where it tells nothing of its resource, it is the only
/// one there. Where all spans tell something, no two groups are for one resource.
pub proof fn law_spans_are_grouped_by_resource(
    settings: SpecResourceSettings,
    events: Seq<SpecEvent>,
    i: int,
)
    requires
        0 <= i < events.len(),
    ensures
        exists|g: int|
            0 <= g < traces_request(settings, events).len() && (#[trigger] traces_request(
                settings,
                events,
            )[g]).resource == Some(
                resource_with(applied(settings, trace_resource_attributes(events[i]->Trace_0))),
            ) && traces_request(settings, events)[g].scope_spans[0].spans.contains(
                span_of(events[i]->Trace_0),
            ) && (trace_resource_attributes(events[i]->Trace_0).len() == 0 ==> traces_request(
                settings,
                events,
            )[g].scope_spans[0].spans.len() == 1),
        all_traces_tell_a_resource(events) ==> (forall|g: int, h: int|
            0 <= g < h < traces_request(settings, events).len() ==> (#[trigger] traces_request(
                settings,
                events,
            )[g]).resource != (#[trigger] traces_request(settings, events)[h]).resource),
{
    let told = told_traces(settings, events);
    let request = traces_request(settings, events);
    law_item_is_in_its_group(told, i);
    let g = choose|g: int|
        0 <= g < groups(told).len() && (#[trigger] groups(told)[g]).alone == told[i].alone
            && groups(told)[g].attributes == told[i].attributes
            && groups(told)[g].items.contains(told[i].item);
    assert(request[g] == resource_spans_of(groups(told)[g]));
    if all_traces_tell_a_resource(events) {
        assert forall|k: int| 0 <= k < told.len() implies !(#[trigger] told[k]).alone by {
            assert(trace_resource_attributes(events[k]->Trace_0).len() > 0);
        }
        assert forall|g: int, h: int| 0 <= g < h < request.len() implies (
        #[trigger] request[g]).resource != (#[trigger] request[h]).resource by {
            lemma_group_has_a_leader(told, g);
            lemma_group_has_a_leader(told, h);
            law_groups_are_for_different_resources(told, g, h);
            assert(request[g].resource->0.attributes == groups(told)[g].attributes);
            assert(request[h].resource->0.attributes == groups(told)[h].attributes);
        }
    }
}

/// A metric is in a group for its resource; where it tells nothing of its resource, it is the only
/// one there.
pub proof fn law_metrics_are_grouped_by_resource(
    settings: SpecResourceSettings,
    totals: Seq<(SpecSeries, SpecMetricValue)>,
    events: Seq<SpecEvent>,
    i: int,
)
    requires
        0 <= i < events.len(),
    ensures
        exists|g: int|
            0 <= g < metrics_request(settings, totals, events).len() && (#[trigger] metrics_request(
                settings,
                totals,
                events,
            )[g]).resource == Some(
                resource_with(
                    applied(settings, metric_resource_attributes(events[i]->Metric_0)),
                ),
            ) && metrics_request(settings, totals, events)[g].scope_metrics[0].metrics.contains(
                otlp_metric_of(totals_in(totals, events)[i]),
            ) && (metric_resource_attributes(events[i]->Metric_0).len() == 0 ==> metrics_request(
                settings,
                totals,
                events,
            )[g].scope_metrics[0].metrics.len() == 1),
{
    let told = told_metrics(settings, totals, events);
    let request = metrics_request(settings, totals, events);
    law_item_is_in_its_group(told, i);
    let g = choose|g: int|
        0 <= g < groups(told).len() && (#[trigger] groups(told)[g]).alone == told[i].alone
            && groups(told)[g].attributes == told[i].attributes
            && groups(told)[g].items.contains(told[i].item);
    assert(metrics_in(events)[i].tags == totals_in(totals, events)[i].tags);
    assert(request[g] == resource_metrics_of(groups(told)[g]));
}

/// The names of an object become the keys of attributes as they stand: nothing is quoted, joined or
/// reordered, and nothing is lost.
pub proof fn law_attribute_keys_are_the_names(entries: Seq<(Seq<char>, SpecValue)>)
    ensures
        key_values_of(entries).len() == entries.len(),
        forall|i: int|
            0 <= i < entries.len() ==> (#[trigger] key_values_of(entries)[i]).key == entries[i].0
                && key_values_of(entries)[i].value == Some(any_value_of(entries[i].1)),
{
}

/// The identifiers of a log record have 16 and 8 bytes, or none.
pub proof fn law_log_identifiers(log: SpecLogEvent)
    ensures
        log_record_of(log).trace_id.len() == 16 || log_record_of(log).trace_id.len() == 0,
        log_record_of(log).span_id.len() == 8 || log_record_of(log).span_id.len() == 0,
{
}

proof fn lemma_without_none_left<V>(
    entries: Seq<(Seq<char>, V)>,
    names: Set<Seq<char>>,
    i: int,
)
    requires
        0 <= i < without(entries, names).len(),
    ensures
        !names.contains(without(entries, names)[i].0),
        entries.contains(without(entries, names)[i]),
    decreases entries.len(),
{
    let rest = entries.drop_last();
    assert(entries[entries.len() - 1] == entries.last());
    if i < without(rest, names).len() {
        lemma_without_none_left(rest, names, i);
        let entry = without(rest, names)[i];
        let j = choose|j: int| 0 <= j < rest.len() && rest[j] == entry;
        assert(entries[j] == entry);
    }
}

/// The fields that are left of an event without what tells its severity.
proof fn lemma_without_severity(log: SpecLogEvent)
    requires
        ascending(keys_of(fields_of(log.root))),
    ensures
        fields_of(without_severity(log).root) == without(fields_of(log.root), severity_names()),
{
    if let SpecValue::Object(fields) = log.root {
        let first = removed(fields, "severity"@);
        let second = removed(first, "log_level"@);
        law_removed_value_is_gone(fields, "severity"@, "severity"@);
        law_removed_value_is_gone(first, "log_level"@, "log_level"@);
        lemma_removed_without(fields, "severity"@);
        lemma_removed_without(first, "log_level"@);
        lemma_removed_without(second, "priority"@);
        lemma_without_union(fields, set!["severity"@], set!["log_level"@]);
        let both = set!["severity"@].union(set!["log_level"@]);
        lemma_without_union(fields, both, set!["priority"@]);
        assert(both.union(set!["priority"@]) =~= severity_names());
    }
}

/// The fields that tell a severity and do not stay.
pub open spec fn severity_names() -> Set<Seq<char>> {
    set!["severity"@, "log_level"@, "priority"@]
}

/// The fields that are left of an event without what tells its resource.
proof fn lemma_without_resource(log: SpecLogEvent)
    requires
        ascending(keys_of(fields_of(log.root))),
    ensures
        ascending(keys_of(fields_of(without_resource(log).root))),
        fields_of(without_resource(log).root) == without(
            fields_of(log.root),
            (if object_at(fields_of(log.root), "resource"@) is Some {
                set!["resources"@, "resource"@]
            } else {
                set!["resources"@]
            }),
        ),
{
    if let SpecValue::Object(fields) = log.root {
        let first = removed(fields, "resources"@);
        law_removed_value_is_gone(fields, "resources"@, "resource"@);
        law_removed_value_is_gone(first, "resource"@, "resource"@);
        lemma_removed_without(fields, "resources"@);
        lemma_removed_without(first, "resource"@);
        lemma_without_union(fields, set!["resources"@], set!["resource"@]);
        assert(set!["resources"@].union(set!["resource"@]) =~= set!["resources"@, "resource"@]);
    }
}

/// What the resource of a log says is not said again by its record: the attributes of the record are
/// the entries of the object under `attributes`, and fields of the event that are neither reserved
/// nor tell of the resource.
pub proof fn law_resource_is_not_repeated(log: SpecLogEvent, i: int)
    requires
        ascending(keys_of(fields_of(log.root))),
        object_or_empty(fields_of(without_resource(log).root), "attributes"@).len() <= i
            < record_of(without_resource(log)).attributes.len(),
    ensures
        !reserved_names().contains(record_of(without_resource(log)).attributes[i].key),
        record_of(without_resource(log)).attributes[i].key != "resources"@,
        object_at(fields_of(log.root), "resource"@) is Some ==> record_of(
            without_resource(log),
        ).attributes[i].key != "resource"@,
        exists|j: int|
            0 <= j < fields_of(log.root).len() && record_of(without_resource(log)).attributes[i]
                == key_values_of(fields_of(log.root))[j],
{
    let fields = fields_of(log.root);
    let left = without_resource(log);
    let resource = if object_at(fields, "resource"@) is Some {
        set!["resources"@, "resource"@]
    } else {
        set!["resources"@]
    };
    lemma_without_resource(log);
    let severity = if tells_severity(fields_of(left.root)) {
        Set::<Seq<char>>::empty()
    } else {
        severity_names()
    };
    let taken = if tells_severity(fields_of(left.root)) {
        left
    } else {
        without_severity(left)
    };
    lemma_without_severity(left);
    lemma_without_absent(fields_of(left.root), Set::empty());
    assert(fields_of(taken.root) == without(fields_of(left.root), severity));
    reveal_strlit("attributes");
    lemma_severity_names_differ();
    assert(!severity.contains("attributes"@)) by {
        reveal_strlit("severity");
        reveal_strlit("log_level");
        reveal_strlit("priority");
        assert("attributes"@.len() == 10);
    }
    lemma_lookup_without(fields_of(left.root), severity, "attributes"@);
    let attributes = object_or_empty(fields_of(left.root), "attributes"@);
    assert(attributes == object_or_empty(fields_of(taken.root), "attributes"@));
    let rest = without(fields_of(taken.root), reserved_names());
    let at = i - attributes.len();
    lemma_without_union(fields, resource, severity);
    lemma_without_union(fields, resource.union(severity), reserved_names());
    let names = resource.union(severity).union(reserved_names());
    assert(rest == without(fields, names));
    lemma_without_none_left(fields, names, at);
    assert(names.contains("resources"@));
    assert(object_at(fields, "resource"@) is Some ==> names.contains("resource"@));
    let entry = rest[at];
    let j = choose|j: int| 0 <= j < fields.len() && fields[j] == entry;
    assert(key_values_of(fields)[j] == key_values_of(rest)[at]);
}

proof fn lemma_without_keeps<V>(
    entries: Seq<(Seq<char>, V)>,
    names: Set<Seq<char>>,
    j: int,
) -> (i: int)
    requires
        0 <= j < entries.len(),
        !names.contains(entries[j].0),
    ensures
        0 <= i < without(entries, names).len(),
        without(entries, names)[i] == entries[j],
    decreases entries.len(),
{
    let rest = entries.drop_last();
    if j < rest.len() {
        lemma_without_keeps(rest, names, j)
    } else {
        without(rest, names).len() as int
    }
}

/// The field `level` tells the severity of a log that does not tell it in the words of the protocol,
/// and stays an attribute of the record.
pub proof fn law_level_tells_the_severity_and_stays(log: SpecLogEvent, level: SpecValue)
    requires
        ascending(keys_of(fields_of(log.root))),
        lookup(fields_of(log.root), "level"@) == Some(level),
        !tells_severity(fields_of(log.root)),
    ensures
        record_of(log).severity_number == severity_of(level).number,
        record_of(log).severity_text == severity_of(level).text,
        record_of(log).attributes.contains(key_value_of("level"@, level)),
{
    let fields = fields_of(log.root);
    let left = fields_of(without_severity(log).root);
    lemma_without_severity(log);
    lemma_without_union(fields, severity_names(), reserved_names());
    let names = severity_names().union(reserved_names());
    lemma_key_index(keys_of(fields), "level"@);
    let j = key_index(keys_of(fields), "level"@)->0;
    assert(fields[j] == ("level"@, level));
    assert(!names.contains("level"@)) by {
        lemma_level_is_no_other_name();
    }
    let i = lemma_without_keeps(fields, names, j);
    let rest = without(left, reserved_names());
    assert(rest[i] == ("level"@, level));
    assert(key_values_of(rest)[i] == key_value_of("level"@, level));
    let before = key_values_of(object_or_empty(left, "attributes"@));
    assert(record_of(log).attributes == before + key_values_of(rest));
    assert(record_of(log).attributes[before.len() + i] == key_value_of("level"@, level));
}

proof fn lemma_level_is_no_other_name()
    ensures
        !severity_names().contains("level"@),
        !reserved_names().contains("level"@),
{
    reveal_strlit("level");
    reveal_strlit("severity");
    reveal_strlit("log_level");
    reveal_strlit("priority");
    reveal_strlit("observed_timestamp");
    reveal_strlit("trace_id");
    reveal_strlit("span_id");
    reveal_strlit("severity_text");
    reveal_strlit("severity_number");
    reveal_strlit("flags");
    reveal_strlit("dropped_attributes_count");
    reveal_strlit("attributes");
    reveal_strlit("message");
    reveal_strlit("timestamp");
    reveal_strlit("source_type");
    assert("level"@.len() == 5);
    assert("severity"@.len() == 8);
    assert("log_level"@.len() == 9);
    assert("priority"@.len() == 8);
    assert("observed_timestamp"@.len() == 18);
    assert("trace_id"@.len() == 8);
    assert("span_id"@.len() == 7);
    assert("severity_text"@.len() == 13);
    assert("severity_number"@.len() == 15);
    assert("dropped_attributes_count"@.len() == 24);
    assert("attributes"@.len() == 10);
    assert("message"@.len() == 7);
    assert("timestamp"@.len() == 9);
    assert("source_type"@.len() == 11);
    assert("level"@[0] == 'l');
    assert("flags"@[0] == 'f');
}

/// The attributes of a log event do not become attributes of its resource: the resource depends on
/// the fields `resource` and `resources` alone.
pub proof fn law_resource_depends_on_its_fields_alone(
    settings: SpecResourceSettings,
    a: SpecLogEvent,
    b: SpecLogEvent,
)
    requires
        lookup(fields_of(a.root), "resource"@) == lookup(fields_of(b.root), "resource"@),
        lookup(fields_of(a.root), "resources"@) == lookup(fields_of(b.root), "resources"@),
    ensures
        told_log(settings, a).attributes == told_log(settings, b).attributes,
{
}

/// A span whose start was worked out from its duration does not start after its end.
pub proof fn law_start_is_not_after_end(fields: Seq<(Seq<char>, SpecValue)>)
    requires
        time_at(fields, "start_time_unix_nano"@) is None,
    ensures
        span_of(fields).start_time_unix_nano <= span_of(fields).end_time_unix_nano,
{
}

/// A span of known end and duration starts its duration before its end.
pub proof fn law_duration_is_the_distance_to_the_end(
    fields: Seq<(Seq<char>, SpecValue)>,
    duration: i64,
)
    requires
        time_at(fields, "start_time_unix_nano"@) is None,
        integer_at(fields, "duration_ns"@) == Some(duration),
        0 <= duration <= end_time_of(fields),
    ensures
        span_of(fields).end_time_unix_nano - span_of(fields).start_time_unix_nano == duration,
{
}

}
