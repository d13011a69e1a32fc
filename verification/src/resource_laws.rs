//! What holds of the resources that events tell of, and of what is sent for each of them.
use vstd::prelude::*;
use vstd::string::*;
use crate::config::OtlpConfig;
use crate::convert::any_value_of;
use crate::encode::Message;
use crate::encoder::{
    log_resource_attributes, logs_request, metric_resource_attributes, metrics_request, payload_of,
    told_log, told_logs, told_metric, told_metrics, told_trace, told_traces, traces_request,
};
use crate::entries::{
    attributes_for, holds, lacks, law_held_is_found, law_lacking_is_not_found,
    lemma_attributes_for, lemma_object_under, lemma_removed_is_other_than, object_under, other_than,
};
use crate::event::{LogEvent, SpecEvent, SpecLogEvent, TraceEvent};
use crate::groups::{belongs, grouped, groups, leaders, members, Told};
use crate::keys::{ascending, keys_of};
use crate::metric::{Metric, SpecMetric, SpecMetricValue};
use crate::ordered::ordered_entries;
use crate::proto::{
    ExportLogsServiceRequest, ExportMetricsServiceRequest, ExportTraceServiceRequest, SpecAnyValue,
    SpecKeyValue,
};
use crate::resource::{
    leaves_in, leaves_of, resource_fields, resource_key, resource_tags, single_value,
    trace_resource_attributes, ResourceAttributeExtractor,
};
use crate::settings::{applied, settings_of, with_defaults, without_key, SpecResourceSettings};
use crate::totals::{normalized, SpecSeries};
use crate::traces::span_of;
use crate::value::SpecValue;
use crate::wire::message_bytes;

verus! {

/// An attribute with a text.
pub open spec fn text_attribute(key: Seq<char>, text: Seq<char>) -> SpecKeyValue {
    SpecKeyValue { key, value: Some(SpecAnyValue::Text(text)) }
}

/// A name that starts with `resource.` tells the attribute of the rest of the name, and a name in
/// quotes after `resources.` the attribute of that name.
pub proof fn law_names_of_resource_attributes(key: Seq<char>)
    ensures
        resource_key("resource."@ + key) == Some(key),
        resource_key("resources.\""@ + key + "\""@) == Some(key),
{
    reveal_strlit("resource.");
    reveal_strlit("resources.\"");
    reveal_strlit("\"");
    let plain = "resource."@ + key;
    assert("resource."@.is_prefix_of(plain));
    assert(plain.skip("resource."@.len() as int) =~= key);
    let quoted = "resources.\""@ + key + "\""@;
    assert("resource."@[8] == '.');
    assert("resources.\""@[8] == 's');
    assert(quoted[8] == 's');
    assert("resource."@.len() == 9);
    if "resource."@.is_prefix_of(quoted) {
        assert(quoted[8] == "resource."@[8]);
    }
    assert("resources.\""@.is_prefix_of(quoted));
    let rest = quoted.skip("resources.\""@.len() as int);
    assert(rest =~= key + "\""@);
    assert(rest.last() == '"');
    assert(rest.drop_last() =~= key);
}

/// No other name tells a resource attribute.
pub proof fn law_other_names_tell_no_resource(name: Seq<char>)
    ensures
        resource_key(name) matches Some(key) ==> name == "resource."@ + key || name
            == "resources.\""@ + key + "\""@,
{
    reveal_strlit("resource.");
    reveal_strlit("resources.\"");
    reveal_strlit("\"");
    if let Some(key) = resource_key(name) {
        if "resource."@.is_prefix_of(name) {
            assert(name =~= "resource."@ + key);
        } else {
            let rest = name.skip("resources.\""@.len() as int);
            assert(rest =~= key + "\""@);
            assert(name =~= "resources.\""@ + rest);
            assert(name =~= "resources.\""@ + key + "\""@);
        }
    }
}

/// The one value of a tag is the last that there is.
pub proof fn law_last_value_counts(values: Seq<Option<Seq<char>>>, i: int, text: Seq<char>)
    ensures
        0 <= i < values.len() && values[i] == Some(text) && (forall|j: int|
            i < j < values.len() ==> (#[trigger] values[j]) is None) ==> single_value(values)
            == Some(text),
        (forall|j: int| 0 <= j < values.len() ==> (#[trigger] values[j]) is None)
            ==> single_value(values) is None,
    decreases values.len(),
{
    if values.len() > 0 {
        let rest = values.drop_last();
        let end = values.len() - 1;
        law_last_value_counts(rest, i, text);
        assert(values[end] == values.last());
        assert forall|j: int| 0 <= j < rest.len() implies rest[j] == #[trigger] values[j] by {}
    }
}

/// Whether a tag tells a resource attribute.
pub open spec fn tells_resource(tag: (Seq<char>, Seq<Option<Seq<char>>>)) -> bool {
    resource_key(tag.0) is Some && single_value(tag.1) is Some
}

/// The attribute that a tag tells.
pub open spec fn told_by_tag(tag: (Seq<char>, Seq<Option<Seq<char>>>)) -> SpecKeyValue {
    text_attribute(resource_key(tag.0)->0, single_value(tag.1)->0)
}

/// The attributes of the resource of a metric are those that its tags tell, all of them and in their
/// order.
pub proof fn law_resource_of_a_metric(
    metric: SpecMetric,
    tags: Seq<(Seq<char>, Seq<Option<Seq<char>>>)>,
)
    ensures
        metric.tags == Some(tags) ==> metric_resource_attributes(metric) == tags.filter(
            |tag: (Seq<char>, Seq<Option<Seq<char>>>)| tells_resource(tag),
        ).map_values(|tag: (Seq<char>, Seq<Option<Seq<char>>>)| told_by_tag(tag)),
        metric.tags is None ==> metric_resource_attributes(metric).len() == 0,
{
    lemma_resource_tags(tags);
}

proof fn lemma_resource_tags(tags: Seq<(Seq<char>, Seq<Option<Seq<char>>>)>)
    ensures
        resource_tags(tags) == tags.filter(
            |tag: (Seq<char>, Seq<Option<Seq<char>>>)| tells_resource(tag),
        ).map_values(|tag: (Seq<char>, Seq<Option<Seq<char>>>)| told_by_tag(tag)),
    decreases tags.len(),
{
    reveal(Seq::filter);
    if tags.len() > 0 {
        lemma_resource_tags(tags.drop_last());
    }
    assert(resource_tags(tags) =~= tags.filter(
        |tag: (Seq<char>, Seq<Option<Seq<char>>>)| tells_resource(tag),
    ).map_values(|tag: (Seq<char>, Seq<Option<Seq<char>>>)| told_by_tag(tag)));
}

/// The attribute that a field tells.
pub open spec fn told_by_field(field: (Seq<char>, SpecValue)) -> SpecKeyValue {
    SpecKeyValue { key: resource_key(field.0)->0, value: Some(any_value_of(field.1)) }
}

/// The attributes that fields with the names of resource attributes tell, in their order.
pub open spec fn told_by_fields(fields: Seq<(Seq<char>, SpecValue)>) -> Seq<SpecKeyValue> {
    fields.filter(|field: (Seq<char>, SpecValue)| resource_key(field.0) is Some).map_values(
        |field: (Seq<char>, SpecValue)| told_by_field(field),
    )
}

proof fn lemma_resource_fields(fields: Seq<(Seq<char>, SpecValue)>)
    ensures
        resource_fields(fields) == told_by_fields(fields),
    decreases fields.len(),
{
    reveal(Seq::filter);
    if fields.len() > 0 {
        lemma_resource_fields(fields.drop_last());
    }
    assert(resource_fields(fields) =~= told_by_fields(fields));
}

/// The attributes of the resource of a span are all entries of the object under `attributes` in the
/// object under `resource`, or, where there is none, all entries of that object; then those that
/// fields with the names of resource attributes tell.
pub proof fn law_resource_of_a_span(
    fields: Seq<(Seq<char>, SpecValue)>,
    resource: Seq<(Seq<char>, SpecValue)>,
    attributes: Seq<(Seq<char>, SpecValue)>,
    value: SpecValue,
)
    ensures
        holds(fields, "resource"@, SpecValue::Object(resource)) && holds(
            resource,
            "attributes"@,
            SpecValue::Object(attributes),
        ) ==> trace_resource_attributes(fields) == attributes_for(attributes) + told_by_fields(
            fields,
        ),
        holds(fields, "resource"@, SpecValue::Object(resource)) && (lacks(resource, "attributes"@)
            || holds(resource, "attributes"@, value) && !(value is Object))
            ==> trace_resource_attributes(fields) == attributes_for(resource) + told_by_fields(
            fields,
        ),
        lacks(fields, "resource"@) || holds(fields, "resource"@, value) && !(value is Object)
            ==> trace_resource_attributes(fields) == told_by_fields(fields),
{
    lemma_resource_fields(fields);
    lemma_attributes_for(attributes);
    lemma_attributes_for(resource);
    if holds(fields, "resource"@, SpecValue::Object(resource)) {
        law_held_is_found(fields, "resource"@, SpecValue::Object(resource));
    }
    if holds(resource, "attributes"@, SpecValue::Object(attributes)) {
        law_held_is_found(resource, "attributes"@, SpecValue::Object(attributes));
    }
    if lacks(resource, "attributes"@) {
        law_lacking_is_not_found(resource, "attributes"@);
    }
    if holds(resource, "attributes"@, value) {
        law_held_is_found(resource, "attributes"@, value);
    }
    if lacks(fields, "resource"@) {
        law_lacking_is_not_found(fields, "resource"@);
    }
    if holds(fields, "resource"@, value) {
        law_held_is_found(fields, "resource"@, value);
    }
    assert(Seq::empty() + told_by_fields(fields) =~= told_by_fields(fields));
}

/// The values in an object are told one by one, each under the names on the way to it, joined by
/// dots. An object without entries is a value itself.
pub proof fn law_values_in_objects(
    key: Seq<char>,
    value: SpecValue,
    entries: Seq<(Seq<char>, SpecValue)>,
    name: Seq<char>,
    inner: SpecValue,
)
    ensures
        !(value is Object) ==> leaves_of(key, value) == seq![
            SpecKeyValue { key, value: Some(any_value_of(value)) },
        ],
        value == SpecValue::Object(Seq::empty()) ==> leaves_of(key, value) == seq![
            SpecKeyValue { key, value: Some(any_value_of(value)) },
        ],
        leaves_of(key, SpecValue::Object(entries.push((name, inner)))) == (if entries.len() == 0 {
            Seq::empty()
        } else {
            leaves_of(key, SpecValue::Object(entries))
        }) + leaves_of(key + "."@ + name, inner),
{
    reveal_strlit(".");
    assert(key + "."@ =~= key.push('.'));
    let all = entries.push((name, inner));
    lemma_leaves_before(key.push('.'), entries, (name, inner), entries.len());
    assert(all[all.len() - 1] == (name, inner));
    if entries.len() == 0 {
        assert(leaves_in(key.push('.'), all, 0) =~= Seq::empty());
    }
}

proof fn lemma_leaves_before(
    prefix: Seq<char>,
    entries: Seq<(Seq<char>, SpecValue)>,
    entry: (Seq<char>, SpecValue),
    n: nat,
)
    requires
        n <= entries.len(),
    ensures
        leaves_in(prefix, entries.push(entry), n) == leaves_in(prefix, entries, n),
    decreases n,
{
    if n > 0 {
        lemma_leaves_before(prefix, entries, entry, (n - 1) as nat);
        assert(entries.push(entry)[n - 1] == entries[n - 1]);
    }
}

/// Defaults that an event does not tell itself, as attributes.
pub open spec fn new_defaults(
    told: Seq<SpecKeyValue>,
    defaults: Seq<(Seq<char>, Seq<char>)>,
) -> Seq<SpecKeyValue> {
    defaults.filter(
        |entry: (Seq<char>, Seq<char>)| !is_told(told, entry.0),
    ).map_values(|entry: (Seq<char>, Seq<char>)| text_attribute(entry.0, entry.1))
}

/// Whether an attribute with this key is told.
pub open spec fn is_told(told: Seq<SpecKeyValue>, key: Seq<char>) -> bool {
    exists|i: int| 0 <= i < told.len() && (#[trigger] told[i]).key == key
}

/// Whether no two defaults have one key.
pub open spec fn keys_differ(defaults: Seq<(Seq<char>, Seq<char>)>) -> bool {
    forall|i: int, j: int|
        0 <= i < j < defaults.len() ==> (#[trigger] defaults[i]).0 != (#[trigger] defaults[j]).0
}

/// The attributes with other keys, in their order.
pub open spec fn with_other_keys(attributes: Seq<SpecKeyValue>, key: Seq<char>) -> Seq<
    SpecKeyValue,
> {
    attributes.filter(|attribute: SpecKeyValue| attribute.key != key)
}

/// The attributes of a resource are those that the event tells, in their order, then the defaults
/// that it does not tell. A configured service name or version takes the place of all others, at the
/// end.
pub proof fn law_attributes_of_a_resource(
    settings: SpecResourceSettings,
    told: Seq<SpecKeyValue>,
    name: Seq<char>,
    version: Seq<char>,
)
    requires
        keys_differ(settings.defaults),
    ensures
        settings.service_name is None && settings.service_version is None ==> applied(
            settings,
            told,
        ) == told + new_defaults(told, settings.defaults),
        settings.service_name == Some(name) && settings.service_version is None ==> applied(
            settings,
            told,
        ) == with_other_keys(told + new_defaults(told, settings.defaults), "service.name"@).push(
            text_attribute("service.name"@, name),
        ),
        settings.service_name is None && settings.service_version == Some(version) ==> applied(
            settings,
            told,
        ) == with_other_keys(
            told + new_defaults(told, settings.defaults),
            "service.version"@,
        ).push(text_attribute("service.version"@, version)),
        settings.service_name == Some(name) && settings.service_version == Some(version)
            ==> applied(settings, told) == with_other_keys(
            with_other_keys(told + new_defaults(told, settings.defaults), "service.name"@).push(
                text_attribute("service.name"@, name),
            ),
            "service.version"@,
        ).push(text_attribute("service.version"@, version)),
{
    let all = told + new_defaults(told, settings.defaults);
    lemma_new_defaults(told, settings.defaults);
    lemma_with_other_keys(all, "service.name"@);
    lemma_with_other_keys(all, "service.version"@);
    let named = with_other_keys(all, "service.name"@).push(text_attribute("service.name"@, name));
    lemma_with_other_keys(named, "service.version"@);
}

proof fn lemma_with_other_keys(attributes: Seq<SpecKeyValue>, key: Seq<char>)
    ensures
        without_key(attributes, key) == with_other_keys(attributes, key),
    decreases attributes.len(),
{
    reveal(Seq::filter);
    if attributes.len() > 0 {
        lemma_with_other_keys(attributes.drop_last(), key);
    }
}

proof fn lemma_new_defaults(told: Seq<SpecKeyValue>, defaults: Seq<(Seq<char>, Seq<char>)>)
    requires
        keys_differ(defaults),
    ensures
        with_defaults(told, defaults) == told + new_defaults(told, defaults),
        forall|i: int|
            0 <= i < new_defaults(told, defaults).len() ==> exists|j: int|
                0 <= j < defaults.len() && (#[trigger] defaults[j]).0 == (#[trigger] new_defaults(
                    told,
                    defaults,
                )[i]).key,
    decreases defaults.len(),
{
    reveal(Seq::filter);
    if defaults.len() == 0 {
        assert(told + new_defaults(told, defaults) =~= told);
    } else {
        let rest = defaults.drop_last();
        let (key, text) = defaults.last();
        assert forall|i: int, j: int| 0 <= i < j < rest.len() implies (#[trigger] rest[i]).0 != (
        #[trigger] rest[j]).0 by {
            assert(defaults[i].0 != defaults[j].0);
        }
        lemma_new_defaults(told, rest);
        let few = new_defaults(told, rest);
        let before = told + few;
        assert(defaults[defaults.len() - 1].0 == key);
        assert forall|i: int| 0 <= i < few.len() implies (#[trigger] few[i]).key != key by {
            let j = choose|j: int| 0 <= j < rest.len() && (#[trigger] rest[j]).0 == few[i].key;
            assert(rest[j] == defaults[j]);
            assert(defaults[j].0 != defaults[defaults.len() - 1].0);
        }
        assert(crate::settings::has_key(before, key) == is_told(told, key)) by {
            if is_told(told, key) {
                let i = choose|i: int| 0 <= i < told.len() && (#[trigger] told[i]).key == key;
                assert(before[i].key == key);
            }
            if crate::settings::has_key(before, key) {
                let i = choose|i: int| 0 <= i < before.len() && (#[trigger] before[i]).key == key;
                if i < told.len() {
                    assert(told[i].key == key);
                } else {
                    assert(few[i - told.len()].key == key);
                }
            }
        }
        let all = new_defaults(told, defaults);
        if is_told(told, key) {
            assert(all =~= few);
        } else {
            assert(all =~= few.push(text_attribute(key, text)));
            assert(told + all =~= before.push(text_attribute(key, text)));
        }
        assert forall|i: int| 0 <= i < all.len() implies exists|j: int|
            0 <= j < defaults.len() && (#[trigger] defaults[j]).0 == (
            #[trigger] all[i]).key by {
            if i < few.len() {
                let j = choose|j: int| 0 <= j < rest.len() && (#[trigger] rest[j]).0 == few[i].key;
                assert(defaults[j].0 == all[i].key);
            } else {
                assert(defaults[defaults.len() - 1].0 == all[i].key);
            }
        }
    }
}

/// What an event is grouped by: the attributes of its resource as the configuration completes them.
/// It is alone where it tells none itself.
pub proof fn law_events_are_told_apart_by_their_resources(
    settings: SpecResourceSettings,
    log: SpecLogEvent,
    metric: SpecMetric,
    fields: Seq<(Seq<char>, SpecValue)>,
)
    ensures
        told_log(settings, log).attributes == applied(settings, log_resource_attributes(log)),
        told_log(settings, log).alone <==> log_resource_attributes(log).len() == 0,
        told_metric(settings, metric).attributes == applied(
            settings,
            metric_resource_attributes(metric),
        ),
        told_metric(settings, metric).alone <==> metric_resource_attributes(metric).len() == 0,
        told_trace(settings, fields).attributes == applied(
            settings,
            trace_resource_attributes(fields),
        ),
        told_trace(settings, fields).alone <==> trace_resource_attributes(fields).len() == 0,
        told_trace(settings, fields).item == span_of(fields),
{
}

/// The items that are told with these attributes and not alone, in their order.
pub open spec fn items_with<V>(told: Seq<Told<V>>, attributes: Seq<SpecKeyValue>) -> Seq<V> {
    told.filter(|one: Told<V>| !one.alone && one.attributes == attributes).map_values(
        |one: Told<V>| one.item,
    )
}

proof fn lemma_items_with<V>(told: Seq<Told<V>>, attributes: Seq<SpecKeyValue>)
    ensures
        members(told, attributes) == items_with(told, attributes),
    decreases told.len(),
{
    reveal(Seq::filter);
    if told.len() > 0 {
        lemma_items_with(told.drop_last(), attributes);
    }
    assert(members(told, attributes) =~= items_with(told, attributes));
}

/// A group holds all items of its resource, in their order; the group of an item that is alone holds
/// this item. Groups come in the order of their first items.
pub proof fn law_groups_keep_the_order<V>(told: Seq<Told<V>>, g: int, h: int)
    requires
        0 <= g < h < groups(told).len(),
    ensures
        !groups(told)[g].alone ==> groups(told)[g].items == items_with(
            told,
            groups(told)[g].attributes,
        ),
        !groups(told)[h].alone ==> groups(told)[h].items == items_with(
            told,
            groups(told)[h].attributes,
        ),
        groups(told)[g].alone ==> groups(told)[g].items.len() == 1,
        groups(told)[h].alone ==> groups(told)[h].items.len() == 1,
        exists|a: int, b: int|
            0 <= a < b < told.len() && is_first(
                told,
                #[trigger] told[a],
                a,
                groups(told)[g].alone,
                groups(told)[g].attributes,
            ) && is_first(
                told,
                #[trigger] told[b],
                b,
                groups(told)[h].alone,
                groups(told)[h].attributes,
            ),
{
    lemma_items_with(told, groups(told)[g].attributes);
    lemma_items_with(told, groups(told)[h].attributes);
    lemma_leaders_ascend(told, g, h);
    lemma_first(told, g);
    lemma_first(told, h);
    let a = leaders(told)[g];
    let b = leaders(told)[h];
    assert(is_first(told, told[a], a, groups(told)[g].alone, groups(told)[g].attributes));
    assert(is_first(told, told[b], b, groups(told)[h].alone, groups(told)[h].attributes));
}

/// Whether an item is the first of a group with these attributes.
pub open spec fn is_first<V>(
    told: Seq<Told<V>>,
    one: Told<V>,
    at: int,
    alone: bool,
    attributes: Seq<SpecKeyValue>,
) -> bool {
    &&& one.alone == alone
    &&& one.attributes == attributes
    &&& !alone ==> forall|k: int|
        0 <= k < at ==> (#[trigger] told[k]).alone || told[k].attributes != attributes
}

proof fn lemma_first<V>(told: Seq<Told<V>>, g: int)
    requires
        0 <= g < leaders(told).len(),
    ensures
        0 <= leaders(told)[g] < told.len(),
        is_first(
            told,
            told[leaders(told)[g]],
            leaders(told)[g],
            told[leaders(told)[g]].alone,
            told[leaders(told)[g]].attributes,
        ),
    decreases told.len(),
{
    let rest = told.drop_last();
    if g < leaders(rest).len() {
        lemma_first(rest, g);
        let at = leaders(rest)[g];
        assert(rest[at] == told[at]);
        assert forall|k: int| 0 <= k < at && !told[at].alone implies (#[trigger] told[k]).alone
            || told[k].attributes != told[at].attributes by {
            assert(rest[k] == told[k]);
        }
    } else {
        let at = told.len() - 1;
        assert forall|k: int| 0 <= k < at && !told[at].alone implies (#[trigger] told[k]).alone
            || told[k].attributes != told[at].attributes by {
            assert(rest[k] == told[k]);
            assert(!grouped(rest, told[at].attributes));
            assert(!belongs(rest[k], told[at].attributes));
        }
    }
}

proof fn lemma_leaders_ascend<V>(told: Seq<Told<V>>, g: int, h: int)
    requires
        0 <= g < h < leaders(told).len(),
    ensures
        leaders(told)[g] < leaders(told)[h],
    decreases told.len(),
{
    let rest = told.drop_last();
    if h < leaders(rest).len() {
        lemma_leaders_ascend(rest, g, h);
    } else {
        lemma_first(rest, g);
    }
}

/// Each group holds all items of its resource, in their order, also where there is no other.
pub proof fn law_group_holds_its_items_in_order<V>(told: Seq<Told<V>>, g: int)
    requires
        0 <= g < groups(told).len(),
    ensures
        !groups(told)[g].alone ==> groups(told)[g].items == items_with(
            told,
            groups(told)[g].attributes,
        ),
        groups(told)[g].alone ==> groups(told)[g].items.len() == 1,
{
    lemma_items_with(told, groups(told)[g].attributes);
}

/// A request has, for each group of its events, one resource with the attributes of the group, and
/// in one scope all its items. Nothing is said to be dropped, and no schema is named.
pub proof fn law_requests_hold_the_groups(
    settings: SpecResourceSettings,
    totals: Seq<(SpecSeries, SpecMetricValue)>,
    events: Seq<SpecEvent>,
    g: int,
)
    ensures
        logs_request(settings, events).len() == groups(told_logs(settings, events)).len(),
        0 <= g < logs_request(settings, events).len() ==> {
            let group = groups(told_logs(settings, events))[g];
            let one = logs_request(settings, events)[g];
            one.resource matches Some(resource) && resource.attributes == group.attributes
                && resource.dropped_attributes_count == 0 && one.schema_url.len() == 0
                && one.scope_logs.len() == 1 && one.scope_logs[0].log_records == group.items
                && one.scope_logs[0].schema_url.len() == 0
        },
        traces_request(settings, events).len() == groups(told_traces(settings, events)).len(),
        0 <= g < traces_request(settings, events).len() ==> {
            let group = groups(told_traces(settings, events))[g];
            let one = traces_request(settings, events)[g];
            one.resource matches Some(resource) && resource.attributes == group.attributes
                && resource.dropped_attributes_count == 0 && one.schema_url.len() == 0
                && one.scope_spans.len() == 1 && one.scope_spans[0].spans == group.items
                && one.scope_spans[0].schema_url.len() == 0
        },
        metrics_request(settings, totals, events).len() == groups(
            told_metrics(settings, totals, events),
        ).len(),
        0 <= g < metrics_request(settings, totals, events).len() ==> {
            let group = groups(told_metrics(settings, totals, events))[g];
            let one = metrics_request(settings, totals, events)[g];
            one.resource matches Some(resource) && resource.attributes == group.attributes
                && resource.dropped_attributes_count == 0 && one.schema_url.len() == 0
                && one.scope_metrics.len() == 1 && one.scope_metrics[0].metrics == group.items
                && one.scope_metrics[0].schema_url.len() == 0
        },
{
}

/// One thing is told for each event of a batch, in their order: for a metric, what it is sent as a
/// total.
pub proof fn law_each_event_is_told(
    settings: SpecResourceSettings,
    totals: Seq<(SpecSeries, SpecMetricValue)>,
    events: Seq<SpecEvent>,
    metrics: Seq<SpecMetric>,
    i: int,
)
    requires
        0 <= i < events.len(),
        metrics.len() == events.len(),
    ensures
        told_logs(settings, events).len() == events.len(),
        events[i] matches SpecEvent::Log(log) ==> told_logs(settings, events)[i] == told_log(
            settings,
            log,
        ),
        told_traces(settings, events).len() == events.len(),
        events[i] matches SpecEvent::Trace(fields) ==> told_traces(settings, events)[i]
            == told_trace(settings, fields),
        told_metrics(settings, totals, events).len() == events.len(),
        (forall|k: int|
            0 <= k < events.len() ==> #[trigger] events[k] == SpecEvent::Metric(metrics[k]))
            ==> told_metrics(settings, totals, events)[i] == told_metric(
            settings,
            normalized(totals, metrics)[i],
        ),
{
    if forall|k: int|
        0 <= k < events.len() ==> #[trigger] events[k] == SpecEvent::Metric(metrics[k]) {
        assert(crate::encoder::metrics_in(events) =~= metrics);
    }
}

/// What is extracted from a log: all values in the object under `resource`, each under the names on
/// the way to it, then the entries of the object under `resources`; or, nested, the entries of the
/// object under `resource`.
pub proof fn law_extracted_from_a_log(
    log: LogEvent,
    fields: Seq<(Seq<char>, SpecValue)>,
    resource: Seq<(Seq<char>, SpecValue)>,
    resources: Seq<(Seq<char>, SpecValue)>,
)
    requires
        log@.root == SpecValue::Object(fields),
        object_under(fields, "resource"@, resource),
        object_under(fields, "resources"@, resources),
    ensures
        log.flat_resource_attributes() == values_in_each(resource) + attributes_for(resources),
        log.nested_resource_attributes() == attributes_for(resource),
{
    lemma_object_under(fields, "resource"@, resource);
    lemma_object_under(fields, "resources"@, resources);
    lemma_attributes_for(resource);
    lemma_attributes_for(resources);
    lemma_values_in_each(resource, resource.len());
    assert(resource.take(resource.len() as int) =~= resource);
}

/// The values in the entries of an object, each under the names on the way to it.
pub open spec fn values_in_each(entries: Seq<(Seq<char>, SpecValue)>) -> Seq<SpecKeyValue> {
    entries.map_values(|entry: (Seq<char>, SpecValue)| leaves_of(entry.0, entry.1)).flatten()
}

proof fn lemma_values_in_each(entries: Seq<(Seq<char>, SpecValue)>, n: nat)
    requires
        n <= entries.len(),
    ensures
        leaves_in(Seq::empty(), entries, n) == values_in_each(entries.take(n as int)),
    decreases n,
{
    let some = entries.take(n as int);
    let all = some.map_values(|entry: (Seq<char>, SpecValue)| leaves_of(entry.0, entry.1));
    all.lemma_flatten_and_flatten_alt_are_equivalent();
    if n > 0 {
        lemma_values_in_each(entries, (n - 1) as nat);
        let fewer = entries.take(n - 1);
        let before = fewer.map_values(
            |entry: (Seq<char>, SpecValue)| leaves_of(entry.0, entry.1),
        );
        before.lemma_flatten_and_flatten_alt_are_equivalent();
        assert(all.drop_last() =~= before);
        let (name, value) = entries[n - 1];
        assert(Seq::<char>::empty() + name =~= name);
        assert(some.last() == entries[n - 1]);
        assert(all.last() == leaves_of(name, value));
    }
}

/// Extraction takes the field `resources` out of a log where it is an object, and nothing else.
pub proof fn law_extraction_leaves_the_rest_of_a_log(
    log: LogEvent,
    left: LogEvent,
    fields: Seq<(Seq<char>, SpecValue)>,
    resources: Seq<(Seq<char>, SpecValue)>,
    value: SpecValue,
)
    requires
        log@.root == SpecValue::Object(fields),
        ascending(keys_of(fields)),
        log.extraction_leaves(left),
    ensures
        left@.message_path == log@.message_path,
        left@.timestamp_path == log@.timestamp_path,
        holds(fields, "resources"@, SpecValue::Object(resources)) ==> left@.root
            == SpecValue::Object(other_than(fields, seq!["resources"@])),
        lacks(fields, "resources"@) || holds(fields, "resources"@, value) && !(value is Object)
            ==> left@.root == log@.root,
{
    lemma_removed_is_other_than(fields, "resources"@);
    if holds(fields, "resources"@, SpecValue::Object(resources)) {
        law_held_is_found(fields, "resources"@, SpecValue::Object(resources));
    }
    if lacks(fields, "resources"@) {
        law_lacking_is_not_found(fields, "resources"@);
    }
    if holds(fields, "resources"@, value) {
        law_held_is_found(fields, "resources"@, value);
    }
}

/// What is extracted from a metric is what its tags tell of its resource, and from a span what its
/// fields tell and what the object under `resource` holds. Both stay as they are.
pub proof fn law_extracted_from_metrics_and_spans(
    metric: Metric,
    after_metric: Metric,
    trace: TraceEvent,
    after_trace: TraceEvent,
)
    ensures
        metric.flat_resource_attributes() == metric_resource_attributes(metric@),
        metric.nested_resource_attributes().len() == 0,
        metric.extraction_leaves(after_metric) <==> after_metric == metric,
        trace.flat_resource_attributes() == told_by_fields(trace@),
        trace.nested_resource_attributes() + trace.flat_resource_attributes()
            == trace_resource_attributes(trace@),
        trace.extraction_leaves(after_trace) <==> after_trace == trace,
{
    lemma_resource_fields(trace@);
}

/// The settings of all resources are those of the configuration, each under its own name.
pub proof fn law_settings_are_those_of_the_configuration(config: OtlpConfig, text: String)
    ensures
        settings_of(config).defaults == ordered_entries(config.resource_attributes),
        config.service_name == Some(text) ==> settings_of(config).service_name == Some(text@),
        config.service_name is None ==> settings_of(config).service_name is None,
        config.service_version == Some(text) ==> settings_of(config).service_version == Some(text@),
        config.service_version is None ==> settings_of(config).service_version is None,
{
}

/// The payload of a batch is the request for its kind of events, as it is written.
pub proof fn law_payload_is_the_request(
    settings: SpecResourceSettings,
    totals: Seq<(SpecSeries, SpecMetricValue)>,
    events: Seq<SpecEvent>,
)
    requires
        events.len() > 0,
    ensures
        events[0] is Log ==> payload_of(settings, totals, events) == message_bytes(
            ExportLogsServiceRequest::fields_of(logs_request(settings, events)),
        ),
        events[0] is Metric ==> payload_of(settings, totals, events) == message_bytes(
            ExportMetricsServiceRequest::fields_of(metrics_request(settings, totals, events)),
        ),
        events[0] is Trace ==> payload_of(settings, totals, events) == message_bytes(
            ExportTraceServiceRequest::fields_of(traces_request(settings, events)),
        ),
{
}

}
