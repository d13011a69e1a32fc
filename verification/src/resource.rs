//! Resource attributes: what events tell of where they come from.
use vstd::prelude::*;
use vstd::string::*;
use crate::convert::{
    convert_object_map_to_key_value_vec, convert_value_to_any_value, key_value_of, key_values_of,
};
use crate::event::{fields_of, without_field, LogEvent, SpecLogEvent, TraceEvent};
use crate::fields::{object_at, object_or_empty};
use crate::metric::{tag_values, Metric};
use crate::metrics::{make_text_pair, text_pair};
use crate::proto::{KeyValue, SpecKeyValue};
use crate::text::{after_prefix, strip_prefix};
use crate::value::{ObjectMap, SpecValue, Value};
use crate::views::{group_views, views};

verus! {

broadcast use group_views;

/// Events that tell resource attributes.
pub trait ResourceAttributeExtractor: Sized {
    /// The resource attributes that stand side by side.
    spec fn flat_resource_attributes(self) -> Seq<SpecKeyValue>;

    /// The resource attributes of a nested object.
    spec fn nested_resource_attributes(self) -> Seq<SpecKeyValue>;

    /// Whether `left` is what the event is after its resource attributes were extracted.
    spec fn extraction_leaves(self, left: Self) -> bool;

    /// Extracts the resource attributes that stand side by side.
    fn extract_resource_attributes(&mut self) -> (attributes: Vec<KeyValue>)
        ensures
            views(attributes@) == old(self).flat_resource_attributes(),
            old(self).extraction_leaves(*final(self)),
    ;

    /// Extracts the resource attributes of a nested object.
    fn extract_nested_resource_attributes(&mut self) -> (attributes: Vec<KeyValue>)
        ensures
            views(attributes@) == old(self).nested_resource_attributes(),
            *final(self) == *old(self),
    ;

    /// Extracts all resource attributes: the nested ones, then those that stand side by side.
    fn extract_all_resource_attributes(&mut self) -> (attributes: Vec<KeyValue>)
        ensures
            views(attributes@) == old(self).nested_resource_attributes() + old(
                self,
            ).flat_resource_attributes(),
            old(self).extraction_leaves(*final(self)),
    {
        let mut attributes = self.extract_nested_resource_attributes();
        let mut flat = self.extract_resource_attributes();
        attributes.append(&mut flat);
        attributes
    }
}

/// The pairs for all values in a value, from object to object: the key of each is made of the names
/// on the way to it, with a dot after each but the last.
pub open spec fn leaves_of(key: Seq<char>, value: SpecValue) -> Seq<SpecKeyValue>
    decreases value, 0nat,
{
    match value {
        SpecValue::Object(entries) => if entries.len() > 0 {
            leaves_in(key.push('.'), entries, entries.len())
        } else {
            seq![key_value_of(key, value)]
        },
        _ => seq![key_value_of(key, value)],
    }
}

/// The pairs for all values in the first `n` entries of an object.
pub open spec fn leaves_in(
    prefix: Seq<char>,
    entries: Seq<(Seq<char>, SpecValue)>,
    n: nat,
) -> Seq<SpecKeyValue>
    decreases entries, n,
{
    if n == 0 || n > entries.len() {
        Seq::empty()
    } else {
        leaves_in(prefix, entries, (n - 1) as nat) + leaves_of(
            prefix + entries[n - 1].0,
            entries[n - 1].1,
        )
    }
}

/// Converts all values in a value.
fn convert_leaves(key: String, value: &Value) -> (pairs: Vec<KeyValue>)
    ensures
        views(pairs@) == leaves_of(key@, value@),
    decreases value,
{
    match value {
        Value::Object(map) => {
            if map.len() > 0 {
                let mut prefix = key;
                prefix.append(".");
                proof {
                    reveal_strlit(".");
                    assert(prefix@ =~= key@.push('.'));
                }
                return convert_leaves_in(prefix.as_str(), map);
            }
        },
        _ => {},
    }
    let mut pairs: Vec<KeyValue> = Vec::new();
    let pair = KeyValue { key, value: Some(convert_value_to_any_value(value)) };
    pairs.push(pair);
    assert(views(pairs@) =~= seq![key_value_of(key@, value@)]);
    pairs
}

/// Converts all values in the entries of an object.
fn convert_leaves_in(prefix: &str, map: &ObjectMap) -> (pairs: Vec<KeyValue>)
    ensures
        views(pairs@) == leaves_in(prefix@, map@, map@.len()),
    decreases map,
{
    let mut pairs: Vec<KeyValue> = Vec::new();
    let mut i: usize = 0;
    let len = map.len();
    while i < len
        invariant
            i <= len,
            len == map@.len(),
            views(pairs@) == leaves_in(prefix@, map@, i as nat),
        decreases len - i,
    {
        let mut key = prefix.to_owned();
        key.append(map.name(i).as_str());
        let mut inner = convert_leaves(key, map.value(i));
        pairs.append(&mut inner);
        i = i + 1;
    }
    pairs
}

/// A log event after its resource attributes were extracted: the object under `resources` is gone,
/// and all else is as before.
pub open spec fn without_resources(log: SpecLogEvent) -> SpecLogEvent {
    if object_at(fields_of(log.root), "resources"@) is Some {
        log.with_root(without_field(log.root, "resources"@))
    } else {
        log
    }
}

impl ResourceAttributeExtractor for LogEvent {
    /// All values in the object under `resource`, then the entries of the object under `resources`.
    open spec fn flat_resource_attributes(self) -> Seq<SpecKeyValue> {
        let resource = object_or_empty(fields_of(self@.root), "resource"@);
        leaves_in(Seq::empty(), resource, resource.len()) + key_values_of(
            object_or_empty(fields_of(self@.root), "resources"@),
        )
    }

    /// The entries of the object under `resource`.
    open spec fn nested_resource_attributes(self) -> Seq<SpecKeyValue> {
        key_values_of(object_or_empty(fields_of(self@.root), "resource"@))
    }

    open spec fn extraction_leaves(self, left: Self) -> bool {
        left@ == without_resources(self@)
    }

    fn extract_resource_attributes(&mut self) -> (attributes: Vec<KeyValue>) {
        let mut attributes: Vec<KeyValue> = Vec::new();
        let mut found = false;
        assert(key_values_of(Seq::empty()) =~= Seq::empty());
        if let Some(fields) = self.as_map() {
            if let Some(resource) = fields.get_object("resource") {
                let empty = "";
                proof {
                    reveal_strlit("");
                    assert(empty@ =~= Seq::empty());
                }
                attributes = convert_leaves_in(empty, resource);
            }
            if let Some(resources) = fields.get_object("resources") {
                let mut more = convert_object_map_to_key_value_vec(resources);
                attributes.append(&mut more);
                found = true;
            }
        }
        assert(views(attributes@) =~= old(self).flat_resource_attributes());
        if found {
            let _ = self.remove("resources");
        }
        attributes
    }

    fn extract_nested_resource_attributes(&mut self) -> (attributes: Vec<KeyValue>) {
        assert(key_values_of(Seq::empty()) =~= Seq::empty());
        if let Some(fields) = self.as_map() {
            if let Some(resource) = fields.get_object("resource") {
                return convert_object_map_to_key_value_vec(resource);
            }
        }
        Vec::new()
    }
}

/// The resource attribute that a name stands for: `resource.K` and `resources."K"` stand for `K`.
pub open spec fn resource_key(name: Seq<char>) -> Option<Seq<char>> {
    match after_prefix(name, "resource."@) {
        Some(key) => Some(key),
        None => match after_prefix(name, "resources.\""@) {
            Some(rest) => if rest.len() > 0 && rest.last() == '"' {
                Some(rest.drop_last())
            } else {
                None
            },
            None => None,
        },
    }
}

/// The resource attribute that a name stands for.
fn find_resource_key<'a>(name: &'a str) -> (key: Option<&'a str>)
    ensures
        resource_key(name@) == (match key {
            Some(k) => Some(k@),
            None => None,
        }),
{
    if let Some(key) = strip_prefix(name, "resource.") {
        return Some(key);
    }
    if let Some(rest) = strip_prefix(name, "resources.\"") {
        let len = rest.unicode_len();
        if len > 0 && rest.get_char(len - 1) == '"' {
            let key = rest.substring_char(0, len - 1);
            assert(key@ =~= rest@.drop_last());
            return Some(key);
        }
    }
    None
}

/// The one value of a tag: the last that it has.
pub open spec fn single_value(values: Seq<Option<Seq<char>>>) -> Option<Seq<char>>
    decreases values.len(),
{
    if values.len() == 0 {
        None
    } else if values.last() is Some {
        values.last()
    } else {
        single_value(values.drop_last())
    }
}

/// The one value of a tag.
fn find_single(values: &Vec<Option<String>>) -> (value: Option<&String>)
    ensures
        single_value(tag_values(values@)) == (match value {
            Some(text) => Some(text@),
            None => None,
        }),
{
    let ghost all = tag_values(values@);
    let mut i: usize = values.len();
    assert(all.take(i as int) =~= all);
    while i > 0
        invariant
            i <= values@.len(),
            all == tag_values(values@),
            single_value(all) == single_value(all.take(i as int)),
        decreases i,
    {
        assert(all.take(i as int).drop_last() =~= all.take(i - 1));
        i = i - 1;
        if let Some(text) = &values[i] {
            return Some(text);
        }
    }
    None
}

/// The resource attributes that tags tell: those with a value whose names stand for one.
pub open spec fn resource_tags(tags: Seq<(Seq<char>, Seq<Option<Seq<char>>>)>) -> Seq<SpecKeyValue>
    decreases tags.len(),
{
    if tags.len() == 0 {
        Seq::empty()
    } else {
        let rest = resource_tags(tags.drop_last());
        match (resource_key(tags.last().0), single_value(tags.last().1)) {
            (Some(key), Some(text)) => rest.push(text_pair(key, text)),
            _ => rest,
        }
    }
}

impl ResourceAttributeExtractor for Metric {
    /// Those that the tags tell.
    open spec fn flat_resource_attributes(self) -> Seq<SpecKeyValue> {
        match self@.tags {
            Some(tags) => resource_tags(tags),
            None => Seq::empty(),
        }
    }

    /// None: tags are not nested.
    open spec fn nested_resource_attributes(self) -> Seq<SpecKeyValue> {
        Seq::empty()
    }

    open spec fn extraction_leaves(self, left: Self) -> bool {
        left == self
    }

    fn extract_resource_attributes(&mut self) -> (attributes: Vec<KeyValue>) {
        let mut attributes: Vec<KeyValue> = Vec::new();
        if let Some(tags) = &self.tags {
            let ghost all = tags@;
            let mut i: usize = 0;
            let len = tags.len();
            while i < len
                invariant
                    i <= len,
                    len == all.len(),
                    all == tags@,
                    views(attributes@) == resource_tags(all.take(i as int)),
                decreases len - i,
            {
                assert(all.take(i + 1).drop_last() =~= all.take(i as int));
                let name = tags.name(i);
                let value = find_single(tags.values(i));
                if let Some(key) = find_resource_key(name.as_str()) {
                    if let Some(text) = value {
                        attributes.push(make_text_pair(key.to_owned(), text.clone()));
                    }
                }
                i = i + 1;
            }
            assert(all.take(i as int) =~= all);
        }
        attributes
    }

    fn extract_nested_resource_attributes(&mut self) -> (attributes: Vec<KeyValue>) {
        Vec::new()
    }
}

/// The resource attributes that fields tell: those whose names stand for one.
pub open spec fn resource_fields(fields: Seq<(Seq<char>, SpecValue)>) -> Seq<SpecKeyValue>
    decreases fields.len(),
{
    if fields.len() == 0 {
        Seq::empty()
    } else {
        let rest = resource_fields(fields.drop_last());
        match resource_key(fields.last().0) {
            Some(key) => rest.push(key_value_of(key, fields.last().1)),
            None => rest,
        }
    }
}

/// The resource attributes of the object under `resource`: the entries of the object under
/// `attributes` in it; where there is none, its own.
pub open spec fn nested_trace_attributes(fields: Seq<(Seq<char>, SpecValue)>) -> Seq<SpecKeyValue> {
    match object_at(fields, "resource"@) {
        Some(resource) => match object_at(resource, "attributes"@) {
            Some(attributes) => key_values_of(attributes),
            None => key_values_of(resource),
        },
        None => Seq::empty(),
    }
}

/// All resource attributes of a trace event.
pub open spec fn trace_resource_attributes(fields: Seq<(Seq<char>, SpecValue)>) -> Seq<
    SpecKeyValue,
> {
    nested_trace_attributes(fields) + resource_fields(fields)
}

impl ResourceAttributeExtractor for TraceEvent {
    /// Those that the fields tell.
    open spec fn flat_resource_attributes(self) -> Seq<SpecKeyValue> {
        resource_fields(self@)
    }

    /// Those of the object under `resource`.
    open spec fn nested_resource_attributes(self) -> Seq<SpecKeyValue> {
        nested_trace_attributes(self@)
    }

    open spec fn extraction_leaves(self, left: Self) -> bool {
        left == self
    }

    fn extract_resource_attributes(&mut self) -> (attributes: Vec<KeyValue>) {
        let mut attributes: Vec<KeyValue> = Vec::new();
        let fields = self.as_map();
        let ghost all = fields@;
        let mut i: usize = 0;
        let len = fields.len();
        while i < len
            invariant
                i <= len,
                len == all.len(),
                all == fields@,
                views(attributes@) == resource_fields(all.take(i as int)),
            decreases len - i,
        {
            assert(all.take(i + 1).drop_last() =~= all.take(i as int));
            if let Some(key) = find_resource_key(fields.name(i).as_str()) {
                let value = convert_value_to_any_value(fields.value(i));
                attributes.push(KeyValue { key: key.to_owned(), value: Some(value) });
            }
            i = i + 1;
        }
        assert(all.take(i as int) =~= all);
        attributes
    }

    fn extract_nested_resource_attributes(&mut self) -> (attributes: Vec<KeyValue>) {
        if let Some(resource) = self.as_map().get_object("resource") {
            if let Some(attributes) = resource.get_object("attributes") {
                return convert_object_map_to_key_value_vec(attributes);
            }
            return convert_object_map_to_key_value_vec(resource);
        }
        Vec::new()
    }
}

}
