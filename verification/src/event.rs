//! Events: logs, metrics and traces.
use vstd::prelude::*;
use vstd::string::*;
use crate::keys::{ascending, keys_of, lookup, removed};
use crate::metric::{Metric, SpecMetric};
use crate::value::{object_of, ObjectMap, SpecValue, Value};
use crate::views::views;

verus! {

/// The value that a path of names leads to, from object to object.
pub open spec fn value_at(root: SpecValue, path: Seq<Seq<char>>) -> Option<SpecValue>
    decreases path.len(),
{
    if path.len() == 0 {
        Some(root)
    } else {
        match root {
            SpecValue::Object(entries) => match lookup(entries, path[0]) {
                Some(value) => value_at(value, path.drop_first()),
                None => None,
            },
            _ => None,
        }
    }
}

/// The entries of a value: those of an object, and none of any other value.
pub open spec fn fields_of(value: SpecValue) -> Seq<(Seq<char>, SpecValue)> {
    match value {
        SpecValue::Object(entries) => entries,
        _ => Seq::empty(),
    }
}

/// A value without the field `name`.
pub open spec fn without_field(value: SpecValue, name: Seq<char>) -> SpecValue {
    match value {
        SpecValue::Object(entries) => SpecValue::Object(removed(entries, name)),
        other => other,
    }
}

/// Follows a path of names from `root`.
fn follow<'a>(root: &'a Value, path: &Vec<String>) -> (found: Option<&'a Value>)
    ensures
        value_at(root@, views(path@)) == (match found {
            Some(value) => Some(value@),
            None => None,
        }),
{
    let ghost names = views(path@);
    let mut value: &'a Value = root;
    let mut i: usize = 0;
    assert(names.skip(0) =~= names);
    while i < path.len()
        invariant
            i <= path@.len(),
            names == views(path@),
            value_at(root@, names) == value_at(value@, names.skip(i as int)),
        decreases path@.len() - i,
    {
        assert(names.skip(i as int)[0] == path@[i as int]@);
        assert(names.skip(i as int).drop_first() =~= names.skip(i + 1));
        match value {
            Value::Object(map) => match map.get(path[i].as_str()) {
                Some(inner) => {
                    value = inner;
                },
                None => {
                    return None;
                },
            },
            _ => {
                return None;
            },
        }
        i = i + 1;
    }
    Some(value)
}

/// A log event.
#[derive(Debug)]
pub struct LogEvent {
    /// What the event holds; most often an object.
    pub root: Value,
    /// Where the message stands, if there is a place for one.
    pub message_path: Option<Vec<String>>,
    /// Where the time of the event stands, if there is a place for one.
    pub timestamp_path: Option<Vec<String>>,
}

/// What a `LogEvent` stands for.
#[verifier::ext_equal]
pub struct SpecLogEvent {
    pub root: SpecValue,
    pub message_path: Option<Seq<Seq<char>>>,
    pub timestamp_path: Option<Seq<Seq<char>>>,
}

/// The names on an optional path.
pub open spec fn path_names(path: Option<Vec<String>>) -> Option<Seq<Seq<char>>> {
    match path {
        Some(names) => Some(views(names@)),
        None => None,
    }
}

impl View for LogEvent {
    type V = SpecLogEvent;

    open spec fn view(&self) -> SpecLogEvent {
        SpecLogEvent {
            root: self.root@,
            message_path: path_names(self.message_path),
            timestamp_path: path_names(self.timestamp_path),
        }
    }
}

impl SpecLogEvent {
    /// The message.
    pub open spec fn message(self) -> Option<SpecValue> {
        match self.message_path {
            Some(path) => value_at(self.root, path),
            None => None,
        }
    }

    /// The time of the event.
    pub open spec fn timestamp(self) -> Option<SpecValue> {
        match self.timestamp_path {
            Some(path) => value_at(self.root, path),
            None => None,
        }
    }

    /// The event with another root.
    pub open spec fn with_root(self, root: SpecValue) -> SpecLogEvent {
        SpecLogEvent { root, ..self }
    }
}

impl LogEvent {
    /// An event that holds `root`, with its message under `message` and its time under `timestamp`.
    pub fn new(root: Value) -> (log: Self)
        ensures
            log@ == (SpecLogEvent {
                root: root@,
                message_path: Some(seq!["message"@]),
                timestamp_path: Some(seq!["timestamp"@]),
            }),
    {
        let mut message_path: Vec<String> = Vec::new();
        message_path.push("message".to_owned());
        let mut timestamp_path: Vec<String> = Vec::new();
        timestamp_path.push("timestamp".to_owned());
        proof {
            assert(views(message_path@) =~= seq!["message"@]);
            assert(views(timestamp_path@) =~= seq!["timestamp"@]);
        }
        LogEvent { root, message_path: Some(message_path), timestamp_path: Some(timestamp_path) }
    }

    /// The message.
    pub fn get_message(&self) -> (message: Option<&Value>)
        ensures
            self@.message() == (match message {
                Some(value) => Some(value@),
                None => None,
            }),
    {
        match &self.message_path {
            Some(path) => follow(&self.root, path),
            None => None,
        }
    }

    /// The time of the event.
    pub fn get_timestamp(&self) -> (timestamp: Option<&Value>)
        ensures
            self@.timestamp() == (match timestamp {
                Some(value) => Some(value@),
                None => None,
            }),
    {
        match &self.timestamp_path {
            Some(path) => follow(&self.root, path),
            None => None,
        }
    }

    /// The value that a path of names leads to.
    pub fn get(&self, path: &Vec<String>) -> (found: Option<&Value>)
        ensures
            value_at(self@.root, views(path@)) == (match found {
                Some(value) => Some(value@),
                None => None,
            }),
    {
        follow(&self.root, path)
    }

    /// The fields of an event whose root is an object.
    pub fn as_map(&self) -> (map: Option<&ObjectMap>)
        ensures
            object_of(self@.root) == (match map {
                Some(m) => Some(m@),
                None => None,
            }),
    {
        self.root.as_object()
    }

    /// Takes the field `name` out of an event whose root is an object.
    pub fn remove(&mut self, name: &str) -> (value: Option<Value>)
        ensures
            final(self)@ == old(self)@.with_root(without_field(old(self)@.root, name@)),
            fields_of(final(self)@.root) == removed(fields_of(old(self)@.root), name@),
            ascending(keys_of(fields_of(old(self)@.root))),
            lookup(fields_of(old(self)@.root), name@) == (match value {
                Some(v) => Some(v@),
                None => None,
            }),
    {
        match &mut self.root {
            Value::Object(map) => map.remove(name),
            _ => None,
        }
    }
}

/// A span, as the fields that came with it.
#[derive(Debug)]
pub struct TraceEvent {
    pub fields: ObjectMap,
}

impl View for TraceEvent {
    type V = Seq<(Seq<char>, SpecValue)>;

    open spec fn view(&self) -> Seq<(Seq<char>, SpecValue)> {
        self.fields@
    }
}

impl TraceEvent {
    /// An event with the given fields.
    pub fn new(fields: ObjectMap) -> (trace: Self)
        ensures
            trace@ == fields@,
    {
        TraceEvent { fields }
    }

    /// The fields.
    pub fn as_map(&self) -> (map: &ObjectMap)
        ensures
            map@ == self@,
    {
        &self.fields
    }

    /// The field `name`.
    pub fn get(&self, name: &str) -> (value: Option<&Value>)
        ensures
            lookup(self@, name@) == (match value {
                Some(v) => Some(v@),
                None => None,
            }),
    {
        self.fields.get(name)
    }
}

/// An event.
#[derive(Debug)]
pub enum Event {
    Log(LogEvent),
    Metric(Metric),
    Trace(TraceEvent),
}

/// What an `Event` stands for.
#[verifier::ext_equal]
pub enum SpecEvent {
    Log(SpecLogEvent),
    Metric(SpecMetric),
    Trace(Seq<(Seq<char>, SpecValue)>),
}

impl View for Event {
    type V = SpecEvent;

    open spec fn view(&self) -> SpecEvent {
        match self {
            Event::Log(log) => SpecEvent::Log(log@),
            Event::Metric(metric) => SpecEvent::Metric(metric@),
            Event::Trace(trace) => SpecEvent::Trace(trace@),
        }
    }
}

}
