//! The values that events hold.
use vstd::prelude::*;
use vstd::string::*;
use vstd::utf8::*;
use crate::keys::{
    ascending, find_key, find_place, inserted, keys_of, lemma_insert_ascending, lemma_key_index,
    lemma_remove_ascending, lookup, names_of, removed,
};
use crate::text::{copy_bytes, lossy_text, text_from_utf8_lossy};
use crate::views::views;

verus! {

/// A double-precision floating-point number, held as its IEEE 754 bit pattern.
#[derive(Clone, Copy, Debug, PartialEq, Eq, Structural)]
pub struct Double {
    pub bits: u64,
}

/// A point in time: whole seconds since the Unix epoch and nanoseconds past them.
///
/// A second that ends a minute can be a leap second, whose nanoseconds run on past one billion.
#[derive(Clone, Copy, Debug)]
pub struct Timestamp {
    secs: i64,
    nanos: u32,
}

/// Whether a number of seconds and nanoseconds is a point in time that a calendar date can be given
/// for.
pub open spec fn valid_timestamp(secs: int, nanos: int) -> bool {
    &&& -8334601228800 <= secs <= 8210266876799
    &&& 0 <= nanos < 2000000000
    &&& nanos >= 1000000000 ==> secs % 60 == 59
}

/// What a `Timestamp` stands for.
pub struct SpecTimestamp {
    pub secs: int,
    pub nanos: int,
}

impl View for Timestamp {
    type V = SpecTimestamp;

    closed spec fn view(&self) -> SpecTimestamp {
        SpecTimestamp { secs: self.secs as int, nanos: self.nanos as int }
    }
}

impl Timestamp {
    #[verifier::type_invariant]
    spec fn well_formed(self) -> bool {
        valid_timestamp(self.secs as int, self.nanos as int)
    }

    /// The point in time that lies `nanos` nanoseconds past `secs` seconds after the Unix epoch, if
    /// there is one.
    pub fn new(secs: i64, nanos: u32) -> (timestamp: Option<Self>)
        ensures
            timestamp is Some <==> valid_timestamp(secs as int, nanos as int),
            timestamp matches Some(t) ==> t@ == (SpecTimestamp {
                secs: secs as int,
                nanos: nanos as int,
            }),
    {
        if secs < -8334601228800 || secs > 8210266876799 || nanos >= 2000000000 {
            return None;
        }
        if nanos >= 1000000000 {
            // The remainder of an `i64` takes the sign of the number.
            let second: i64 = if secs >= 0 {
                secs % 60
            } else {
                // The time in question, moved by a whole number of minutes.
                (secs + 8334601228800) % 60
            };
            if second != 59 {
                return None;
            }
        }
        Some(Timestamp { secs, nanos })
    }

    /// Whole seconds since the Unix epoch.
    pub fn secs(&self) -> (secs: i64)
        ensures
            secs == self@.secs,
    {
        self.secs
    }

    /// Nanoseconds past the whole second.
    pub fn nanos(&self) -> (nanos: u32)
        ensures
            nanos == self@.nanos,
    {
        self.nanos
    }
}

/// A value of an event.
#[derive(Debug)]
pub enum Value {
    /// Bytes, most often text in UTF-8.
    Bytes(Vec<u8>),
    /// A regular expression, held as its pattern.
    Regex(String),
    Integer(i64),
    Float(Double),
    Boolean(bool),
    Timestamp(Timestamp),
    Object(ObjectMap),
    Array(Vec<Value>),
    Null,
}

/// A map from names to values, in the order of the names.
#[derive(Debug)]
pub struct ObjectMap {
    entries: Vec<(String, Value)>,
}

/// What a `Value` stands for.
#[verifier::ext_equal]
pub enum SpecValue {
    Bytes(Seq<u8>),
    Regex(Seq<char>),
    Integer(i64),
    Float(Double),
    Boolean(bool),
    Timestamp(SpecTimestamp),
    Object(Seq<(Seq<char>, SpecValue)>),
    Array(Seq<SpecValue>),
    Null,
}

impl Value {
    /// What this value stands for.
    pub open spec fn model(&self) -> SpecValue
        decreases self,
    {
        match self {
            Value::Bytes(bytes) => SpecValue::Bytes(bytes@),
            Value::Regex(pattern) => SpecValue::Regex(pattern@),
            Value::Integer(number) => SpecValue::Integer(*number),
            Value::Float(number) => SpecValue::Float(*number),
            Value::Boolean(truth) => SpecValue::Boolean(*truth),
            Value::Timestamp(time) => SpecValue::Timestamp(time@),
            Value::Object(map) => SpecValue::Object(map.model()),
            Value::Array(items) => SpecValue::Array(
                Seq::new(
                    items@.len(),
                    |i: int|
                        if 0 <= i < items@.len() {
                            items@[i].model()
                        } else {
                            arbitrary()
                        },
                ),
            ),
            Value::Null => SpecValue::Null,
        }
    }
}

impl ObjectMap {
    /// The entries of this map, in the order of their names.
    pub closed spec fn model(&self) -> Seq<(Seq<char>, SpecValue)>
        decreases self,
    {
        Seq::new(
            self.entries@.len(),
            |i: int|
                if 0 <= i < self.entries@.len() {
                    (self.entries@[i].0@, self.entries@[i].1.model())
                } else {
                    arbitrary()
                },
        )
    }

    #[verifier::type_invariant]
    spec fn well_formed(self) -> bool {
        ascending(names_of(self.entries@))
    }
}

impl View for Value {
    type V = SpecValue;

    open spec fn view(&self) -> SpecValue {
        self.model()
    }
}

impl View for ObjectMap {
    type V = Seq<(Seq<char>, SpecValue)>;

    open spec fn view(&self) -> Seq<(Seq<char>, SpecValue)> {
        self.model()
    }
}

impl ObjectMap {
    proof fn lemma_keys(&self)
        ensures
            keys_of(self@) == names_of(self.entries@),
            self@.len() == self.entries@.len(),
            forall|i: int|
                0 <= i < self.entries@.len() ==> (#[trigger] self@[i]) == (
                self.entries@[i].0@, self.entries@[i].1@),
    {
        assert(keys_of(self@) =~= names_of(self.entries@));
    }

    /// An empty map.
    pub fn new() -> (map: Self)
        ensures
            map@ == Seq::<(Seq<char>, SpecValue)>::empty(),
    {
        let map = ObjectMap { entries: Vec::new() };
        assert(map@ =~= Seq::empty());
        map
    }

    /// The number of entries.
    pub fn len(&self) -> (len: usize)
        ensures
            len == self@.len(),
            ascending(keys_of(self@)),
    {
        proof {
            use_type_invariant(self);
            self.lemma_keys();
        }
        self.entries.len()
    }

    /// Whether there are no entries.
    pub fn is_empty(&self) -> (empty: bool)
        ensures
            empty == (self@.len() == 0),
    {
        self.entries.len() == 0
    }

    /// The name of the entry at place `i`.
    pub fn name(&self, i: usize) -> (name: &String)
        requires
            i < self@.len(),
        ensures
            name@ == self@[i as int].0,
    {
        &self.entries[i].0
    }

    /// The value of the entry at place `i`.
    pub fn value(&self, i: usize) -> (value: &Value)
        requires
            i < self@.len(),
        ensures
            value@ == self@[i as int].1,
            decreases_to!(self => value),
    {
        assert(decreases_to!(self.entries => self.entries@[i as int]));
        &self.entries[i].1
    }

    /// The value under `name`.
    pub fn get(&self, name: &str) -> (value: Option<&Value>)
        ensures
            lookup(self@, name@) == (match value {
                Some(v) => Some(v@),
                None => None,
            }),
            value matches Some(v) ==> decreases_to!(self => v),
    {
        proof {
            self.lemma_keys();
            lemma_key_index(keys_of(self@), name@);
        }
        match find_key(&self.entries, name) {
            Some(i) => Some(self.value(i)),
            None => None,
        }
    }

    /// Whether there is a value under `name`.
    pub fn contains_key(&self, name: &str) -> (found: bool)
        ensures
            found == (lookup(self@, name@) is Some),
    {
        self.get(name).is_some()
    }

    /// Puts `value` under `name`, in place of what stood there.
    pub fn insert(&mut self, name: String, value: Value)
        ensures
            final(self)@ == inserted(old(self)@, name@, value@),
            ascending(keys_of(old(self)@)),
            ascending(keys_of(final(self)@)),
    {
        proof {
            use_type_invariant(&*self);
            self.lemma_keys();
            lemma_key_index(keys_of(self@), name@);
        }
        let ghost before = self.entries@;
        let ghost model = self@;
        let mut entries: Vec<(String, Value)> = Vec::new();
        std::mem::swap(&mut entries, &mut self.entries);
        match find_key(&entries, name.as_str()) {
            Some(i) => {
                entries.set(i, (name, value));
                assert(names_of(entries@) =~= names_of(before));
            },
            None => {
                let at = find_place(&entries, name.as_str());
                proof {
                    lemma_insert_ascending(names_of(before), name@);
                }
                entries.insert(at, (name, value));
                assert(names_of(entries@) =~= names_of(before).insert(at as int, name@));
            },
        }
        self.entries = entries;
        proof {
            self.lemma_keys();
            assert(self@ =~= inserted(model, name@, value@));
        }
    }

    /// Takes out what stands under `name`.
    pub fn remove(&mut self, name: &str) -> (value: Option<Value>)
        ensures
            final(self)@ == removed(old(self)@, name@),
            ascending(keys_of(old(self)@)),
            ascending(keys_of(final(self)@)),
            lookup(old(self)@, name@) == (match value {
                Some(v) => Some(v@),
                None => None,
            }),
    {
        proof {
            use_type_invariant(&*self);
            self.lemma_keys();
            lemma_key_index(keys_of(self@), name@);
        }
        let ghost before = self.entries@;
        let ghost model = self@;
        let mut entries: Vec<(String, Value)> = Vec::new();
        std::mem::swap(&mut entries, &mut self.entries);
        let value = match find_key(&entries, name) {
            Some(i) => {
                proof {
                    lemma_remove_ascending(names_of(before), i as int);
                }
                let entry = entries.remove(i);
                assert(names_of(entries@) =~= names_of(before).remove(i as int));
                Some(entry.1)
            },
            None => None,
        };
        self.entries = entries;
        proof {
            self.lemma_keys();
            assert(self@ =~= removed(model, name@));
        }
        value
    }
}

/// The text of a value that is bytes.
pub open spec fn text_of(value: SpecValue) -> Option<Seq<char>> {
    match value {
        SpecValue::Bytes(bytes) => Some(lossy_text(bytes)),
        _ => None,
    }
}

/// The number of a value that is an integer.
pub open spec fn integer_of(value: SpecValue) -> Option<i64> {
    match value {
        SpecValue::Integer(number) => Some(number),
        _ => None,
    }
}

/// The time of a value that is a timestamp.
pub open spec fn timestamp_of(value: SpecValue) -> Option<SpecTimestamp> {
    match value {
        SpecValue::Timestamp(time) => Some(time),
        _ => None,
    }
}

/// The entries of a value that is an object.
pub open spec fn object_of(value: SpecValue) -> Option<Seq<(Seq<char>, SpecValue)>> {
    match value {
        SpecValue::Object(entries) => Some(entries),
        _ => None,
    }
}

/// The items of a value that is an array.
pub open spec fn array_of(value: SpecValue) -> Option<Seq<SpecValue>> {
    match value {
        SpecValue::Array(items) => Some(items),
        _ => None,
    }
}

impl Value {
    /// The text of a value that is bytes.
    pub fn as_str(&self) -> (text: Option<String>)
        ensures
            text_of(self@) == (match text {
                Some(t) => Some(t@),
                None => None,
            }),
    {
        match self {
            Value::Bytes(bytes) => Some(text_from_utf8_lossy(bytes)),
            _ => None,
        }
    }

    /// The number of a value that is an integer.
    pub fn as_integer(&self) -> (number: Option<i64>)
        ensures
            number == integer_of(self@),
    {
        match self {
            Value::Integer(number) => Some(*number),
            _ => None,
        }
    }

    /// The time of a value that is a timestamp.
    pub fn as_timestamp(&self) -> (time: Option<&Timestamp>)
        ensures
            timestamp_of(self@) == (match time {
                Some(t) => Some(t@),
                None => None,
            }),
    {
        match self {
            Value::Timestamp(time) => Some(time),
            _ => None,
        }
    }

    /// The map of a value that is an object.
    pub fn as_object(&self) -> (map: Option<&ObjectMap>)
        ensures
            object_of(self@) == (match map {
                Some(m) => Some(m@),
                None => None,
            }),
    {
        match self {
            Value::Object(map) => Some(map),
            _ => None,
        }
    }

    /// The items of a value that is an array.
    pub fn as_array(&self) -> (items: Option<&Vec<Value>>)
        ensures
            array_of(self@) == (match items {
                Some(v) => Some(views(v@)),
                None => None,
            }),
    {
        match self {
            Value::Array(items) => {
                assert(array_of(self@)->0 =~= views(items@));
                Some(items)
            },
            _ => None,
        }
    }

    /// A value that holds a text.
    pub fn from_text(text: &str) -> (value: Self)
        ensures
            value@ == SpecValue::Bytes(encode_utf8(text@)),
    {
        Value::Bytes(copy_bytes(text.as_bytes()))
    }
}

/// The number of nanoseconds from the Unix epoch to a point in time, where an `i64` can hold it.
pub open spec fn unix_nanos(time: SpecTimestamp) -> Option<i64> {
    let nanos = time.secs * 1000000000 + time.nanos;
    if i64::MIN <= nanos <= i64::MAX {
        Some(nanos as i64)
    } else {
        None
    }
}

/// `DateTime::timestamp_nanos_opt`: the number of nanoseconds from the Unix epoch to a point in
/// time, where an `i64` can hold it.
#[verifier::external_body]
fn timestamp_nanos_opt(secs: i64, nanos: u32) -> (result: Option<i64>)
    requires
        valid_timestamp(secs as int, nanos as int),
    ensures
        result == unix_nanos((SpecTimestamp { secs: secs as int, nanos: nanos as int })),
{
    chrono::DateTime::from_timestamp(secs, nanos).unwrap_or_default().timestamp_nanos_opt()
}

/// The date and time of day that a `DateTime` in UTC is written as.
pub uninterp spec fn timestamp_text(secs: int, nanos: int) -> Seq<char>;

/// `DateTime::to_string`: the date and time of day, in the form that the name `timestamp_text`
/// stands for.
#[verifier::external_body]
fn timestamp_to_string(secs: i64, nanos: u32) -> (text: String)
    requires
        valid_timestamp(secs as int, nanos as int),
    ensures
        text@ == timestamp_text(secs as int, nanos as int),
{
    chrono::DateTime::from_timestamp(secs, nanos).unwrap_or_default().to_string()
}

impl Timestamp {
    /// The number of nanoseconds since the Unix epoch, where an `i64` can hold it.
    pub fn timestamp_nanos_opt(&self) -> (result: Option<i64>)
        ensures
            result == unix_nanos(self@),
    {
        proof {
            use_type_invariant(self);
        }
        timestamp_nanos_opt(self.secs, self.nanos)
    }

    /// The date and time of day in UTC, as text.
    pub fn to_text(&self) -> (text: String)
        ensures
            text@ == timestamp_text(self@.secs, self@.nanos),
    {
        proof {
            use_type_invariant(self);
        }
        timestamp_to_string(self.secs, self.nanos)
    }
}

/// The points in time are those from the start of the year -262143 to the end of the year 262142, by
/// days of 86400 seconds. The second a minute ends with may be as long as two.
pub proof fn law_points_in_time(day: int, second: int, nanos: int)
    requires
        0 <= second < 86400,
    ensures
        valid_timestamp(day * 86400 + second, nanos) <==> -96465292 <= day <= 95026236 && 0 <= nanos
            && (nanos < 1000000000 || second % 60 == 59 && nanos < 2000000000),
{
}

/// The nanoseconds of a point in time are a thousand million for each second and those past it.
pub proof fn law_nanoseconds(secs: int, nanos: int)
    ensures
        unix_nanos((SpecTimestamp { secs, nanos })) matches Some(all) ==> all - nanos
            == 1000000000 * secs,
        unix_nanos((SpecTimestamp { secs, nanos })) is None <==> secs * 1000000000 + nanos
            < -0x8000_0000_0000_0000 || secs * 1000000000 + nanos > 0x7FFF_FFFF_FFFF_FFFF,
{
}

}
