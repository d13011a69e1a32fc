//! Reading the fields of an object.
use vstd::prelude::*;
use vstd::string::*;
use crate::keys::lookup;
use crate::value::{
    array_of, integer_of, object_of, text_of, timestamp_of, ObjectMap, SpecTimestamp, SpecValue,
    Timestamp, Value,
};
use crate::views::views;

verus! {

/// The text under a name.
pub open spec fn text_at(fields: Seq<(Seq<char>, SpecValue)>, name: Seq<char>) -> Option<
    Seq<char>,
> {
    match lookup(fields, name) {
        Some(value) => text_of(value),
        None => None,
    }
}

/// The integer under a name.
pub open spec fn integer_at(fields: Seq<(Seq<char>, SpecValue)>, name: Seq<char>) -> Option<i64> {
    match lookup(fields, name) {
        Some(value) => integer_of(value),
        None => None,
    }
}

/// The time under a name.
pub open spec fn timestamp_at(fields: Seq<(Seq<char>, SpecValue)>, name: Seq<char>) -> Option<
    SpecTimestamp,
> {
    match lookup(fields, name) {
        Some(value) => timestamp_of(value),
        None => None,
    }
}

/// The entries of the object under a name.
pub open spec fn object_at(fields: Seq<(Seq<char>, SpecValue)>, name: Seq<char>) -> Option<
    Seq<(Seq<char>, SpecValue)>,
> {
    match lookup(fields, name) {
        Some(value) => object_of(value),
        None => None,
    }
}

/// The items of the array under a name.
pub open spec fn array_at(fields: Seq<(Seq<char>, SpecValue)>, name: Seq<char>) -> Option<
    Seq<SpecValue>,
> {
    match lookup(fields, name) {
        Some(value) => array_of(value),
        None => None,
    }
}

/// The integer under a name; zero where there is none.
pub open spec fn integer_or_zero(fields: Seq<(Seq<char>, SpecValue)>, name: Seq<char>) -> i64 {
    match integer_at(fields, name) {
        Some(number) => number,
        None => 0,
    }
}

/// The text under a name; empty where there is none.
pub open spec fn text_or_empty(fields: Seq<(Seq<char>, SpecValue)>, name: Seq<char>) -> Seq<char> {
    match text_at(fields, name) {
        Some(text) => text,
        None => Seq::empty(),
    }
}

/// The entries of the object under a name; none where there is no object.
pub open spec fn object_or_empty(fields: Seq<(Seq<char>, SpecValue)>, name: Seq<char>) -> Seq<
    (Seq<char>, SpecValue),
> {
    match object_at(fields, name) {
        Some(entries) => entries,
        None => Seq::empty(),
    }
}

impl ObjectMap {
    /// The text under a name.
    pub fn get_text(&self, name: &str) -> (text: Option<String>)
        ensures
            text_at(self@, name@) == (match text {
                Some(t) => Some(t@),
                None => None,
            }),
    {
        match self.get(name) {
            Some(value) => value.as_str(),
            None => None,
        }
    }

    /// The integer under a name.
    pub fn get_integer(&self, name: &str) -> (number: Option<i64>)
        ensures
            number == integer_at(self@, name@),
    {
        match self.get(name) {
            Some(value) => value.as_integer(),
            None => None,
        }
    }

    /// The integer under a name; zero where there is none.
    pub fn get_integer_or_zero(&self, name: &str) -> (number: i64)
        ensures
            number == integer_or_zero(self@, name@),
    {
        match self.get_integer(name) {
            Some(number) => number,
            None => 0,
        }
    }

    /// The time under a name.
    pub fn get_timestamp(&self, name: &str) -> (time: Option<&Timestamp>)
        ensures
            timestamp_at(self@, name@) == (match time {
                Some(t) => Some(t@),
                None => None,
            }),
    {
        match self.get(name) {
            Some(value) => value.as_timestamp(),
            None => None,
        }
    }

    /// The object under a name.
    pub fn get_object(&self, name: &str) -> (map: Option<&ObjectMap>)
        ensures
            object_at(self@, name@) == (match map {
                Some(m) => Some(m@),
                None => None,
            }),
    {
        match self.get(name) {
            Some(value) => value.as_object(),
            None => None,
        }
    }

    /// The items of the array under a name.
    pub fn get_array(&self, name: &str) -> (items: Option<&Vec<Value>>)
        ensures
            array_at(self@, name@) == (match items {
                Some(v) => Some(views(v@)),
                None => None,
            }),
    {
        match self.get(name) {
            Some(value) => value.as_array(),
            None => None,
        }
    }
}

}
