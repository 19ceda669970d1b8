//! The library's own model of a JSON value: the shape of VM Service messages that the
//! logic reads (the transport layer converts to and from it).

use vstd::prelude::*;
use crate::text::{chars_eq_str, to_chars};

verus! {

broadcast use vstd::string::group_string_axioms;

/// A JSON number, kept as the integer or the IEEE-754 bit pattern it holds.
#[derive(Debug, Clone, Copy, PartialEq, Eq, Structural)]
pub enum JsonNumber {
    /// A non-negative integer.
    PosInt(u64),
    /// A negative integer.
    NegInt(i64),
    /// A floating-point number, as the bits of its `f64` value.
    Float(u64),
}

/// A JSON value.
#[derive(Debug, PartialEq)]
pub enum JsonValue {
    Null,
    Bool(bool),
    Number(JsonNumber),
    String(String),
    Array(Vec<JsonValue>),
    /// Fields in order; keys are unique in values received from the VM Service.
    Object(Vec<(String, JsonValue)>),
}

/// Index of the first field at or after `i` whose key is `key`.
pub open spec fn key_index_from(entries: Seq<(String, JsonValue)>, key: Seq<char>, i: int) -> Option<int>
    decreases entries.len() - i,
{
    if i < 0 || i >= entries.len() {
        None
    } else if entries[i].0@ == key {
        Some(i)
    } else {
        key_index_from(entries, key, i + 1)
    }
}

pub proof fn lemma_key_index_from_bounds(entries: Seq<(String, JsonValue)>, key: Seq<char>, i: int)
    ensures
        key_index_from(entries, key, i) matches Some(k) ==> i <= k < entries.len() && entries[k].0@ == key,
    decreases entries.len() - i,
{
    if 0 <= i < entries.len() && entries[i].0@ != key {
        lemma_key_index_from_bounds(entries, key, i + 1);
    }
}

/// The value of field `key` of an object.
pub open spec fn spec_get(v: JsonValue, key: Seq<char>) -> Option<JsonValue> {
    match v {
        JsonValue::Object(entries) => match key_index_from(entries@, key, 0) {
            Some(i) => Some(entries@[i].1),
            None => None,
        },
        _ => None,
    }
}

pub open spec fn spec_as_str(v: JsonValue) -> Option<Seq<char>> {
    match v {
        JsonValue::String(s) => Some(s@),
        _ => None,
    }
}

/// The value as an `i64`: integers in range; never floats.
pub open spec fn spec_as_i64(v: JsonValue) -> Option<i64> {
    match v {
        JsonValue::Number(JsonNumber::PosInt(n)) => if n <= i64::MAX {
            Some(n as i64)
        } else {
            None
        },
        JsonValue::Number(JsonNumber::NegInt(n)) => Some(n),
        _ => None,
    }
}

pub open spec fn spec_as_bool(v: JsonValue) -> Option<bool> {
    match v {
        JsonValue::Bool(b) => Some(b),
        _ => None,
    }
}

pub open spec fn spec_as_array(v: JsonValue) -> Option<Seq<JsonValue>> {
    match v {
        JsonValue::Array(a) => Some(a@),
        _ => None,
    }
}

/// Field `key` of an object, as a string.
pub open spec fn spec_get_str(v: JsonValue, key: Seq<char>) -> Option<Seq<char>> {
    match spec_get(v, key) {
        Some(f) => spec_as_str(f),
        None => None,
    }
}

/// Field `key` of an object, as an `i64`.
pub open spec fn spec_get_i64(v: JsonValue, key: Seq<char>) -> Option<i64> {
    match spec_get(v, key) {
        Some(f) => spec_as_i64(f),
        None => None,
    }
}

/// The fields after setting `key` to `val`: replaced in place when present, appended
/// otherwise.
pub open spec fn spec_with_field(entries: Seq<(String, JsonValue)>, key: String, val: JsonValue) -> Seq<(String, JsonValue)> {
    match key_index_from(entries, key@, 0) {
        Some(i) => entries.update(i, (entries[i].0, val)),
        None => entries.push((key, val)),
    }
}

/// A field's value is smaller than the object holding it.
pub proof fn lemma_get_decreases(v: JsonValue, key: Seq<char>)
    ensures
        spec_get(v, key) matches Some(f) ==> decreases_to!(v => f),
{
    if let JsonValue::Object(entries) = v {
        lemma_key_index_from_bounds(entries@, key, 0);
        if let Some(i) = key_index_from(entries@, key, 0) {
            assert(decreases_to!(v => entries));
            assert(decreases_to!(entries => entries@));
            assert(decreases_to!(entries@ => entries@[i]));
            assert(decreases_to!(entries@[i] => entries@[i].1));
        }
    }
}

/// An element of an array is smaller than the array value.
pub proof fn lemma_array_decreases(v: JsonValue, a: Seq<JsonValue>)
    requires
        spec_as_array(v) == Some(a),
    ensures
        decreases_to!(v => a),
{
    if let JsonValue::Array(arr) = v {
        assert(decreases_to!(v => arr));
        assert(decreases_to!(arr => arr@));
    }
}

impl JsonValue {
    /// Field `key` of an object; `None` for other values or a missing field.
    pub fn get(&self, key: &str) -> (r: Option<&JsonValue>)
        ensures
            match r {
                Some(f) => spec_get(*self, key@) == Some(*f),
                None => spec_get(*self, key@) is None,
            },
    {
        match self {
            JsonValue::Object(entries) => match Self::key_index(entries, key) {
                Some(i) => Some(&entries[i].1),
                None => None,
            },
            _ => None,
        }
    }

    pub(crate) fn key_index(entries: &Vec<(String, JsonValue)>, key: &str) -> (r: Option<usize>)
        ensures
            match r {
                Some(i) => i < entries.len() && key_index_from(entries@, key@, 0) == Some(i as int),
                None => key_index_from(entries@, key@, 0) is None,
            },
    {
        let mut i: usize = 0;
        while i < entries.len()
            invariant
                i <= entries.len(),
                key_index_from(entries@, key@, 0) == key_index_from(entries@, key@, i as int),
            decreases entries.len() - i,
        {
            let k = to_chars(entries[i].0.as_str());
            if chars_eq_str(&k, key) {
                return Some(i);
            }
            i = i + 1;
        }
        None
    }

    /// The string held, if the value is a string.
    pub fn as_str(&self) -> (r: Option<&str>)
        ensures
            match r {
                Some(s) => spec_as_str(*self) == Some(s@),
                None => spec_as_str(*self) is None,
            },
    {
        match self {
            JsonValue::String(s) => Some(s.as_str()),
            _ => None,
        }
    }

    /// The value as an `i64`, if it is an integer in range.
    pub fn as_i64(&self) -> (r: Option<i64>)
        ensures
            r == spec_as_i64(*self),
    {
        match self {
            JsonValue::Number(JsonNumber::PosInt(n)) => if *n <= 9223372036854775807u64 {
                Some(*n as i64)
            } else {
                None
            },
            JsonValue::Number(JsonNumber::NegInt(n)) => Some(*n),
            _ => None,
        }
    }

    /// The boolean held, if the value is a boolean.
    pub fn as_bool(&self) -> (r: Option<bool>)
        ensures
            r == spec_as_bool(*self),
    {
        match self {
            JsonValue::Bool(b) => Some(*b),
            _ => None,
        }
    }

    /// The elements, if the value is an array.
    pub fn as_array(&self) -> (r: Option<&Vec<JsonValue>>)
        ensures
            match r {
                Some(a) => *self == JsonValue::Array(*a),
                None => spec_as_array(*self) is None,
            },
    {
        match self {
            JsonValue::Array(a) => Some(a),
            _ => None,
        }
    }

    /// Field `key`, as a string.
    pub fn get_str(&self, key: &str) -> (r: Option<&str>)
        ensures
            match r {
                Some(s) => spec_get_str(*self, key@) == Some(s@),
                None => spec_get_str(*self, key@) is None,
            },
    {
        match self.get(key) {
            Some(f) => f.as_str(),
            None => None,
        }
    }

    /// Field `key`, as an `i64`.
    pub fn get_i64(&self, key: &str) -> (r: Option<i64>)
        ensures
            r == spec_get_i64(*self, key@),
    {
        match self.get(key) {
            Some(f) => f.as_i64(),
            None => None,
        }
    }

    /// A JSON string holding the characters of `s`.
    pub fn string(s: &str) -> (r: JsonValue)
        ensures
            spec_as_str(r) == Some(s@),
    {
        JsonValue::String(String::from_str(s))
    }
}

/// Sets field `key` of an object's field list to `val`.
pub fn set_field(entries: &mut Vec<(String, JsonValue)>, key: &str, val: JsonValue)
    ensures
        exists|k: String| k@ == key@ && final(entries)@ == spec_with_field(old(entries)@, k, val),
{
    let k = String::from_str(key);
    match JsonValue::key_index(entries, key) {
        Some(i) => {
            let name = entries[i].0.clone();
            entries.set(i, (name, val));
            assert(entries@ == spec_with_field(old(entries)@, k, val));
        },
        None => {
            let ghost kk = k;
            entries.push((k, val));
            assert(entries@ == spec_with_field(old(entries)@, kk, val));
        },
    }
}

} // verus!
