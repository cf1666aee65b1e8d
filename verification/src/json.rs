//! A decoded JSON document as plain values.
//!
//! Documents are decoded at the program's edge (`serde_json`), which also
//! reads the numbers that the feed logic needs from every string and number
//! (the standard `f32` / `f64` parsers, and a coordinate's value in
//! thousandths of a degree); those readings travel with the text, floating
//! point values as IEEE-754 bit patterns.  Object members are kept in the order of
//! `serde_json::Map`, which is the ascending order of their keys.
use vstd::prelude::*;

verus! {

/// A string of the document (or the text of a number) with its readings.
pub struct JsonText {
    pub text: String,
    /// `text.parse::<f32>()`, as `f32::to_bits`.
    pub f32_bits: Option<u32>,
    /// `text.trim().parse::<f32>()`, as `f32::to_bits`.
    pub trimmed_f32_bits: Option<u32>,
    /// `text.parse::<f64>()`, as `f64::to_bits`.
    pub f64_bits: Option<u64>,
}

/// What the feed logic reads of a `JsonText`.
pub struct TextReading {
    pub text: Seq<char>,
    pub f32_bits: Option<u32>,
    pub trimmed_f32_bits: Option<u32>,
    pub f64_bits: Option<u64>,
}

impl View for JsonText {
    type V = TextReading;

    open spec fn view(&self) -> TextReading {
        TextReading {
            text: self.text@,
            f32_bits: self.f32_bits,
            trimmed_f32_bits: self.trimmed_f32_bits,
            f64_bits: self.f64_bits,
        }
    }
}

impl JsonText {
    /// A copy of this text and its readings.
    pub fn duplicate(&self) -> (r: JsonText)
        ensures
            r@ == self@,
    {
        JsonText {
            text: self.text.clone(),
            f32_bits: self.f32_bits,
            trimmed_f32_bits: self.trimmed_f32_bits,
            f64_bits: self.f64_bits,
        }
    }
}

/// A number of the document.
pub struct JsonNumber {
    /// `serde_json::Number`'s `Display` output, with its readings.
    pub repr: JsonText,
    /// `Number::as_i64`.
    pub as_i64: Option<i64>,
    /// `Number::as_f64().unwrap()`, as `f64::to_bits`.
    pub as_f64_bits: u64,
    /// `Number::as_f64().unwrap() as f32`, as `f32::to_bits`.
    pub as_f32_bits: u32,
    /// That `f32` scaled to thousandths and rounded: `(v * 1000.0).round() as i32`.
    pub scaled_key: i32,
}

pub enum JsonValue {
    Null,
    Bool(bool),
    Number(JsonNumber),
    String(JsonText),
    Array(Vec<JsonValue>),
    Object(Vec<(JsonText, JsonValue)>),
}

/// The keys of an object's members, in order.
pub open spec fn member_keys(es: Seq<(JsonText, JsonValue)>) -> Seq<TextReading> {
    es.map_values(|m: (JsonText, JsonValue)| m.0@)
}

/// `Map::get`: the value of the first member with the given key.
pub open spec fn member_get(es: Seq<(JsonText, JsonValue)>, key: Seq<char>) -> Option<JsonValue>
    decreases es.len(),
{
    if es.len() == 0 {
        None
    } else if es[0].0.text@ == key {
        Some(es[0].1)
    } else {
        member_get(es.drop_first(), key)
    }
}

/// `Value::get(key)`: a member's value when the value is an object.
pub open spec fn value_get(v: JsonValue, key: Seq<char>) -> Option<JsonValue> {
    match v {
        JsonValue::Object(es) => member_get(es@, key),
        _ => None,
    }
}

/// Whether two texts are equal.
pub fn text_eq(a: &str, b: &str) -> (r: bool)
    ensures
        r == (a@ == b@),
{
    let x = crate::text::str_chars(a);
    let y = crate::text::str_chars(b);
    if x.len() != y.len() {
        assert(a@.len() != b@.len());
        return false;
    }
    let mut i: usize = 0;
    while i < x.len()
        invariant
            i <= x.len(),
            x.len() == y.len(),
            x@ == a@,
            y@ == b@,
            forall|k: int| 0 <= k < i ==> x@[k] == y@[k],
        decreases x.len() - i,
    {
        if x[i] != y[i] {
            assert(x@[i as int] != y@[i as int]);
            assert(a@ != b@);
            return false;
        }
        i += 1;
    }
    assert(x@ =~= y@);
    true
}

/// `Map::get`: the value of the first member with the given key.
pub fn get_member<'a>(es: &'a Vec<(JsonText, JsonValue)>, key: &str) -> (r: Option<&'a JsonValue>)
    ensures
        match member_get(es@, key@) {
            Some(v) => r == Some(&v),
            None => r is None,
        },
{
    let mut i: usize = 0;
    assert(es@.skip(0) =~= es@);
    while i < es.len()
        invariant
            i <= es.len(),
            member_get(es@, key@) == member_get(es@.skip(i as int), key@),
        decreases es.len() - i,
    {
        assert(es@.skip(i as int)[0] == es@[i as int]);
        assert(es@.skip(i as int).drop_first() =~= es@.skip(i + 1));
        if text_eq(es[i].0.text.as_str(), key) {
            return Some(&es[i].1);
        }
        i += 1;
    }
    None
}

/// `Value::get(key)`.
pub fn get_value<'a>(v: &'a JsonValue, key: &str) -> (r: Option<&'a JsonValue>)
    ensures
        match value_get(*v, key@) {
            Some(x) => r == Some(&x),
            None => r is None,
        },
{
    match v {
        JsonValue::Object(es) => get_member(es, key),
        _ => None,
    }
}

} // verus!
