//! A JSON document as plain values: what request payloads are built from and
//! what response bodies are read as.
use vstd::prelude::*;
use crate::text::chars_of;

verus! {

/// A JSON number. Floating-point numbers are carried by their IEEE-754 bits.
#[derive(Clone, Copy, Debug, PartialEq, Eq, Structural)]
pub enum JsonNumber {
    UInt(u64),
    Int(i64),
    F32Bits(u32),
    F64Bits(u64),
}

/// A JSON value. Object members keep their order; a key occurs at most once
/// in documents read from the wire.
#[derive(Debug)]
pub enum JsonValue {
    Null,
    Bool(bool),
    Number(JsonNumber),
    Str(String),
    Array(Vec<JsonValue>),
    Object(Vec<(String, JsonValue)>),
}

/// The value of the first member named `key` among `fields`.
pub open spec fn field_value(fields: Seq<(String, JsonValue)>, key: Seq<char>) -> Option<JsonValue>
    decreases fields.len(),
{
    if fields.len() == 0 {
        None
    } else if fields[0].0@ == key {
        Some(fields[0].1)
    } else {
        field_value(fields.drop_first(), key)
    }
}

/// `value[key]` where `value` is an object that has `key` (`Value::get` with a
/// string).
pub open spec fn get_key(value: JsonValue, key: Seq<char>) -> Option<JsonValue> {
    match value {
        JsonValue::Object(fields) => field_value(fields@, key),
        _ => None,
    }
}

/// `value[index]` where `value` is an array that long (`Value::get` with an
/// index).
pub open spec fn get_index(value: JsonValue, index: int) -> Option<JsonValue> {
    match value {
        JsonValue::Array(items) => if 0 <= index < items@.len() {
            Some(items@[index])
        } else {
            None
        },
        _ => None,
    }
}

/// The text of a string value (`Value::as_str`).
pub open spec fn as_text(value: JsonValue) -> Option<Seq<char>> {
    match value {
        JsonValue::Str(s) => Some(s@),
        _ => None,
    }
}

/// `get_key` on an optional value.
pub open spec fn opt_key(value: Option<JsonValue>, key: Seq<char>) -> Option<JsonValue> {
    match value {
        Some(v) => get_key(v, key),
        None => None,
    }
}

/// `as_text` on an optional value.
pub open spec fn opt_text(value: Option<JsonValue>) -> Option<Seq<char>> {
    match value {
        Some(v) => as_text(v),
        None => None,
    }
}

/// The member named `key` of an object (`Value::get` with a string).
pub fn get<'a>(value: &'a JsonValue, key: &str) -> (r: Option<&'a JsonValue>)
    ensures
        match r {
            Some(x) => get_key(*value, key@) == Some(*x),
            None => get_key(*value, key@) is None,
        },
{
    match value {
        JsonValue::Object(fields) => {
            let k = chars_of(key);
            let mut i: usize = 0;
            assert(fields@.skip(0) =~= fields@);
            assert(get_key(*value, key@) == field_value(fields@, key@));
            while i < fields.len()
                invariant
                    i <= fields@.len(),
                    k@ == key@,
                    get_key(*value, key@) == field_value(fields@, key@),
                    field_value(fields@, key@) == field_value(fields@.skip(i as int), key@),
                decreases fields.len() - i,
            {
                let ghost rest = fields@.skip(i as int);
                assert(rest.drop_first() =~= fields@.skip(i + 1));
                let name = chars_of(fields[i].0.as_str());
                assert(rest[0] == fields@[i as int]);
                if crate::text::chars_eq(name.as_slice(), k.as_slice()) {
                    assert(rest.len() > 0 && rest[0].0@ == key@);
                    assert(field_value(rest, key@) == Some(rest[0].1));
                    assert(get_key(*value, key@) == field_value(fields@, key@));
                    let r = &fields[i].1;
                    assert(*r == fields@[i as int].1);
                    return Some(r);
                }
                i += 1;
            }
            None
        },
        _ => None,
    }
}

/// The element at `index` of an array (`Value::get` with an index).
pub fn at(value: &JsonValue, index: usize) -> (r: Option<&JsonValue>)
    ensures
        match r {
            Some(x) => get_index(*value, index as int) == Some(*x),
            None => get_index(*value, index as int) is None,
        },
{
    match value {
        JsonValue::Array(items) => if index < items.len() {
            Some(&items[index])
        } else {
            None
        },
        _ => None,
    }
}

/// The text of a string value (`Value::as_str`).
pub fn text_of(value: &JsonValue) -> (r: Option<&String>)
    ensures
        match r {
            Some(s) => as_text(*value) == Some(s@),
            None => as_text(*value) is None,
        },
{
    match value {
        JsonValue::Str(s) => Some(s),
        _ => None,
    }
}

} // verus!
