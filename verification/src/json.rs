//! JSON documents as plain trees.
use crate::text::{same_text, text_opt};
use vstd::prelude::*;

verus! {

/// A JSON value. Numbers keep what they hold as integers; any other number is `Real`.
#[derive(Debug)]
pub enum Json {
    Null,
    Bool(bool),
    Unsigned(u64),
    Negative(i64),
    Real,
    Text(String),
    List(Vec<Json>),
    Object(Vec<(String, Json)>),
}

/// The outside crate's JSON value.
#[verifier::external_type_specification]
#[verifier::external_body]
pub struct ExJsonValue(serde_json::Value);

/// The tree that a `serde_json::Value` holds.
pub uninterp spec fn json_contents(value: serde_json::Value) -> Json;

/// What a byte string holds as a JSON document, or the text of the error that refuses it.
pub uninterp spec fn json_document(bytes: Seq<u8>) -> Result<Json, Seq<char>>;

/// Reads out a `serde_json::Value` variant by variant: lists and objects item by item in the
/// order in which the value hands them out, integers as `Number::as_u64` and `Number::as_i64`
/// give them, numbers that are no integers without their value.
#[verifier::external_body]
fn json_tree(value: serde_json::Value) -> (out: Json)
    ensures
        out == json_contents(value),
{
    match value {
        serde_json::Value::Null => Json::Null,
        serde_json::Value::Bool(b) => Json::Bool(b),
        serde_json::Value::Number(n) => match (n.as_u64(), n.as_i64()) {
            (Some(u), _) => Json::Unsigned(u),
            (None, Some(i)) => Json::Negative(i),
            (None, None) => Json::Real,
        },
        serde_json::Value::String(s) => Json::Text(s),
        serde_json::Value::Array(items) => Json::List(items.into_iter().map(json_tree).collect()),
        serde_json::Value::Object(map) => {
            Json::Object(map.into_iter().map(|(k, v)| (k, json_tree(v))).collect())
        },
    }
}

/// `serde_json::from_slice` reads the whole slice as one JSON document. The value that it holds,
/// or the text of the error, is a function of the bytes alone.
#[verifier::external_body]
fn json_value(bytes: &[u8]) -> (out: Result<serde_json::Value, String>)
    ensures
        match json_document(bytes@) {
            Ok(document) => out is Ok && json_contents(out->Ok_0) == document,
            Err(message) => out is Err && out->Err_0@ == message,
        },
{
    serde_json::from_slice(bytes).map_err(|error| error.to_string())
}

/// Reads a JSON document.
pub fn parse_json(bytes: &[u8]) -> (out: Result<Json, String>)
    ensures
        match json_document(bytes@) {
            Ok(document) => out == Ok::<Json, String>(document),
            Err(message) => out is Err && out->Err_0@ == message,
        },
{
    match json_value(bytes) {
        Ok(value) => Ok(json_tree(value)),
        Err(message) => Err(message),
    }
}

/// The value of the first field named `key`.
pub open spec fn lookup(fields: Seq<(String, Json)>, key: Seq<char>) -> Option<Json>
    decreases fields.len(),
{
    if fields.len() == 0 {
        None
    } else if fields[0].0@ == key {
        Some(fields[0].1)
    } else {
        lookup(fields.drop_first(), key)
    }
}

/// The field `key` of an object; nothing of any other value.
pub open spec fn field(value: Json, key: Seq<char>) -> Option<Json> {
    match value {
        Json::Object(fields) => lookup(fields@, key),
        _ => None,
    }
}

/// The field `key` of an optional value.
pub open spec fn field_opt(value: Option<Json>, key: Seq<char>) -> Option<Json> {
    match value {
        Some(v) => field(v, key),
        None => None,
    }
}

/// The text that a value holds.
pub open spec fn text_of(value: Option<Json>) -> Option<Seq<char>> {
    match value {
        Some(Json::Text(s)) => Some(s@),
        _ => None,
    }
}

/// The unsigned integer that a value holds.
pub open spec fn unsigned_of(value: Option<Json>) -> Option<u64> {
    match value {
        Some(Json::Unsigned(n)) => Some(n),
        _ => None,
    }
}

/// The items that a value holds.
pub open spec fn list_of(value: Option<Json>) -> Option<Seq<Json>> {
    match value {
        Some(Json::List(items)) => Some(items@),
        _ => None,
    }
}

/// The 32-bit integer that a value holds.
pub open spec fn i32_of(value: Json) -> Option<i32> {
    match value {
        Json::Unsigned(n) => if n <= i32::MAX {
            Some(n as i32)
        } else {
            None
        },
        Json::Negative(n) => if i32::MIN <= n <= i32::MAX {
            Some(n as i32)
        } else {
            None
        },
        _ => None,
    }
}

/// The value behind an optional reference.
pub open spec fn deref_opt(value: Option<&Json>) -> Option<Json> {
    match value {
        Some(v) => Some(*v),
        None => None,
    }
}

fn find_field<'a>(fields: &'a Vec<(String, Json)>, key: &str) -> (out: Option<&'a Json>)
    ensures
        deref_opt(out) == lookup(fields@, key@),
{
    let mut i: usize = 0;
    assert(fields@.skip(0) =~= fields@);
    while i < fields.len()
        invariant
            i <= fields@.len(),
            lookup(fields@, key@) == lookup(fields@.skip(i as int), key@),
        decreases fields@.len() - i,
    {
        assert(fields@.skip(i as int)[0] == fields@[i as int]);
        assert(fields@.skip(i as int).drop_first() =~= fields@.skip(i + 1));
        if same_text(fields[i].0.as_str(), key) {
            return Some(&fields[i].1);
        }
        i = i + 1;
    }
    None
}

impl Json {
    /// The field `key` of an object; nothing of any other value.
    pub fn get(&self, key: &str) -> (out: Option<&Json>)
        ensures
            deref_opt(out) == field(*self, key@),
    {
        match self {
            Json::Object(fields) => find_field(fields, key),
            _ => None,
        }
    }

    /// The 32-bit integer that the value holds.
    pub fn as_i32(&self) -> (out: Option<i32>)
        ensures
            out == i32_of(*self),
    {
        match self {
            Json::Unsigned(n) => {
                if *n <= i32::MAX as u64 {
                    Some(*n as i32)
                } else {
                    None
                }
            },
            Json::Negative(n) => {
                if i32::MIN as i64 <= *n && *n <= i32::MAX as i64 {
                    Some(*n as i32)
                } else {
                    None
                }
            },
            _ => None,
        }
    }
}

/// The field `key` of an optional value.
pub fn get_in<'a>(value: Option<&'a Json>, key: &str) -> (out: Option<&'a Json>)
    ensures
        deref_opt(out) == field_opt(deref_opt(value), key@),
{
    match value {
        Some(v) => v.get(key),
        None => None,
    }
}

/// A copy of the text that an optional value holds.
pub fn text_in(value: Option<&Json>) -> (out: Option<String>)
    ensures
        text_opt(out) == text_of(deref_opt(value)),
{
    match value {
        Some(v) => match v {
            Json::Text(s) => Some(s.clone()),
            _ => None,
        },
        None => None,
    }
}

/// The unsigned integer that an optional value holds.
pub fn unsigned_in(value: Option<&Json>) -> (out: Option<u64>)
    ensures
        out == unsigned_of(deref_opt(value)),
{
    match value {
        Some(v) => match v {
            Json::Unsigned(n) => Some(*n),
            _ => None,
        },
        None => None,
    }
}

/// The items that an optional value holds.
pub fn list_in<'a>(value: Option<&'a Json>) -> (out: Option<&'a Vec<Json>>)
    ensures
        match out {
            Some(items) => list_of(deref_opt(value)) == Some(items@),
            None => list_of(deref_opt(value)) is None,
        },
{
    match value {
        Some(v) => match v {
            Json::List(items) => Some(items),
            _ => None,
        },
        None => None,
    }
}

proof fn first_field_of_a_name(fields: Seq<(String, Json)>, key: Seq<char>)
    ensures
        match lookup(fields, key) {
            Some(value) => exists|i: int|
                {
                    &&& 0 <= i < fields.len()
                    &&& (#[trigger] fields[i]).0@ == key
                    &&& fields[i].1 == value
                    &&& forall|j: int| 0 <= j < i ==> (#[trigger] fields[j]).0@ != key
                },
            None => forall|i: int| 0 <= i < fields.len() ==> (#[trigger] fields[i]).0@ != key,
        },
    decreases fields.len(),
{
    if fields.len() > 0 && fields[0].0@ != key {
        let rest = fields.drop_first();
        first_field_of_a_name(rest, key);
        if lookup(rest, key) is Some {
            let i = choose|i: int|
                {
                    &&& 0 <= i < rest.len()
                    &&& (#[trigger] rest[i]).0@ == key
                    &&& rest[i].1 == lookup(rest, key)->Some_0
                    &&& forall|j: int| 0 <= j < i ==> (#[trigger] rest[j]).0@ != key
                };
            assert(fields[i + 1].0@ == key);
            assert forall|j: int| 0 <= j < i + 1 implies (#[trigger] fields[j]).0@ != key by {
                if j > 0 {
                    assert(rest[j - 1].0@ != key);
                }
            }
        } else {
            assert forall|i: int| 0 <= i < fields.len() implies (#[trigger] fields[i]).0@ != key by {
                if i > 0 {
                    assert(rest[i - 1].0@ != key);
                }
            }
        }
    }
}

/// A field is found under its own name, in objects alone, and is missed only where no field has the
/// name.
pub proof fn fields_are_found_by_name(fields: Vec<(String, Json)>, key: &str, out: Option<&Json>)
    requires
        call_ensures(Json::get, (&Json::Object(fields), key), out),
    ensures
        match out {
            Some(value) => exists|i: int|
                0 <= i < fields@.len() && (#[trigger] fields@[i]).0@ == key@ && fields@[i].1 == *value,
            None => forall|i: int| 0 <= i < fields@.len() ==> (#[trigger] fields@[i]).0@ != key@,
        },
{
    first_field_of_a_name(fields@, key@);
}

/// A value is read as what it is or not at all: a number within the bounds of what it is read as, a text
/// as a text.
pub proof fn values_are_read_as_what_they_are(
    value: &Json,
    signed: Option<i32>,
    unsigned: Option<u64>,
    text: Option<String>,
)
    requires
        call_ensures(Json::as_i32, (value,), signed),
        call_ensures(unsigned_in, (Some(value),), unsigned),
        call_ensures(text_in, (Some(value),), text),
    ensures
        signed matches Some(n) ==> *value == Json::Unsigned(n as u64) && n >= 0 || *value
            == Json::Negative(n as i64),
        value matches Json::Unsigned(n) ==> unsigned == Some(*n) && (signed is Some <==> *n
            <= 0x7fff_ffff),
        value matches Json::Negative(n) ==> unsigned is None && (signed is Some <==> -0x8000_0000 <= *n
            <= 0x7fff_ffff),
        value matches Json::Text(s) ==> text is Some && text->Some_0@ == s@ && signed is None,
        !(value is Text) ==> text is None,
        !(value is Unsigned) ==> unsigned is None,
{
}

} // verus!
