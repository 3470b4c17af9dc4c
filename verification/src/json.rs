//! JSON values, as `serde_json` parses them, and what a JSON proof file holds.
use vstd::prelude::*;

use crate::keyed::str_eq;
use crate::proof_input::{
    read_proof_bytes, spec_hex_decode, spec_number_bytes, spec_strip_0x, ProofDocument,
};
use vstd::utf8::encode_utf8;

verus! {

/// `serde_json`'s parsed JSON value.
#[verifier::external_type_specification]
#[verifier::external_body]
pub struct ExJsonValue(serde_json::Value);

/// A JSON value. A number is kept as the unsigned integer it is, when it is
/// one; an object as its fields in the order `serde_json` keeps them (sorted by
/// key, each key once).
pub enum JsonValue {
    Null,
    Bool(bool),
    Number(Option<u64>),
    Str(String),
    Array(Vec<JsonValue>),
    Object(Vec<(String, JsonValue)>),
}

/// The JSON value `serde_json::from_slice` reads from `raw`, if `raw` is JSON.
pub uninterp spec fn json_value(raw: Seq<u8>) -> Option<JsonValue>;

/// Turns `serde_json`'s value into a `JsonValue`, variant for variant, with
/// `Number::as_u64` for numbers. Trusted: nothing is stated of it; what
/// `parse_json` returns is stated there.
#[verifier::external_body]
fn json_of_serde(v: &serde_json::Value) -> JsonValue {
    match v {
        serde_json::Value::Null => JsonValue::Null,
        serde_json::Value::Bool(b) => JsonValue::Bool(*b),
        serde_json::Value::Number(n) => JsonValue::Number(n.as_u64()),
        serde_json::Value::String(s) => JsonValue::Str(s.clone()),
        serde_json::Value::Array(a) => JsonValue::Array(a.iter().map(json_of_serde).collect()),
        serde_json::Value::Object(m) => JsonValue::Object(
            m.iter().map(|(k, x)| (k.clone(), json_of_serde(x))).collect(),
        ),
    }
}

/// `serde_json::from_slice` into `serde_json::Value`. Trusted: when `raw` is
/// JSON the result is the name `json_value` of the bytes, otherwise an error
/// (the error's wording, `serde_json::Error`'s `Display`, is not stated).
#[verifier::external_body]
pub(crate) fn parse_json(raw: &[u8]) -> (r: Result<JsonValue, String>)
    ensures
        match json_value(raw@) {
            Some(v) => r matches Ok(x) && x == v,
            None => r is Err,
        },
{
    match serde_json::from_slice::<serde_json::Value>(raw) {
        Ok(v) => Ok(json_of_serde(&v)),
        Err(e) => Err(e.to_string()),
    }
}

/// The value of the first field named `key`.
pub open spec fn spec_field(fields: Seq<(String, JsonValue)>, key: Seq<char>) -> Option<JsonValue>
    decreases fields.len(),
{
    if fields.len() == 0 {
        None
    } else if fields[0].0@ == key {
        Some(fields[0].1)
    } else {
        spec_field(fields.drop_first(), key)
    }
}

/// Each element as an unsigned integer, when it is one.
pub open spec fn spec_numbers(items: Seq<JsonValue>) -> Seq<Option<u64>> {
    Seq::new(
        items.len(),
        |i: int|
            match items[i] {
                JsonValue::Number(n) => n,
                _ => None,
            },
    )
}

/// Looks up the first field named `key`.
pub fn field<'a>(fields: &'a Vec<(String, JsonValue)>, key: &str) -> (r: Option<&'a JsonValue>)
    ensures
        match spec_field(fields@, key@) {
            Some(v) => r matches Some(x) && *x == v,
            None => r is None,
        },
{
    let mut i: usize = 0;
    assert(fields@.skip(0) =~= fields@);
    while i < fields.len()
        invariant
            i <= fields@.len(),
            spec_field(fields@, key@) == spec_field(fields@.skip(i as int), key@),
        decreases fields.len() - i,
    {
        assert(fields@.skip(i as int)[0] == fields@[i as int]);
        if str_eq(fields[i].0.as_str(), key) {
            return Some(&fields[i].1);
        }
        assert(fields@.skip(i as int).drop_first() =~= fields@.skip(i + 1));
        i = i + 1;
    }
    None
}

/// Reads each element as an unsigned integer, when it is one.
pub fn numbers(items: &Vec<JsonValue>) -> (r: Vec<Option<u64>>)
    ensures
        r@ == spec_numbers(items@),
{
    let mut r: Vec<Option<u64>> = Vec::new();
    let mut i: usize = 0;
    while i < items.len()
        invariant
            i <= items@.len(),
            r@ == spec_numbers(items@.take(i as int)),
        decreases items.len() - i,
    {
        let n = match &items[i] {
            JsonValue::Number(n) => *n,
            _ => None,
        };
        r.push(n);
        i = i + 1;
        assert(r@ =~= spec_numbers(items@.take(i as int)));
    }
    assert(items@.take(i as int) =~= items@);
    r
}

/// What a proof file holding the JSON value `v` offers: for an array, its
/// elements as numbers; for an object, its "proof" field when that is a string
/// and its "proof_bytes" field when there is one (with its elements as numbers
/// when it is an array); nothing for any other value.
pub fn document_of(v: &JsonValue) -> (d: ProofDocument)
    ensures
        match *v {
            JsonValue::Array(items) => d matches ProofDocument::Array(ns) && ns@ == spec_numbers(
                items@,
            ),
            JsonValue::Object(fields) => d matches ProofDocument::Object { proof, proof_bytes } && (
            match spec_field(fields@, "proof"@) {
                Some(JsonValue::Str(s)) => proof matches Some(p) && p@ == s@,
                _ => proof is None,
            }) && (match spec_field(fields@, "proof_bytes"@) {
                None => proof_bytes is None,
                Some(JsonValue::Array(items)) => proof_bytes matches Some(Some(ns)) && ns@
                    == spec_numbers(items@),
                Some(_) => proof_bytes matches Some(None),
            }),
            _ => d is Other,
        },
{
    match v {
        JsonValue::Array(items) => ProofDocument::Array(numbers(items)),
        JsonValue::Object(fields) => {
            let proof = match field(fields, "proof") {
                Some(JsonValue::Str(s)) => Some(s.as_str().to_owned()),
                _ => None,
            };
            let proof_bytes = match field(fields, "proof_bytes") {
                None => None,
                Some(JsonValue::Array(items)) => Some(Some(numbers(items))),
                Some(_) => Some(None),
            };
            ProofDocument::Object { proof, proof_bytes }
        },
        _ => ProofDocument::Other,
    }
}

/// The proof bytes a proof file holding the JSON value `v` gives (its contents
/// being `raw`): the numbers of a top-level array, else the hex text of an
/// object's "proof" string, else the numbers of its "proof_bytes" field (none
/// when that is not an array), else the file itself; `None` when the hex text
/// does not decode.
pub open spec fn spec_json_proof(v: JsonValue, raw: Seq<u8>) -> Option<Seq<u8>> {
    match v {
        JsonValue::Array(items) => Some(spec_number_bytes(spec_numbers(items@))),
        JsonValue::Object(fields) => match spec_field(fields@, "proof"@) {
            Some(JsonValue::Str(s)) => spec_hex_decode(encode_utf8(spec_strip_0x(s@))),
            _ => match spec_field(fields@, "proof_bytes"@) {
                Some(JsonValue::Array(items)) => Some(spec_number_bytes(spec_numbers(items@))),
                Some(_) => Some(Seq::empty()),
                None => Some(raw),
            },
        },
        _ => Some(raw),
    }
}

/// The proof bytes of a proof file whose contents are `raw`: for a JSON file,
/// what its JSON value holds (an error when it is not JSON, or when its hex
/// text does not decode); for any other file, the file itself.
pub fn read_proof_source(raw: Vec<u8>, is_json: bool) -> (r: Result<Vec<u8>, String>)
    ensures
        !is_json ==> (r matches Ok(b) && b@ == raw@),
        is_json ==> match json_value(raw@) {
            None => r is Err,
            Some(v) => match spec_json_proof(v, raw@) {
                Some(b) => r matches Ok(x) && x@ == b,
                None => r matches Err(e) && e@.len() >= 19 && e@.take(19)
                    == "invalid hex proof: "@,
            },
        },
{
    if !is_json {
        return Ok(raw);
    }
    match parse_json(raw.as_slice()) {
        Err(e) => Err(e),
        Ok(v) => {
            let doc = document_of(&v);
            read_proof_bytes(raw, Some(doc))
        },
    }
}

} // verus!
