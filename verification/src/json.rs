//! A decoded JSON document, held as plain values, and the trusted bridge to
//! the `serde_json` decoder that produces it.

use vstd::prelude::*;

verus! {

/// A JSON document as plain values: numbers as the decimal text
/// `serde_json` renders them with, objects as key/value lists in the order
/// the decoder's map iterates them (sorted, with unique keys).
pub enum JsonValue {
    Null,
    Bool(bool),
    Num(String),
    Str(String),
    Arr(Vec<JsonValue>),
    Obj(Vec<(String, JsonValue)>),
}

/// Declares `serde_json::Value`, the decoder's document value, so that it
/// can be carried opaquely from `decode_json` to `to_json_value`.
#[verifier::external_type_specification]
#[verifier::external_body]
pub struct ExValue(serde_json::Value);

/// What a `serde_json::Value` holds, as plain values. The tree behind a
/// `serde_json::Value` determines this rendering: numbers go through the
/// decimal `Display` of `serde_json::Number`, objects through the sorted
/// iteration of `serde_json::Map`.
pub uninterp spec fn json_model(v: serde_json::Value) -> JsonValue;

/// What decoding a text as JSON yields: `Some` of the modelled document when
/// the text is valid JSON, `None` otherwise. `serde_json::from_str` computes
/// this from the text alone.
pub uninterp spec fn json_decoded(s: Seq<char>) -> Option<JsonValue>;

/// Relies on `serde_json::from_str::<serde_json::Value>`: decodes a text as
/// one JSON document, succeeding exactly on valid JSON.
#[verifier::external_body]
pub(crate) fn decode_json(s: &str) -> (r: Result<serde_json::Value, String>)
    ensures
        match r {
            Ok(v) => json_decoded(s@) == Some(json_model(v)),
            Err(_) => json_decoded(s@) is None,
        },
{
    serde_json::from_str::<serde_json::Value>(s).map_err(|e| e.to_string())
}

/// Relies on the variants of `serde_json::Value` and the `Display` of
/// `serde_json::Number`: renders the decoded document as plain values,
/// one variant at a time.
#[verifier::external_body]
pub(crate) fn to_json_value(v: serde_json::Value) -> (r: JsonValue)
    ensures
        r == json_model(v),
{
    match v {
        serde_json::Value::Null => JsonValue::Null,
        serde_json::Value::Bool(b) => JsonValue::Bool(b),
        serde_json::Value::Number(n) => JsonValue::Num(n.to_string()),
        serde_json::Value::String(s) => JsonValue::Str(s),
        serde_json::Value::Array(a) => JsonValue::Arr(a.into_iter().map(to_json_value).collect()),
        serde_json::Value::Object(m) => JsonValue::Obj(
            m.into_iter().map(|(k, x)| (k, to_json_value(x))).collect(),
        ),
    }
}

/// The value under `key` in an object's field list: the first binding whose
/// key reads as `key`.
pub open spec fn spec_lookup(fields: Seq<(String, JsonValue)>, key: Seq<char>) -> Option<
    JsonValue,
>
    decreases fields.len(),
{
    if fields.len() == 0 {
        None
    } else if fields[0].0@ == key {
        Some(fields[0].1)
    } else {
        spec_lookup(fields.skip(1), key)
    }
}

/// The value under `key` when `j` is an object that binds `key`; `None`
/// when `j` is no object or lacks the key.
pub open spec fn spec_get(j: JsonValue, key: Seq<char>) -> Option<JsonValue> {
    match j {
        JsonValue::Obj(fields) => spec_lookup(fields@, key),
        _ => None,
    }
}

proof fn lemma_lookup_step(fields: Seq<(String, JsonValue)>, key: Seq<char>, k: int)
    requires
        0 <= k < fields.len(),
        forall|j: int| 0 <= j < k ==> fields[j].0@ != key,
    ensures
        spec_lookup(fields, key) == spec_lookup(fields.skip(k), key),
    decreases k,
{
    if k > 0 {
        lemma_lookup_step(fields, key, k - 1);
        assert(fields.skip(k - 1).skip(1) =~= fields.skip(k));
        assert(fields.skip(k - 1)[0] == fields[k - 1]);
    } else {
        assert(fields.skip(0) =~= fields);
    }
}

proof fn lemma_lookup_none(fields: Seq<(String, JsonValue)>, key: Seq<char>)
    requires
        forall|j: int| 0 <= j < fields.len() ==> fields[j].0@ != key,
    ensures
        spec_lookup(fields, key) is None,
    decreases fields.len(),
{
    if fields.len() > 0 {
        assert(forall|j: int|
            0 <= j < fields.skip(1).len() ==> fields.skip(1)[j] == fields[j + 1]);
        lemma_lookup_none(fields.skip(1), key);
    }
}

impl JsonValue {
    /// Looks a key up in an object, as `spec_get` reads it.
    pub fn get<'a>(&'a self, key: &str) -> (r: Option<&'a JsonValue>)
        ensures
            match r {
                Some(v) => spec_get(*self, key@) == Some(*v),
                None => spec_get(*self, key@) is None,
            },
    {
        match self {
            JsonValue::Obj(fields) => {
                let ks: String = key.to_owned();
                let n = fields.len();
                for k in 0..n
                    invariant
                        *self == JsonValue::Obj(*fields),
                        ks@ == key@,
                        n == fields@.len(),
                        forall|j: int| 0 <= j < k ==> fields@[j].0@ != key@,
                {
                    if fields[k].0.eq(&ks) {
                        proof {
                            lemma_lookup_step(fields@, key@, k as int);
                            assert(fields@.skip(k as int)[0] == fields@[k as int]);
                            assert(spec_lookup(fields@.skip(k as int), key@) == Some(
                                fields@[k as int].1,
                            ));
                        }
                        return Some(&fields[k].1);
                    }
                }
                proof {
                    lemma_lookup_none(fields@, key@);
                }
                None
            },
            _ => None,
        }
    }
}

} // verus!
