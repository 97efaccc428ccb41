//! The JSON values and objects of `serde_json`, as far as the builders fill
//! them: what each holds is named here, and the calls that make and fill
//! them are given contracts over those names. Nothing in this file is
//! proved; it is what the builders' proofs rest on.

use vstd::prelude::*;

verus! {

/// `serde_json::Value`, carried through as it is.
#[verifier::external_type_specification]
#[verifier::external_body]
pub struct ExValue(serde_json::Value);

/// `serde_json::Map`, the object of JSON, carried through as it is.
#[verifier::external_type_specification]
#[verifier::external_body]
#[verifier::reject_recursive_types(K)]
#[verifier::reject_recursive_types(V)]
pub struct ExObject<K, V>(serde_json::Map<K, V>);

/// What a JSON value holds.
pub enum Json {
    /// `true` or `false`.
    Flag(bool),
    /// A string, by its characters.
    Text(Seq<char>),
    /// An object: for each key, by its characters, what the value under it
    /// holds.
    Object(Map<Seq<char>, Json>),
    /// Null, a number or an array, none of which a builder here makes or
    /// looks into: the value itself.
    Other(serde_json::Value),
}

/// What an object holds: its keys, each by its characters, and under each
/// key what its value holds.
pub type Fields = Map<Seq<char>, Json>;

/// What the value `value` holds.
pub uninterp spec fn json_of(value: serde_json::Value) -> Json;

/// What the object `object` holds.
pub uninterp spec fn fields_of(object: serde_json::Map<String, serde_json::Value>) -> Fields;

/// `serde_json::Map::new` makes an object without any key.
pub assume_specification[ serde_json::Map::<String, serde_json::Value>::new ]() -> (object:
    serde_json::Map<String, serde_json::Value>)
    ensures
        fields_of(object) == Fields::empty(),
;

/// `serde_json::Map::insert` puts `v` under the key `k`, in place of what
/// stood under a key of the same characters, and leaves every other key as
/// it was. It hands back the value that it replaced, if there was one.
pub assume_specification[ serde_json::Map::<String, serde_json::Value>::insert ](
    object: &mut serde_json::Map<String, serde_json::Value>,
    k: String,
    v: serde_json::Value,
) -> (replaced: Option<serde_json::Value>)
    ensures
        fields_of(*final(object)) == fields_of(*old(object)).insert(k@, json_of(v)),
        match replaced {
            Some(before) => fields_of(*old(object)).contains_key(k@) && json_of(before)
                == fields_of(*old(object))[k@],
            None => !fields_of(*old(object)).contains_key(k@),
        },
;

/// The JSON string with the characters of `text`: `serde_json::Value::String`.
#[verifier::external_body]
pub(crate) fn json_text(text: &str) -> (value: serde_json::Value)
    ensures
        json_of(value) == Json::Text(text@),
{
    serde_json::Value::String(text.to_owned())
}

/// The JSON boolean `flag`: `serde_json::Value::Bool`.
#[verifier::external_body]
pub(crate) fn json_flag(flag: bool) -> (value: serde_json::Value)
    ensures
        json_of(value) == Json::Flag(flag),
{
    serde_json::Value::Bool(flag)
}

/// The JSON value that is the object `object`: `serde_json::Value::Object`.
#[verifier::external_body]
pub(crate) fn json_object(
    object: serde_json::Map<String, serde_json::Value>,
) -> (value: serde_json::Value)
    ensures
        json_of(value) == Json::Object(fields_of(object)),
{
    serde_json::Value::Object(object)
}

} // verus!
