//! The JSON encoder that renders records, and what is taken on trust of it.
//!
//! A record is a JSON object. The object is built in a `serde_json::Map`
//! and encoded by `serde_json::to_vec`. Nothing in this module is proved:
//! each item states what the encoder's source shows.

use vstd::prelude::*;

verus! {

/// `serde_json::Value`: any JSON value. It is carried through as it is;
/// nothing is known of what it holds.
#[verifier::external_type_specification]
#[verifier::external_body]
pub struct ExJsonValue(serde_json::Value);

/// `serde_json::Error`: why the encoder gave up.
#[verifier::external_type_specification]
#[verifier::external_body]
pub struct ExJsonError(serde_json::Error);

/// `serde_json::Map`: the entries of a JSON object, one value per key.
#[verifier::external_type_specification]
#[verifier::external_body]
#[verifier::reject_recursive_types(K)]
#[verifier::reject_recursive_types(V)]
pub struct ExJsonMap<K, V>(serde_json::Map<K, V>);

/// The entries that a `serde_json::Map` holds: the value stored under each
/// key, keys taken as sequences of characters.
pub uninterp spec fn object_entries(
    object: serde_json::Map<String, serde_json::Value>,
) -> Map<Seq<char>, serde_json::Value>;

/// The entries of an object without fields.
pub open spec fn no_entries() -> Map<Seq<char>, serde_json::Value> {
    Map::empty()
}

/// The bytes that `serde_json::to_vec` gives for an object with the given
/// entries, or `None` where it fails.
pub uninterp spec fn object_text(entries: Map<Seq<char>, serde_json::Value>) -> Option<Seq<u8>>;

/// `Clone::clone` of `serde_json::Value`, which the value's type derives:
/// the copy is the same JSON value.
pub assume_specification[ <serde_json::Value as Clone>::clone ](
    value: &serde_json::Value,
) -> (r: serde_json::Value)
    ensures
        r == *value,
;

/// `serde_json::Map::new`: a map without entries.
#[verifier::external_body]
pub(crate) fn new_object() -> (r: serde_json::Map<String, serde_json::Value>)
    ensures
        object_entries(r) == no_entries(),
{
    serde_json::Map::new()
}

/// `serde_json::Map::insert`: stores `value` under `key`, in place of what
/// was stored there, and hands back what was.
#[verifier::external_body]
pub(crate) fn insert_entry(
    object: &mut serde_json::Map<String, serde_json::Value>,
    key: String,
    value: serde_json::Value,
) -> (r: Option<serde_json::Value>)
    ensures
        object_entries(*final(object)) == object_entries(*old(object)).insert(key@, value),
        r == if object_entries(*old(object)).contains_key(key@) {
            Some(object_entries(*old(object))[key@])
        } else {
            None
        },
{
    object.insert(key, value)
}

/// `serde_json::to_vec` on a map: the compact JSON text of the object. The
/// text depends on the entries alone, since the map walks its keys in
/// their order.
#[verifier::external_body]
pub(crate) fn encode_object(
    object: &serde_json::Map<String, serde_json::Value>,
) -> (r: Result<Vec<u8>, serde_json::Error>)
    ensures
        match r {
            Ok(bytes) => object_text(object_entries(*object)) == Some(bytes@),
            Err(_) => object_text(object_entries(*object)) is None,
        },
{
    serde_json::to_vec(object)
}

} // verus!
