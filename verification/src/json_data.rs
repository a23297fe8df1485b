//! JSON objects whose members are strings, held by `serde_json`.
//!
//! Verus does not look into a `serde_json` value. What such a value holds has
//! a name here, and each call into `serde_json` states over that name what the
//! crate's source shows. None of these statements is proved.

use vstd::prelude::*;

verus! {

/// `serde_json::Value`: any JSON value.
#[verifier::external_type_specification]
#[verifier::external_body]
pub struct ExJsonValue(serde_json::Value);

/// `serde_json::Map`: the members of a JSON object.
#[verifier::external_type_specification]
#[verifier::external_body]
#[verifier::reject_recursive_types(K)]
#[verifier::reject_recursive_types(V)]
pub struct ExJsonMap<K, V>(serde_json::Map<K, V>);

/// The members of a JSON map, each key with the text of its value, where
/// every value in the map is a string. None where some value is not a string.
pub uninterp spec fn member_texts(members: serde_json::Map<String, serde_json::Value>) -> Option<
    Map<Seq<char>, Seq<char>>,
>;

/// The members of a JSON value, each key with the text of its value, where
/// the value is an object and every member of it is a string. None for any
/// other value.
pub uninterp spec fn object_texts(value: serde_json::Value) -> Option<Map<Seq<char>, Seq<char>>>;

/// `serde_json::Map::new`. Claimed: the new map has no members.
#[verifier::external_body]
pub(crate) fn new_members() -> (members: serde_json::Map<String, serde_json::Value>)
    ensures
        member_texts(members) == Some(Map::<Seq<char>, Seq<char>>::empty()),
{
    serde_json::Map::new()
}

/// `serde_json::Map::insert`, with a value made by `Value::from` of a string
/// slice. Claimed: in a map of strings the key now goes with the text, and
/// the other members are as before.
#[verifier::external_body]
pub(crate) fn insert_text(
    members: &mut serde_json::Map<String, serde_json::Value>,
    key: &str,
    text: &str,
)
    ensures
        member_texts(*old(members)) matches Some(before) ==> member_texts(*final(members)) == Some(
            before.insert(key@, text@),
        ),
{
    members.insert(key.to_owned(), serde_json::Value::from(text));
}

/// `Value::from` of a map. Claimed: the value is the object of the map's
/// members.
#[verifier::external_body]
pub(crate) fn object_of(members: serde_json::Map<String, serde_json::Value>) -> (value:
    serde_json::Value)
    ensures
        object_texts(value) == member_texts(members),
{
    serde_json::Value::from(members)
}

} // verus!
