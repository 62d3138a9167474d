//! The trusted boundary to the JSON renderer. The library fills a JSON
//! object map with string members through the wrappers here and has it
//! rendered compactly; the map's contents and its rendering get names that
//! the wrappers' contracts share.

use vstd::prelude::*;

verus! {

#[verifier::external_type_specification]
#[verifier::external_body]
pub struct ExJsonValue(serde_json::Value);

#[verifier::external_type_specification]
#[verifier::external_body]
#[verifier::reject_recursive_types(K)]
#[verifier::reject_recursive_types(V)]
pub struct ExJsonMap<K, V>(serde_json::Map<K, V>);

/// The string members a JSON object map holds, keyed by member name.
pub uninterp spec fn json_map_model(m: serde_json::Map<String, serde_json::Value>) -> Map<
    Seq<char>,
    Seq<char>,
>;

/// The compact JSON rendering of an object with the given string members:
/// what `serde_json::to_string` produces for a map that holds them.
pub uninterp spec fn json_object_of(entries: Map<Seq<char>, Seq<char>>) -> Seq<char>;

/// A JSON object map with string keys.
pub type JsonMap = serde_json::Map<String, serde_json::Value>;

/// No members at all.
pub open spec fn no_members() -> Map<Seq<char>, Seq<char>> {
    Map::empty()
}

/// Relies on `serde_json::Map::new`: a new map holds no members.
#[verifier::external_body]
pub(crate) fn json_map_new() -> (r: JsonMap)
    ensures
        json_map_model(r) == no_members(),
{
    serde_json::Map::new()
}

/// Relies on `serde_json::Map::insert`: inserting binds the key to the
/// value and overwrites an earlier binding of the same key.
#[verifier::external_body]
pub(crate) fn json_map_insert_str(m: &mut JsonMap, key: &str, value: &str)
    ensures
        json_map_model(*final(m)) == json_map_model(*old(m)).insert(key@, value@),
{
    m.insert(key.to_owned(), serde_json::Value::String(value.to_owned()));
}

/// Relies on `serde_json::to_string`: the compact rendering of a JSON object
/// map. The map is ordered by key, so the rendering is a function of the
/// members alone; rendering string members cannot fail.
#[verifier::external_body]
pub(crate) fn json_map_to_string(m: &JsonMap) -> (r: String)
    ensures
        r@ == json_object_of(json_map_model(*m)),
{
    match serde_json::to_string(m) {
        Ok(s) => s,
        Err(_) => String::new(),
    }
}

} // verus!
