//! What looking a field up in a value gives.

use crate::json::{json_get, json_get_array, json_get_str, json_str, json_u64, JsonView};
use crate::ordered::{lemma_listing_of_list, lemma_to_map, listing, to_map};
use vstd::prelude::*;

verus! {

/// A field of an object is found under its key, the last one where a key stands twice; any
/// other key finds nothing.
pub proof fn lemma_fields_are_found(fields: Seq<(Seq<char>, JsonView)>, key: Seq<char>)
    ensures
        json_get(JsonView::Object(fields), key) is Some <==> exists|i: int|
            0 <= i < fields.len() && (#[trigger] fields[i]).0 == key,
        forall|i: int|
            0 <= i < fields.len() && (#[trigger] fields[i]).0 == key && (forall|j: int|
                i < j < fields.len() ==> (#[trigger] fields[j]).0 != key) ==> json_get(
                JsonView::Object(fields),
                key,
            ) == Some(fields[i].1),
{
    lemma_to_map(fields);
    assert forall|i: int|
        0 <= i < fields.len() && (#[trigger] fields[i]).0 == key && (forall|j: int|
            i < j < fields.len() ==> (#[trigger] fields[j]).0 != key) implies json_get(
        JsonView::Object(fields),
        key,
    ) == Some(fields[i].1) by {
        let at = choose|k: int|
            0 <= k < fields.len() && (#[trigger] fields[k]).0 == key && to_map(fields)[key]
                == fields[k].1 && (forall|j: int|
                k < j < fields.len() ==> (#[trigger] fields[j]).0 != key);
        assert(at == i);
    }
}

/// Only objects have fields.
pub proof fn lemma_only_objects_have_fields(json: JsonView, key: Seq<char>)
    requires
        !(json is Object),
    ensures
        json_get(json, key) is None,
{
}

/// A text, a list or a number is found under a key exactly where the value there is one.
pub proof fn lemma_kinds_are_told_apart(json: JsonView, key: Seq<char>, text: Seq<char>, number: u64)
    ensures
        json_get_str(json, key) == Some(text) <==> json_get(json, key) == Some(
            JsonView::Text(text),
        ),
        json_get_str(json, key) is None <==> !(json_get(json, key) matches Some(
            JsonView::Text(_),
        )),
        forall|items: Seq<JsonView>| #[trigger]
            json_get_array(json, key) == Some(items) <==> json_get(json, key) == Some(
                JsonView::Array(items),
            ),
        json_str(json) == Some(text) <==> json == JsonView::Text(text),
        json_u64(json) == Some(number) <==> json == JsonView::Integer(number as int),
        json_u64(json) is None <==> !(json matches JsonView::Integer(n) && 0 <= n <= u64::MAX),
{
}

/// An object that lists a map finds under a key what the map holds there.
pub proof fn lemma_listed_fields(fields: Seq<(Seq<char>, JsonView)>, key: Seq<char>)
    ensures
        json_get(JsonView::Object(listing::<String, JsonView>(to_map(fields))), key) == json_get(
            JsonView::Object(fields),
            key,
        ),
{
    lemma_listing_of_list::<String, JsonView>(fields);
}

} // verus!
