//! Canonical forms of JSON values: sorted keys, no volatile keys.

use crate::json::{
    json_get_array, json_views, keys_sorted, lemma_array_view, lemma_object_view, Json, JsonView,
};
use crate::ordered::{
    entry_views, lemma_ascending_lookup, lemma_listing, lemma_listing_of_list, lemma_to_map,
    listing, to_map, OrderedMap,
};
use crate::text::str_equal;
use vstd::prelude::*;

verus! {

/// Keys whose values differ from run to run.
pub open spec fn is_volatile(key: Seq<char>) -> bool {
    key == "timestamp"@ || key == "sequenceId"@
}

/// A value without its volatile keys, at any depth.
pub open spec fn stripped(json: JsonView) -> JsonView
    decreases json,
{
    match json {
        JsonView::Array(items) => JsonView::Array(stripped_items(items)),
        JsonView::Object(fields) => JsonView::Object(stripped_fields(fields)),
        _ => json,
    }
}

/// Each item stripped.
pub open spec fn stripped_items(items: Seq<JsonView>) -> Seq<JsonView>
    decreases items,
{
    if items.len() == 0 {
        Seq::empty()
    } else {
        stripped_items(items.subrange(0, items.len() - 1)).push(stripped(items[items.len() - 1]))
    }
}

/// The fields that are not volatile, their values stripped.
pub open spec fn stripped_fields(fields: Seq<(Seq<char>, JsonView)>) -> Seq<(Seq<char>, JsonView)>
    decreases fields,
{
    if fields.len() == 0 {
        Seq::empty()
    } else {
        let rest = stripped_fields(fields.subrange(0, fields.len() - 1));
        let last = fields[fields.len() - 1];
        if is_volatile(last.0) {
            rest
        } else {
            rest.push((last.0, stripped(last.1)))
        }
    }
}

/// A value whose objects, at any depth, list their keys in ascending order.
pub open spec fn sorted(json: JsonView) -> JsonView
    decreases json,
{
    match json {
        JsonView::Array(items) => JsonView::Array(sorted_items(items)),
        JsonView::Object(fields) => JsonView::Object(
            listing::<String, JsonView>(to_map(sorted_fields(fields))),
        ),
        _ => json,
    }
}

/// Each item sorted.
pub open spec fn sorted_items(items: Seq<JsonView>) -> Seq<JsonView>
    decreases items,
{
    if items.len() == 0 {
        Seq::empty()
    } else {
        sorted_items(items.subrange(0, items.len() - 1)).push(sorted(items[items.len() - 1]))
    }
}

/// Each field with its value sorted.
pub open spec fn sorted_fields(fields: Seq<(Seq<char>, JsonView)>) -> Seq<(Seq<char>, JsonView)>
    decreases fields,
{
    if fields.len() == 0 {
        Seq::empty()
    } else {
        let last = fields[fields.len() - 1];
        sorted_fields(fields.subrange(0, fields.len() - 1)).push((last.0, sorted(last.1)))
    }
}

/// Sorts the keys of every object, at any depth.
pub fn sort_json_keys(value: Json) -> (r: Json)
    ensures
        r@ == sorted(value@),
    decreases value@,
{
    broadcast use {lemma_array_view, lemma_object_view};

    let ghost model = value@;
    match value {
        Json::Array(items) => {
            let ghost models = model->Array_0;
            let mut out: Vec<Json> = Vec::new();
            for item in it: items
                invariant
                    model == value@,
                    model is Array,
                    models == model->Array_0,
                    it.seq() == items@,
                    models == json_views(items@),
                    json_views(out@) == sorted_items(models.subrange(0, it.index())),
            {
                let ghost i = it.index();
                proof {
                    assert(item@ == models[i]);
                    assert(decreases_to!(model => models));
                    assert(models.subrange(0, i + 1).subrange(0, i) =~= models.subrange(0, i));
                }
                let ghost before = out@;
                out.push(sort_json_keys(item));
                assert(json_views(out@) =~= json_views(before).push(sorted(models[i])));
            }
            assert(models.subrange(0, models.len() as int) =~= models);
            Json::Array(out)
        },
        Json::Object(fields) => {
            let ghost models = model->Object_0;
            let mut map: OrderedMap<String, Json> = OrderedMap::new();
            for field in it: fields
                invariant
                    model == value@,
                    model is Object,
                    models == model->Object_0,
                    it.seq() == fields@,
                    models == entry_views(fields@),
                    map.wf(),
                    map@ == to_map(sorted_fields(models.subrange(0, it.index()))),
            {
                let ghost i = it.index();
                let (key, inner) = field;
                proof {
                    let m = models[i];
                    assert(m == (key@, inner@));
                    assert(decreases_to!(model => models));
                    assert(decreases_to!(models => m));
                    assert(decreases_to!(m => m.1));
                    assert(models.subrange(0, i + 1).subrange(0, i) =~= models.subrange(0, i));
                    let s = sorted_fields(models.subrange(0, i));
                    let t = sorted_fields(models.subrange(0, i + 1));
                    assert(t.drop_last() =~= s);
                    assert(t.last() == (m.0, sorted(m.1)));
                }
                map.insert(key, sort_json_keys(inner));
            }
            assert(models.subrange(0, models.len() as int) =~= models);
            Json::Object(map.into_entries())
        },
        other => other,
    }
}

/// Removes the volatile keys of every object, at any depth.
pub fn strip_volatile_keys(value: Json) -> (r: Json)
    ensures
        r@ == stripped(value@),
    decreases value@,
{
    broadcast use {lemma_array_view, lemma_object_view};

    let ghost model = value@;
    match value {
        Json::Array(items) => {
            let ghost models = model->Array_0;
            let mut out: Vec<Json> = Vec::new();
            for item in it: items
                invariant
                    model == value@,
                    model is Array,
                    models == model->Array_0,
                    it.seq() == items@,
                    models == json_views(items@),
                    json_views(out@) == stripped_items(models.subrange(0, it.index())),
            {
                let ghost i = it.index();
                proof {
                    assert(item@ == models[i]);
                    assert(decreases_to!(model => models));
                    assert(models.subrange(0, i + 1).subrange(0, i) =~= models.subrange(0, i));
                }
                let ghost before = out@;
                out.push(strip_volatile_keys(item));
                assert(json_views(out@) =~= json_views(before).push(stripped(models[i])));
            }
            assert(models.subrange(0, models.len() as int) =~= models);
            Json::Array(out)
        },
        Json::Object(fields) => {
            let ghost models = model->Object_0;
            let mut out: Vec<(String, Json)> = Vec::new();
            for field in it: fields
                invariant
                    model == value@,
                    model is Object,
                    models == model->Object_0,
                    it.seq() == fields@,
                    models == entry_views(fields@),
                    entry_views(out@) == stripped_fields(models.subrange(0, it.index())),
            {
                let ghost i = it.index();
                let (key, inner) = field;
                proof {
                    let m = models[i];
                    assert(m == (key@, inner@));
                    assert(decreases_to!(model => models));
                    assert(decreases_to!(models => m));
                    assert(decreases_to!(m => m.1));
                    assert(models.subrange(0, i + 1).subrange(0, i) =~= models.subrange(0, i));
                }
                let ghost before = out@;
                if !str_equal(key.as_str(), "timestamp") && !str_equal(key.as_str(), "sequenceId") {
                    out.push((key, strip_volatile_keys(inner)));
                    assert(entry_views(out@) =~= entry_views(before).push(
                        (models[i].0, stripped(models[i].1)),
                    ));
                }
            }
            assert(models.subrange(0, models.len() as int) =~= models);
            Json::Object(out)
        },
        other => other,
    }
}

/// An object whose `results` is an empty array: a re-evaluation that found no rows.
pub open spec fn empty_results_heartbeat(json: JsonView) -> bool {
    json_get_array(json, "results"@) matches Some(items) && items.len() == 0
}

/// Whether a value is a re-evaluation that found no rows.
pub fn is_empty_results_heartbeat(value: &Json) -> (r: bool)
    ensures
        r == empty_results_heartbeat(value@),
{
    match value.get_array("results") {
        Some(items) => items.len() == 0,
        None => false,
    }
}

pub proof fn lemma_sorted_items(items: Seq<JsonView>)
    ensures
        sorted_items(items).len() == items.len(),
        forall|i: int| 0 <= i < items.len() ==> #[trigger] sorted_items(items)[i] == sorted(items[i]),
    decreases items.len(),
{
    if items.len() > 0 {
        let rest = items.subrange(0, items.len() - 1);
        lemma_sorted_items(rest);
        assert forall|i: int| 0 <= i < items.len() implies #[trigger] sorted_items(items)[i] == sorted(
            items[i],
        ) by {
            if i < rest.len() {
                assert(rest[i] == items[i]);
                assert(sorted_items(rest)[i] == sorted(rest[i]));
            }
        }
    }
}

pub proof fn lemma_sorted_fields(fields: Seq<(Seq<char>, JsonView)>)
    ensures
        sorted_fields(fields).len() == fields.len(),
        forall|i: int|
            0 <= i < fields.len() ==> #[trigger] sorted_fields(fields)[i] == (
                fields[i].0,
                sorted(fields[i].1),
            ),
    decreases fields.len(),
{
    if fields.len() > 0 {
        let rest = fields.subrange(0, fields.len() - 1);
        lemma_sorted_fields(rest);
        assert forall|i: int| 0 <= i < fields.len() implies #[trigger] sorted_fields(fields)[i] == (
            fields[i].0,
            sorted(fields[i].1),
        ) by {
            if i < rest.len() {
                assert(rest[i] == fields[i]);
                assert(sorted_fields(rest)[i] == (rest[i].0, sorted(rest[i].1)));
            }
        }
    }
}

/// Sorting a value sorts the keys of every object in it.
pub proof fn lemma_sorting_sorts(json: JsonView)
    ensures
        keys_sorted(sorted(json)),
    decreases json,
{
    match json {
        JsonView::Array(items) => {
            lemma_sorted_items(items);
            let out = sorted_items(items);
            assert forall|i: int| 0 <= i < out.len() implies keys_sorted(#[trigger] out[i]) by {
                lemma_sorting_sorts(items[i]);
            }
        },
        JsonView::Object(fields) => {
            lemma_sorted_fields(fields);
            let s = sorted_fields(fields);
            lemma_listing_of_list::<String, JsonView>(s);
            let out = listing::<String, JsonView>(to_map(s));
            assert forall|i: int| 0 <= i < out.len() implies keys_sorted((#[trigger] out[i]).1) by {
                lemma_ascending_lookup::<String, JsonView>(out, i);
                lemma_to_map(s);
                let k = out[i].0;
                assert(to_map(s).contains_key(k));
                let j = choose|j: int|
                    0 <= j < s.len() && (#[trigger] s[j]).0 == k && to_map(s)[k] == s[j].1;
                assert(s[j] == (fields[j].0, sorted(fields[j].1)));
                assert(decreases_to!(json => fields));
                assert(decreases_to!(fields => fields[j]));
                assert(decreases_to!(fields[j] => fields[j].1));
                lemma_sorting_sorts(fields[j].1);
            }
        },
        _ => {},
    }
}

/// Sorting changes nothing where every key is sorted already; so sorting twice is sorting
/// once.
pub proof fn lemma_sorting_is_idempotent(json: JsonView)
    ensures
        keys_sorted(json) ==> sorted(json) == json,
        sorted(sorted(json)) == sorted(json),
{
    if keys_sorted(json) {
        lemma_sorted_unchanged(json);
    }
    lemma_sorting_sorts(json);
    lemma_sorted_unchanged(sorted(json));
}

proof fn lemma_sorted_unchanged(json: JsonView)
    requires
        keys_sorted(json),
    ensures
        sorted(json) == json,
    decreases json,
{
    match json {
        JsonView::Array(items) => {
            lemma_sorted_items(items);
            assert forall|i: int| 0 <= i < items.len() implies sorted_items(items)[i]
                == #[trigger] items[i] by {
                lemma_sorted_unchanged(items[i]);
            }
            assert(sorted_items(items) =~= items);
        },
        JsonView::Object(fields) => {
            lemma_sorted_fields(fields);
            assert forall|i: int| 0 <= i < fields.len() implies sorted_fields(fields)[i]
                == #[trigger] fields[i] by {
                assert(decreases_to!(json => fields));
                assert(decreases_to!(fields => fields[i]));
                assert(decreases_to!(fields[i] => fields[i].1));
                lemma_sorted_unchanged(fields[i].1);
                assert(sorted_fields(fields)[i] == (fields[i].0, sorted(fields[i].1)));
            }
            assert(sorted_fields(fields) =~= fields);
            lemma_listing::<String, JsonView>(fields, to_map(fields));
        },
        _ => {},
    }
}

/// Some field has the key.
pub open spec fn has_key(fields: Seq<(Seq<char>, JsonView)>, key: Seq<char>) -> bool {
    exists|i: int| 0 <= i < fields.len() && (#[trigger] fields[i]).0 == key
}

/// Two values that differ at most in the order of their objects' fields: the same scalars,
/// arrays that agree item by item, objects with the same keys whose fields agree.
pub open spec fn same_value(a: JsonView, b: JsonView) -> bool
    decreases a,
{
    match (a, b) {
        (JsonView::Array(s), JsonView::Array(t)) => {
            &&& s.len() == t.len()
            &&& forall|i: int| 0 <= i < s.len() ==> same_value(#[trigger] s[i], t[i])
        },
        (JsonView::Object(s), JsonView::Object(t)) => {
            &&& forall|k: Seq<char>| #[trigger] has_key(s, k) == has_key(t, k)
            &&& forall|i: int, j: int|
                0 <= i < s.len() && 0 <= j < t.len() && s[i].0 == t[j].0 ==> same_value(
                    (#[trigger] s[i]).1,
                    (#[trigger] t[j]).1,
                )
        },
        _ => a == b,
    }
}

/// Values that differ only in the order of fields have the same sorted form.
pub proof fn lemma_sorting_forgets_field_order(a: JsonView, b: JsonView)
    requires
        same_value(a, b),
    ensures
        sorted(a) == sorted(b),
    decreases a,
{
    match (a, b) {
        (JsonView::Array(s), JsonView::Array(t)) => {
            lemma_sorted_items(s);
            lemma_sorted_items(t);
            assert forall|i: int| 0 <= i < s.len() implies #[trigger] sorted_items(s)[i]
                == sorted_items(t)[i] by {
                assert(same_value(s[i], t[i]));
                lemma_sorting_forgets_field_order(s[i], t[i]);
            }
            assert(sorted_items(s) =~= sorted_items(t));
        },
        (JsonView::Object(s), JsonView::Object(t)) => {
            lemma_sorted_fields(s);
            lemma_sorted_fields(t);
            let ss = sorted_fields(s);
            let tt = sorted_fields(t);
            lemma_to_map(ss);
            lemma_to_map(tt);
            assert forall|k: Seq<char>| to_map(ss).contains_key(k) implies to_map(tt).contains_key(k)
                && to_map(ss)[k] == to_map(tt)[k] by {
                let i = choose|i: int|
                    0 <= i < ss.len() && (#[trigger] ss[i]).0 == k && to_map(ss)[k] == ss[i].1;
                assert(s[i].0 == k);
                assert(has_key(s, k));
                let j0 = choose|j: int| 0 <= j < t.len() && (#[trigger] t[j]).0 == k;
                assert(tt[j0].0 == k);
                assert(to_map(tt).contains_key(tt[j0].0));
                let j = choose|j: int|
                    0 <= j < tt.len() && (#[trigger] tt[j]).0 == k && to_map(tt)[k] == tt[j].1;
                assert(t[j].0 == k);
                assert(same_value(s[i].1, t[j].1));
                assert(decreases_to!(a => s));
                assert(decreases_to!(s => s[i]));
                assert(decreases_to!(s[i] => s[i].1));
                lemma_sorting_forgets_field_order(s[i].1, t[j].1);
            }
            assert forall|k: Seq<char>| to_map(tt).contains_key(k) implies to_map(ss).contains_key(k) by {
                let j = choose|j: int| 0 <= j < tt.len() && (#[trigger] tt[j]).0 == k;
                assert(t[j].0 == k);
                assert(has_key(t, k));
                assert(has_key(s, k));
                let i = choose|i: int| 0 <= i < s.len() && (#[trigger] s[i]).0 == k;
                assert(ss[i].0 == k);
                assert(to_map(ss).contains_key(ss[i].0));
            }
            assert(to_map(ss) =~= to_map(tt));
        },
        _ => {},
    }
}

/// No object, at any depth, has a volatile key.
pub open spec fn free_of_volatile_keys(json: JsonView) -> bool
    decreases json,
{
    match json {
        JsonView::Array(items) => forall|i: int|
            0 <= i < items.len() ==> free_of_volatile_keys(#[trigger] items[i]),
        JsonView::Object(fields) => forall|i: int|
            0 <= i < fields.len() ==> !is_volatile((#[trigger] fields[i]).0) && free_of_volatile_keys(
                fields[i].1,
            ),
        _ => true,
    }
}

/// Stripping keeps the number of items.
pub proof fn lemma_stripped_items_len(items: Seq<JsonView>)
    ensures
        stripped_items(items).len() == items.len(),
{
    lemma_stripped_items_free(items);
}

proof fn lemma_stripped_items_free(items: Seq<JsonView>)
    ensures
        stripped_items(items).len() == items.len(),
        forall|i: int|
            0 <= i < items.len() ==> free_of_volatile_keys(#[trigger] stripped_items(items)[i]),
        (forall|i: int| 0 <= i < items.len() ==> free_of_volatile_keys(#[trigger] items[i]))
            ==> stripped_items(items) == items,
    decreases items,
{
    if items.len() > 0 {
        let rest = items.subrange(0, items.len() - 1);
        let last = items[items.len() - 1];
        lemma_stripped_items_free(rest);
        lemma_stripping_strips(last);
        if forall|i: int| 0 <= i < items.len() ==> free_of_volatile_keys(#[trigger] items[i]) {
            assert forall|i: int| 0 <= i < rest.len() implies free_of_volatile_keys(
                #[trigger] rest[i],
            ) by {
                assert(rest[i] == items[i]);
            }
            assert(stripped_items(items) =~= items);
        }
    } else {
        assert(stripped_items(items) =~= items);
    }
}

proof fn lemma_stripped_fields_free(fields: Seq<(Seq<char>, JsonView)>)
    ensures
        forall|i: int|
            0 <= i < stripped_fields(fields).len() ==> !is_volatile(
                (#[trigger] stripped_fields(fields)[i]).0,
            ) && free_of_volatile_keys(stripped_fields(fields)[i].1),
        (forall|i: int|
            0 <= i < fields.len() ==> !is_volatile((#[trigger] fields[i]).0) && free_of_volatile_keys(
                fields[i].1,
            )) ==> stripped_fields(fields) == fields,
    decreases fields,
{
    if fields.len() > 0 {
        let rest = fields.subrange(0, fields.len() - 1);
        let last = fields[fields.len() - 1];
        lemma_stripped_fields_free(rest);
        assert(decreases_to!(fields => last));
        assert(decreases_to!(last => last.1));
        lemma_stripping_strips(last.1);
        let before = stripped_fields(rest);
        let out = stripped_fields(fields);
        assert forall|i: int| 0 <= i < out.len() implies !is_volatile((#[trigger] out[i]).0)
            && free_of_volatile_keys(out[i].1) by {
            if i < before.len() {
                assert(out[i] == before[i]);
            }
        }
        if forall|i: int|
            0 <= i < fields.len() ==> !is_volatile((#[trigger] fields[i]).0) && free_of_volatile_keys(
                fields[i].1,
            ) {
            assert forall|i: int| 0 <= i < rest.len() implies !is_volatile((#[trigger] rest[i]).0)
                && free_of_volatile_keys(rest[i].1) by {
                assert(rest[i] == fields[i]);
            }
            assert(stripped_fields(fields) =~= fields);
        }
    } else {
        assert(stripped_fields(fields) =~= fields);
    }
}

/// Stripping leaves no volatile key, and changes nothing where there is none.
pub proof fn lemma_stripping_strips(json: JsonView)
    ensures
        free_of_volatile_keys(stripped(json)),
        free_of_volatile_keys(json) ==> stripped(json) == json,
    decreases json,
{
    match json {
        JsonView::Array(items) => {
            lemma_stripped_items_free(items);
            let out = stripped_items(items);
            assert forall|i: int| 0 <= i < out.len() implies free_of_volatile_keys(
                #[trigger] out[i],
            ) by {}
        },
        JsonView::Object(fields) => {
            lemma_stripped_fields_free(fields);
            let out = stripped_fields(fields);
            assert forall|i: int| 0 <= i < out.len() implies !is_volatile((#[trigger] out[i]).0)
                && free_of_volatile_keys(out[i].1) by {}
        },
        _ => {
            assert(free_of_volatile_keys(json));
        },
    }
}

/// Under a key that is not volatile, stripping keeps the field and strips its value.
pub proof fn lemma_stripped_lookup(fields: Seq<(Seq<char>, JsonView)>, key: Seq<char>)
    requires
        !is_volatile(key),
    ensures
        to_map(stripped_fields(fields)).contains_key(key) == to_map(fields).contains_key(key),
        to_map(fields).contains_key(key) ==> to_map(stripped_fields(fields))[key] == stripped(
            to_map(fields)[key],
        ),
    decreases fields.len(),
{
    if fields.len() > 0 {
        let rest = fields.subrange(0, fields.len() - 1);
        let last = fields[fields.len() - 1];
        assert(rest =~= fields.drop_last());
        lemma_stripped_lookup(rest, key);
        if !is_volatile(last.0) {
            assert(stripped_fields(fields).drop_last() =~= stripped_fields(rest));
        }
    }
}

/// Each stripped field comes from a field with the same key, and each field that is not
/// volatile has its stripped field.
proof fn lemma_stripped_fields_members(fields: Seq<(Seq<char>, JsonView)>)
    ensures
        forall|i: int|
            0 <= i < stripped_fields(fields).len() ==> exists|j: int|
                0 <= j < fields.len() && !is_volatile((#[trigger] fields[j]).0) && (
                #[trigger] stripped_fields(fields)[i]) == (fields[j].0, stripped(fields[j].1)),
        forall|j: int|
            0 <= j < fields.len() && !is_volatile((#[trigger] fields[j]).0) ==> stripped_fields(
                fields,
            ).contains((fields[j].0, stripped(fields[j].1))),
    decreases fields.len(),
{
    if fields.len() > 0 {
        let rest = fields.subrange(0, fields.len() - 1);
        let last = fields[fields.len() - 1];
        let before = stripped_fields(rest);
        let out = stripped_fields(fields);
        lemma_stripped_fields_members(rest);
        assert forall|i: int| 0 <= i < out.len() implies exists|j: int|
            0 <= j < fields.len() && !is_volatile((#[trigger] fields[j]).0) && (#[trigger] out[i])
                == (fields[j].0, stripped(fields[j].1)) by {
            if i < before.len() {
                assert(out[i] == before[i]);
                let j = choose|j: int|
                    0 <= j < rest.len() && !is_volatile((#[trigger] rest[j]).0) && before[i] == (
                        rest[j].0,
                        stripped(rest[j].1),
                    );
                assert(fields[j] == rest[j]);
            } else {
                assert(fields[fields.len() - 1] == last);
            }
        }
        assert forall|j: int|
            0 <= j < fields.len() && !is_volatile((#[trigger] fields[j]).0) implies out.contains(
            (fields[j].0, stripped(fields[j].1)),
        ) by {
            if j < rest.len() {
                assert(rest[j] == fields[j]);
                let f = (rest[j].0, stripped(rest[j].1));
                let i = choose|i: int| 0 <= i < before.len() && before[i] == f;
                assert(out[i] == f);
            } else {
                assert(out[out.len() - 1] == (last.0, stripped(last.1)));
            }
        }
    }
}

proof fn lemma_stripped_items(items: Seq<JsonView>)
    ensures
        stripped_items(items).len() == items.len(),
        forall|i: int| 0 <= i < items.len() ==> #[trigger] stripped_items(items)[i] == stripped(items[i]),
    decreases items.len(),
{
    if items.len() > 0 {
        let rest = items.subrange(0, items.len() - 1);
        lemma_stripped_items(rest);
        assert forall|i: int| 0 <= i < items.len() implies #[trigger] stripped_items(items)[i]
            == stripped(items[i]) by {
            if i < rest.len() {
                assert(rest[i] == items[i]);
                assert(stripped_items(rest)[i] == stripped(rest[i]));
            }
        }
    }
}

/// Stripping keeps values alike that differ only in the order of fields.
pub proof fn lemma_stripping_keeps_sameness(a: JsonView, b: JsonView)
    requires
        same_value(a, b),
    ensures
        same_value(stripped(a), stripped(b)),
    decreases a,
{
    match (a, b) {
        (JsonView::Array(s), JsonView::Array(t)) => {
            lemma_stripped_items(s);
            lemma_stripped_items(t);
            let ss = stripped_items(s);
            let tt = stripped_items(t);
            assert forall|i: int| 0 <= i < ss.len() implies same_value(#[trigger] ss[i], tt[i]) by {
                assert(same_value(s[i], t[i]));
                lemma_stripping_keeps_sameness(s[i], t[i]);
            }
            assert(same_value(JsonView::Array(ss), JsonView::Array(tt)));
        },
        (JsonView::Object(s), JsonView::Object(t)) => {
            let ss = stripped_fields(s);
            let tt = stripped_fields(t);
            lemma_stripped_fields_members(s);
            lemma_stripped_fields_members(t);
            lemma_stripped_keys(s);
            lemma_stripped_keys(t);
            assert forall|k: Seq<char>| #[trigger] has_key(ss, k) == has_key(tt, k) by {
                assert(has_key(s, k) == has_key(t, k));
            }
            assert forall|i: int, j: int|
                0 <= i < ss.len() && 0 <= j < tt.len() && ss[i].0 == tt[j].0 implies same_value(
                (#[trigger] ss[i]).1,
                (#[trigger] tt[j]).1,
            ) by {
                let x = choose|x: int|
                    0 <= x < s.len() && !is_volatile((#[trigger] s[x]).0) && ss[i] == (
                        s[x].0,
                        stripped(s[x].1),
                    );
                let y = choose|y: int|
                    0 <= y < t.len() && !is_volatile((#[trigger] t[y]).0) && tt[j] == (
                        t[y].0,
                        stripped(t[y].1),
                    );
                assert(s[x].0 == t[y].0);
                assert(same_value(s[x].1, t[y].1));
                assert(decreases_to!(a => s));
                assert(decreases_to!(s => s[x]));
                assert(decreases_to!(s[x] => s[x].1));
                lemma_stripping_keeps_sameness(s[x].1, t[y].1);
            }
            assert(same_value(JsonView::Object(ss), JsonView::Object(tt)));
        },
        _ => {},
    }
}

/// The keys of a stripped object are the keys that are not volatile.
proof fn lemma_stripped_keys(fields: Seq<(Seq<char>, JsonView)>)
    ensures
        forall|k: Seq<char>| #[trigger]
            has_key(stripped_fields(fields), k) == (has_key(fields, k) && !is_volatile(k)),
{
    lemma_stripped_fields_members(fields);
    let out = stripped_fields(fields);
    assert forall|k: Seq<char>| #[trigger] has_key(out, k) == (has_key(fields, k) && !is_volatile(k)) by {
        if has_key(out, k) {
            let i = choose|i: int| 0 <= i < out.len() && (#[trigger] out[i]).0 == k;
            let j = choose|j: int|
                0 <= j < fields.len() && !is_volatile((#[trigger] fields[j]).0) && out[i] == (
                    fields[j].0,
                    stripped(fields[j].1),
                );
            assert(fields[j].0 == k);
        }
        if has_key(fields, k) && !is_volatile(k) {
            let j = choose|j: int| 0 <= j < fields.len() && (#[trigger] fields[j]).0 == k;
            let f = (fields[j].0, stripped(fields[j].1));
            assert(out.contains(f));
            let i = choose|i: int| 0 <= i < out.len() && out[i] == f;
            assert(out[i].0 == k);
        }
    }
}

/// Values that differ only in the order of fields are both re-evaluations without rows, or
/// neither is.
pub proof fn lemma_heartbeats_forget_field_order(a: JsonView, b: JsonView)
    requires
        same_value(a, b),
    ensures
        empty_results_heartbeat(a) == empty_results_heartbeat(b),
{
    match (a, b) {
        (JsonView::Object(s), JsonView::Object(t)) => {
            let k = "results"@;
            lemma_to_map(s);
            lemma_to_map(t);
            assert(has_key(s, k) == has_key(t, k));
            if to_map(s).contains_key(k) {
                let i = choose|i: int|
                    0 <= i < s.len() && (#[trigger] s[i]).0 == k && to_map(s)[k] == s[i].1;
                assert(has_key(s, k));
                let j0 = choose|j: int| 0 <= j < t.len() && (#[trigger] t[j]).0 == k;
                assert(to_map(t).contains_key(t[j0].0));
                let j = choose|j: int|
                    0 <= j < t.len() && (#[trigger] t[j]).0 == k && to_map(t)[k] == t[j].1;
                assert(same_value(s[i].1, t[j].1));
            } else if to_map(t).contains_key(k) {
                let j = choose|j: int| 0 <= j < t.len() && (#[trigger] t[j]).0 == k;
                assert(has_key(t, k));
                let i = choose|i: int| 0 <= i < s.len() && (#[trigger] s[i]).0 == k;
                assert(to_map(s).contains_key(s[i].0));
            }
        },
        _ => {},
    }
}

} // verus!
