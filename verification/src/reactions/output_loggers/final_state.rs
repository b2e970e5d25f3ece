//! The rows that remain after a stream of row changes.

use crate::common::{HandlerPayload, HandlerRecord};
use crate::hashing::{absorbed, is_hash_text, sha256_hex, sha256_hex_of, Sha256Stream};
use crate::json::{
    is_value, json_get, json_get_array, json_get_str, json_text, json_views, keys_sorted,
    lemma_array_view, lemma_object_view, number_text, text_tells, to_bytes, Json, JsonView,
};
use crate::ordered::{
    entry_views, lemma_ascending_lookup, lemma_listing_of_list, lemma_to_map, listing, to_map,
    OrderedMap,
};
use crate::reactions::output_loggers::canonical_json::{lemma_sorting_sorts, sort_json_keys, sorted};
use crate::text::{
    ascii_lower, bytes_copy, bytes_equal, chars_of, copy_texts, is_numeral, numeral_value,
    read_numeral, str_equal, texts, to_ascii_lowercase,
};
use vstd::prelude::*;
use vstd::string::*;
use vstd::utf8::*;

verus! {

/// The largest integer up to which every integer has a floating-point value of its own.
pub const MAX_SAFE_INTEGER: u64 = 9_007_199_254_740_991;

/// The integer that a printed floating-point number denotes, where it is one of at most
/// `MAX_SAFE_INTEGER` in magnitude: digits, after a sign or not, followed by `.0`.
pub open spec fn integral_value(text: Seq<char>) -> Option<int> {
    let negative = text.len() > 0 && text[0] == '-';
    let start: int = if negative {
        1
    } else {
        0
    };
    let end = text.len() - 2;
    if start < end && text[end] == '.' && text[end + 1] == '0' && is_numeral(
        text.subrange(start, end),
    ) && numeral_value(text.subrange(start, end)) <= MAX_SAFE_INTEGER {
        let magnitude = numeral_value(text.subrange(start, end)) as int;
        if negative {
            Some(-magnitude)
        } else {
            Some(magnitude)
        }
    } else {
        None
    }
}

/// A value in which every integral floating-point number within the safe range is an
/// integer.
pub open spec fn normalized(json: JsonView) -> JsonView
    decreases json,
{
    match json {
        JsonView::Float(n) => match integral_value(number_text(n)) {
            Some(i) => JsonView::Integer(i),
            None => json,
        },
        JsonView::Array(items) => JsonView::Array(normalized_items(items)),
        JsonView::Object(fields) => JsonView::Object(normalized_fields(fields)),
        _ => json,
    }
}

/// Each item normalized.
pub open spec fn normalized_items(items: Seq<JsonView>) -> Seq<JsonView>
    decreases items,
{
    if items.len() == 0 {
        Seq::empty()
    } else {
        normalized_items(items.subrange(0, items.len() - 1)).push(normalized(items[items.len() - 1]))
    }
}

/// Each field with its value normalized.
pub open spec fn normalized_fields(fields: Seq<(Seq<char>, JsonView)>) -> Seq<(Seq<char>, JsonView)>
    decreases fields,
{
    if fields.len() == 0 {
        Seq::empty()
    } else {
        let last = fields[fields.len() - 1];
        normalized_fields(fields.subrange(0, fields.len() - 1)).push((last.0, normalized(last.1)))
    }
}

/// The integer that a printed floating-point number denotes, where it is one within the
/// safe range.
pub fn integral_text_value(text: &str) -> (r: Option<i64>)
    ensures
        match r {
            Some(i) => integral_value(text@) == Some(i as int),
            None => integral_value(text@) is None,
        },
{
    let chars = chars_of(text);
    let negative = chars.len() > 0 && chars[0] == '-';
    let start: usize = if negative {
        1
    } else {
        0
    };
    if chars.len() < start + 3 {
        return None;
    }
    let end: usize = chars.len() - 2;
    if chars[end] != '.' || chars[end + 1] != '0' {
        return None;
    }
    match read_numeral(&chars, start, end) {
        Some(magnitude) => if magnitude > MAX_SAFE_INTEGER {
            None
        } else if negative {
            Some(-(magnitude as i64))
        } else {
            Some(magnitude as i64)
        },
        None => None,
    }
}

/// Turns integral floating-point numbers within the safe range into integers.
pub fn normalize_json_numbers(value: Json) -> (r: Json)
    ensures
        r@ == normalized(value@),
    decreases value@,
{
    broadcast use {lemma_array_view, lemma_object_view};

    let ghost model = value@;
    match value {
        Json::Float(number) => {
            match integral_text_value(number.text().as_str()) {
                Some(i) => if i >= 0 {
                    Json::Unsigned(i as u64)
                } else {
                    Json::Signed(i)
                },
                None => Json::Float(number),
            }
        },
        Json::Array(items) => {
            let ghost models = model->Array_0;
            let mut out: Vec<Json> = Vec::new();
            for item in it: items
                invariant
                    model == value@,
                    model is Array,
                    models == model->Array_0,
                    it.seq() == items@,
                    models == json_views(items@),
                    json_views(out@) == normalized_items(models.subrange(0, it.index())),
            {
                let ghost i = it.index();
                proof {
                    assert(item@ == models[i]);
                    assert(decreases_to!(model => models));
                    assert(models.subrange(0, i + 1).subrange(0, i) =~= models.subrange(0, i));
                }
                let ghost before = out@;
                out.push(normalize_json_numbers(item));
                assert(json_views(out@) =~= json_views(before).push(normalized(models[i])));
            }
            assert(models.subrange(0, models.len() as int) =~= models);
            Json::Array(out)
        },
        Json::Object(fields) => {
            let ghost models = model->Object_0;
            let mut out: Vec<(String, Json)> = Vec::new();
            for field in it: fields
                invariant
                    model == value@,
                    model is Object,
                    models == model->Object_0,
                    it.seq() == fields@,
                    models == entry_views(fields@),
                    entry_views(out@) == normalized_fields(models.subrange(0, it.index())),
            {
                let ghost i = it.index();
                let (key, inner) = field;
                proof {
                    let m = models[i];
                    assert(m == (key@, inner@));
                    assert(decreases_to!(model => models));
                    assert(decreases_to!(models => m));
                    assert(decreases_to!(m => m.1));
                    assert(models.subrange(0, i + 1).subrange(0, i) =~= models.subrange(0, i));
                }
                let ghost before = out@;
                out.push((key, normalize_json_numbers(inner)));
                assert(entry_views(out@) =~= entry_views(before).push(
                    (models[i].0, normalized(models[i].1)),
                ));
            }
            assert(models.subrange(0, models.len() as int) =~= models);
            Json::Object(out)
        },
        other => other,
    }
}

/// The canonical form of a row: integral numbers as integers, keys sorted.
pub open spec fn canonical_value(row: JsonView) -> JsonView {
    sorted(normalized(row))
}

/// The canonical form of a row and its compact text.
pub fn canonical_row(value: Json) -> (r: (Vec<u8>, Json))
    ensures
        r.1@ == canonical_value(value@),
        r.0@ == json_text(canonical_value(value@)),
        keys_sorted(r.1@),
        is_value(r.1@),
        text_tells(r.0@, r.1@),
{
    let ghost model = value@;
    let value = sort_json_keys(normalize_json_numbers(value));
    proof {
        lemma_sorting_sorts(normalized(model));
    }
    let bytes = to_bytes(&value);
    (bytes, value)
}

/// A change of one row.
#[derive(Debug)]
pub enum RowChange {
    Add(Json),
    Update { before: Json, after: Json },
    Delete(Json),
}

/// What a change of one row says.
pub enum RowChangeView {
    Add(JsonView),
    Update { before: JsonView, after: JsonView },
    Delete(JsonView),
}

impl View for RowChange {
    type V = RowChangeView;

    open spec fn view(&self) -> RowChangeView {
        match self {
            RowChange::Add(after) => RowChangeView::Add(after@),
            RowChange::Update { before, after } => RowChangeView::Update {
                before: before@,
                after: after@,
            },
            RowChange::Delete(before) => RowChangeView::Delete(before@),
        }
    }
}

/// The views of a list of changes.
pub open spec fn change_views(changes: Seq<RowChange>) -> Seq<RowChangeView> {
    Seq::new(changes.len(), |i: int| changes[i]@)
}

/// The value under a key, unless it is null.
pub open spec fn non_null(json: JsonView, key: Seq<char>) -> Option<JsonView> {
    match json_get(json, key) {
        Some(v) => if v == JsonView::Null {
            None
        } else {
            Some(v)
        },
        None => None,
    }
}

/// The change that a value with `before` and `after` rows describes. The operation is
/// compared without regard to ASCII case; without one, the rows that are there decide.
pub open spec fn change_of(json: JsonView, operation: Option<Seq<char>>) -> Result<
    RowChangeView,
    Seq<char>,
> {
    let before = non_null(json, "before"@);
    let after = non_null(json, "after"@);
    match operation {
        Some(op) => {
            let op = ascii_lower(op);
            if op == "add"@ || op == "added"@ || op == "insert"@ {
                match after {
                    Some(after) => Ok(RowChangeView::Add(after)),
                    None => Err("add change is missing an 'after' row"@),
                }
            } else if op == "update"@ || op == "updated"@ {
                match (before, after) {
                    (Some(before), Some(after)) => Ok(RowChangeView::Update { before, after }),
                    _ => Err("update change requires both 'before' and 'after' rows"@),
                }
            } else if op == "delete"@ || op == "deleted"@ {
                match before {
                    Some(before) => Ok(RowChangeView::Delete(before)),
                    None => Err("delete change is missing a 'before' row"@),
                }
            } else {
                Err("unsupported final-state operation '"@ + op + "'"@)
            }
        },
        None => match (before, after) {
            (None, Some(after)) => Ok(RowChangeView::Add(after)),
            (Some(before), Some(after)) => Ok(RowChangeView::Update { before, after }),
            (Some(before), None) => Ok(RowChangeView::Delete(before)),
            (None, None) => Err("change has neither a 'before' nor an 'after' row"@),
        },
    }
}

/// The operation that a value names under `type` or, where that key is missing, under
/// `operation`.
pub open spec fn operation_of(json: JsonView) -> Option<Seq<char>> {
    match json_get(json, "type"@) {
        Some(v) => crate::json::json_str(v),
        None => json_get_str(json, "operation"@),
    }
}

/// The change that a value with its own operation describes.
pub open spec fn named_change_of(json: JsonView) -> Result<RowChangeView, Seq<char>> {
    change_of(json, operation_of(json))
}

/// The changes that a list of values describes, or the first error.
pub open spec fn named_changes_of(items: Seq<JsonView>) -> Result<Seq<RowChangeView>, Seq<char>>
    decreases items.len(),
{
    if items.len() == 0 {
        Ok(Seq::empty())
    } else {
        match named_changes_of(items.drop_last()) {
            Ok(changes) => match named_change_of(items.last()) {
                Ok(change) => Ok(changes.push(change)),
                Err(error) => Err(error),
            },
            Err(error) => Err(error),
        }
    }
}

/// A single change as a list of changes.
pub open spec fn single(change: Result<RowChangeView, Seq<char>>) -> Result<
    Seq<RowChangeView>,
    Seq<char>,
> {
    match change {
        Ok(change) => Ok(seq![change]),
        Err(error) => Err(error),
    }
}

/// The items under a key, or none where there is no array.
pub open spec fn items_under(json: JsonView, key: Seq<char>) -> Seq<JsonView> {
    match json_get_array(json, key) {
        Some(items) => items,
        None => Seq::empty(),
    }
}

/// One of the keys by which a value counts as a change.
pub open spec fn change_shaped(json: JsonView) -> bool {
    ||| json_get(json, "type"@) is Some
    ||| json_get(json, "operation"@) is Some
    ||| json_get(json, "before"@) is Some
    ||| json_get(json, "after"@) is Some
}

/// The changes that a batch of added, updated and deleted rows describes, in that order.
pub open spec fn batch_changes_of(json: JsonView) -> Result<Seq<RowChangeView>, Seq<char>> {
    let added = items_under(json, "addedResults"@).map_values(|v: JsonView| RowChangeView::Add(v));
    let deleted = items_under(json, "deletedResults"@).map_values(
        |v: JsonView| RowChangeView::Delete(v),
    );
    match named_changes_of(items_under(json, "updatedResults"@)) {
        Ok(updated) => Ok(added + updated + deleted),
        Err(error) => Err(error),
    }
}

/// One of the keys of a batch is there.
pub open spec fn batch_shaped(json: JsonView) -> bool {
    ||| json_get(json, "addedResults"@) is Some
    ||| json_get(json, "updatedResults"@) is Some
    ||| json_get(json, "deletedResults"@) is Some
}

/// The changes that a reaction payload describes. The shapes are tried in this order: a
/// control record, a single `result`, a list of `results`, a batch, a recorded request, a
/// bare change.
pub open spec fn changes_of(payload: JsonView) -> Result<Seq<RowChangeView>, Seq<char>> {
    if !(payload is Object) {
        Err("final-state payload must be a JSON object"@)
    } else if json_get_str(payload, "kind"@) == Some("control"@) {
        Ok(Seq::empty())
    } else if json_get(payload, "result"@) is Some {
        single(named_change_of(json_get(payload, "result"@)->Some_0))
    } else if json_get_array(payload, "results"@) is Some {
        named_changes_of(json_get_array(payload, "results"@)->Some_0)
    } else if batch_shaped(payload) {
        batch_changes_of(payload)
    } else if json_get(payload, "request_body"@) is Some {
        let body = json_get(payload, "request_body"@)->Some_0;
        single(
            change_of(
                body,
                match operation_of(body) {
                    Some(op) => Some(op),
                    None => json_get_str(payload, "reaction_type"@),
                },
            ),
        )
    } else if change_shaped(payload) {
        single(named_change_of(payload))
    } else {
        Err("unsupported final-state reaction payload shape"@)
    }
}

/// A result of changes against its specification.
pub open spec fn changes_match(
    r: Result<Vec<RowChange>, String>,
    expected: Result<Seq<RowChangeView>, Seq<char>>,
) -> bool {
    match r {
        Ok(changes) => expected == Ok::<Seq<RowChangeView>, Seq<char>>(change_views(changes@)),
        Err(error) => expected == Err::<Seq<RowChangeView>, Seq<char>>(error@),
    }
}

/// A result of one change against its specification.
pub open spec fn change_matches(
    r: Result<RowChange, String>,
    expected: Result<RowChangeView, Seq<char>>,
) -> bool {
    match r {
        Ok(change) => expected == Ok::<RowChangeView, Seq<char>>(change@),
        Err(error) => expected == Err::<RowChangeView, Seq<char>>(error@),
    }
}

/// A copy of the value under a key, unless it is null.
fn non_null_copy(value: &Json, key: &str) -> (r: Option<Json>)
    ensures
        match r {
            Some(v) => non_null(value@, key@) == Some(v@),
            None => non_null(value@, key@) is None,
        },
{
    match value.get(key) {
        Some(v) => if v.is_null() {
            None
        } else {
            Some(v.copy())
        },
        None => None,
    }
}

/// The operation that a value names.
fn named_operation(value: &Json) -> (r: Option<&str>)
    ensures
        match r {
            Some(op) => operation_of(value@) == Some(op@),
            None => operation_of(value@) is None,
        },
{
    match value.get("type") {
        Some(v) => v.as_str(),
        None => value.get_str("operation"),
    }
}

/// The change that a value with its own operation describes.
pub fn normalize_change(value: &Json) -> (r: Result<RowChange, String>)
    ensures
        change_matches(r, named_change_of(value@)),
{
    normalize_change_with_operation(value, named_operation(value))
}

/// The change that a value describes under an operation.
pub fn normalize_change_with_operation(value: &Json, operation: Option<&str>) -> (r: Result<
    RowChange,
    String,
>)
    ensures
        change_matches(
            r,
            change_of(
                value@,
                match operation {
                    Some(op) => Some(op@),
                    None => None,
                },
            ),
        ),
{
    let before = non_null_copy(value, "before");
    let after = non_null_copy(value, "after");
    match operation {
        Some(op) => {
            let op = to_ascii_lowercase(op);
            let op = op.as_str();
            if str_equal(op, "add") || str_equal(op, "added") || str_equal(op, "insert") {
                match after {
                    Some(after) => Ok(RowChange::Add(after)),
                    None => Err("add change is missing an 'after' row".to_owned()),
                }
            } else if str_equal(op, "update") || str_equal(op, "updated") {
                match (before, after) {
                    (Some(before), Some(after)) => Ok(RowChange::Update { before, after }),
                    _ => Err("update change requires both 'before' and 'after' rows".to_owned()),
                }
            } else if str_equal(op, "delete") || str_equal(op, "deleted") {
                match before {
                    Some(before) => Ok(RowChange::Delete(before)),
                    None => Err("delete change is missing a 'before' row".to_owned()),
                }
            } else {
                let mut message = "unsupported final-state operation '".to_owned();
                message.append(op);
                message.append("'");
                Err(message)
            }
        },
        None => match (before, after) {
            (None, Some(after)) => Ok(RowChange::Add(after)),
            (Some(before), Some(after)) => Ok(RowChange::Update { before, after }),
            (Some(before), None) => Ok(RowChange::Delete(before)),
            (None, None) => Err("change has neither a 'before' nor an 'after' row".to_owned()),
        },
    }
}

/// Whether a value has one of the keys by which it counts as a change.
pub fn has_change_shape(value: &Json) -> (r: bool)
    ensures
        r == change_shaped(value@),
{
    value.get("type").is_some() || value.get("operation").is_some() || value.get(
        "before",
    ).is_some() || value.get("after").is_some()
}

/// The changes that a list of values describes.
fn normalize_list(items: &Vec<Json>) -> (r: Result<Vec<RowChange>, String>)
    ensures
        changes_match(r, named_changes_of(json_views(items@))),
{
    let ghost models = json_views(items@);
    let mut changes: Vec<RowChange> = Vec::new();
    let mut i: usize = 0;
    proof {
        assert(models.take(0) =~= Seq::<JsonView>::empty());
        assert(change_views(changes@) =~= Seq::<RowChangeView>::empty());
    }
    while i < items.len()
        invariant
            0 <= i <= items@.len(),
            models == json_views(items@),
            named_changes_of(models.take(i as int)) == Ok::<Seq<RowChangeView>, Seq<char>>(
                change_views(changes@),
            ),
        decreases items@.len() - i,
    {
        proof {
            assert(models.take(i + 1).drop_last() =~= models.take(i as int));
            assert(models.take(i + 1).last() == items@[i as int]@);
        }
        match normalize_change(&items[i]) {
            Ok(change) => {
                let ghost before = changes@;
                changes.push(change);
                assert(change_views(changes@) =~= change_views(before).push(change@));
            },
            Err(error) => {
                proof {
                    lemma_first_error(models, i + 1);
                }
                return Err(error);
            },
        }
        i = i + 1;
    }
    assert(models.take(models.len() as int) =~= models);
    Ok(changes)
}

/// An error in a prefix is the error of the whole list.
proof fn lemma_first_error(items: Seq<JsonView>, n: int)
    requires
        0 <= n <= items.len(),
        named_changes_of(items.take(n)) is Err,
    ensures
        named_changes_of(items) == named_changes_of(items.take(n)),
    decreases items.len(),
{
    if n < items.len() {
        assert(items.drop_last().take(n) =~= items.take(n));
        lemma_first_error(items.drop_last(), n);
    } else {
        assert(items.take(n) =~= items);
    }
}

/// The changes of a batch of added, updated and deleted rows.
fn normalize_batch(payload: &Json) -> (r: Result<Vec<RowChange>, String>)
    ensures
        changes_match(r, batch_changes_of(payload@)),
{
    let ghost added_spec = items_under(payload@, "addedResults"@).map_values(
        |v: JsonView| RowChangeView::Add(v),
    );
    let ghost deleted_spec = items_under(payload@, "deletedResults"@).map_values(
        |v: JsonView| RowChangeView::Delete(v),
    );
    let mut changes: Vec<RowChange> = Vec::new();
    match payload.get_array("addedResults") {
        Some(added) => {
            let mut i: usize = 0;
            while i < added.len()
                invariant
                    0 <= i <= added@.len(),
                    changes@.len() == i,
                    forall|j: int|
                        0 <= j < i ==> (#[trigger] changes@[j])@ == RowChangeView::Add(added@[j]@),
                decreases added@.len() - i,
            {
                changes.push(RowChange::Add(added[i].copy()));
                i = i + 1;
            }
        },
        None => {},
    }
    assert(change_views(changes@) =~= added_spec);
    match payload.get_array("updatedResults") {
        Some(updated) => {
            match normalize_list(updated) {
                Ok(mut updates) => {
                    let ghost before = changes@;
                    let ghost middle = updates@;
                    changes.append(&mut updates);
                    assert(change_views(changes@) =~= change_views(before) + change_views(middle));
                },
                Err(error) => {
                    return Err(error);
                },
            }
        },
        None => {
            assert(change_views(changes@) =~= added_spec + Seq::<RowChangeView>::empty());
        },
    }
    let ghost so_far = changes@;
    match payload.get_array("deletedResults") {
        Some(deleted) => {
            let mut i: usize = 0;
            while i < deleted.len()
                invariant
                    0 <= i <= deleted@.len(),
                    changes@.len() == so_far.len() + i,
                    forall|j: int| 0 <= j < so_far.len() ==> #[trigger] changes@[j] == so_far[j],
                    forall|j: int|
                        so_far.len() <= j < changes@.len() ==> (#[trigger] changes@[j])@
                            == RowChangeView::Delete(deleted@[j - so_far.len()]@),
                decreases deleted@.len() - i,
            {
                changes.push(RowChange::Delete(deleted[i].copy()));
                i = i + 1;
            }
        },
        None => {},
    }
    assert(change_views(changes@) =~= change_views(so_far) + deleted_spec);
    Ok(changes)
}

/// A single change as a list.
fn one_change(change: Result<RowChange, String>) -> (r: Result<Vec<RowChange>, String>)
    ensures
        forall|e: Result<RowChangeView, Seq<char>>| #[trigger]
            change_matches(change, e) ==> changes_match(r, single(e)),
{
    match change {
        Ok(change) => {
            let ghost view = change@;
            let changes = vec![change];
            assert(change_views(changes@) =~= seq![view]);
            Ok(changes)
        },
        Err(error) => Err(error),
    }
}

/// The changes that a reaction payload describes.
pub fn normalize_changes(payload: &Json) -> (r: Result<Vec<RowChange>, String>)
    ensures
        changes_match(r, changes_of(payload@)),
{
    if !payload.is_object() {
        return Err("final-state payload must be a JSON object".to_owned());
    }
    match payload.get_str("kind") {
        Some(kind) => {
            if str_equal(kind, "control") {
                let changes: Vec<RowChange> = Vec::new();
                assert(change_views(changes@) =~= Seq::<RowChangeView>::empty());
                return Ok(changes);
            }
        },
        None => {},
    }
    match payload.get("result") {
        Some(result) => {
            return one_change(normalize_change(result));
        },
        None => {},
    }
    match payload.get_array("results") {
        Some(results) => {
            return normalize_list(results);
        },
        None => {},
    }
    if payload.get("addedResults").is_some() || payload.get("updatedResults").is_some()
        || payload.get("deletedResults").is_some() {
        return normalize_batch(payload);
    }
    match payload.get("request_body") {
        Some(body) => {
            let operation = match named_operation(body) {
                Some(op) => Some(op),
                None => payload.get_str("reaction_type"),
            };
            return one_change(normalize_change_with_operation(body, operation));
        },
        None => {},
    }
    if has_change_shape(payload) {
        return one_change(normalize_change(payload));
    }
    Err("unsupported final-state reaction payload shape".to_owned())
}

/// A row as it is kept: the bytes that identify it, its canonical text and its value.
#[derive(Debug)]
pub struct MaterializedRow {
    identity: Vec<u8>,
    canonical: Vec<u8>,
    value: Json,
}

/// What a kept row says.
pub struct RowView {
    pub identity: Seq<u8>,
    pub canonical: Seq<u8>,
    pub value: JsonView,
}

impl View for MaterializedRow {
    type V = RowView;

    closed spec fn view(&self) -> RowView {
        RowView { identity: self.identity@, canonical: self.canonical@, value: self.value@ }
    }
}

/// The key fields of a row with their values, or the error of the first one missing.
pub open spec fn key_pairs(row: JsonView, key_fields: Seq<Seq<char>>) -> Result<
    Seq<(Seq<char>, JsonView)>,
    Seq<char>,
>
    decreases key_fields.len(),
{
    if key_fields.len() == 0 {
        Ok(Seq::empty())
    } else {
        match key_pairs(row, key_fields.drop_last()) {
            Ok(pairs) => match json_get(row, key_fields.last()) {
                Some(value) => Ok(pairs.push((key_fields.last(), value))),
                None => Err(
                    "final-state row is missing configured key field '"@ + key_fields.last() + "'"@,
                ),
            },
            Err(error) => Err(error),
        }
    }
}

/// The row that is kept for a value. It is identified by its canonical text, or by the
/// text of its key fields where there are any.
pub open spec fn row_of(value: JsonView, key_fields: Seq<Seq<char>>) -> Result<RowView, Seq<char>> {
    let value = canonical_value(value);
    let canonical = json_text(value);
    if key_fields.len() == 0 {
        Ok(RowView { identity: canonical, canonical, value })
    } else if !(value is Object) {
        Err("key_fields require each final-state row to be a JSON object"@)
    } else {
        match key_pairs(value, key_fields) {
            Ok(pairs) => Ok(
                RowView {
                    identity: json_text(
                        JsonView::Object(listing::<String, JsonView>(to_map(pairs))),
                    ),
                    canonical,
                    value,
                },
            ),
            Err(error) => Err(error),
        }
    }
}

/// A field of a value with sorted keys has sorted keys.
proof fn lemma_field_sorted(json: JsonView, key: Seq<char>)
    requires
        keys_sorted(json),
        json_get(json, key) is Some,
    ensures
        keys_sorted(json_get(json, key)->Some_0),
{
    let fields = json->Object_0;
    lemma_to_map(fields);
    assert(to_map(fields).contains_key(key));
    let i = choose|i: int|
        0 <= i < fields.len() && (#[trigger] fields[i]).0 == key && to_map(fields)[key] == fields[i].1;
    assert(keys_sorted(fields[i].1));
}

/// Pairs whose values have sorted keys list to an object with sorted keys.
proof fn lemma_listed_object_sorted(pairs: Seq<(Seq<char>, JsonView)>)
    requires
        forall|i: int| 0 <= i < pairs.len() ==> keys_sorted((#[trigger] pairs[i]).1),
    ensures
        keys_sorted(JsonView::Object(listing::<String, JsonView>(to_map(pairs)))),
{
    lemma_listing_of_list::<String, JsonView>(pairs);
    lemma_to_map(pairs);
    let out = listing::<String, JsonView>(to_map(pairs));
    assert forall|i: int| 0 <= i < out.len() implies keys_sorted((#[trigger] out[i]).1) by {
        lemma_ascending_lookup::<String, JsonView>(out, i);
        let k = out[i].0;
        assert(to_map(pairs).contains_key(k));
        let j = choose|j: int|
            0 <= j < pairs.len() && (#[trigger] pairs[j]).0 == k && to_map(pairs)[k] == pairs[j].1;
        assert(keys_sorted(pairs[j].1));
    }
}

/// An error at a prefix of the key fields is the error of all of them.
proof fn lemma_first_missing_key(row: JsonView, key_fields: Seq<Seq<char>>, n: int)
    requires
        0 <= n <= key_fields.len(),
        key_pairs(row, key_fields.take(n)) is Err,
    ensures
        key_pairs(row, key_fields) == key_pairs(row, key_fields.take(n)),
    decreases key_fields.len(),
{
    if n < key_fields.len() {
        assert(key_fields.drop_last().take(n) =~= key_fields.take(n));
        lemma_first_missing_key(row, key_fields.drop_last(), n);
    } else {
        assert(key_fields.take(n) =~= key_fields);
    }
}

/// The text that identifies a row by its key fields.
fn key_identity(value: &Json, key_fields: &Vec<String>) -> (r: Result<Vec<u8>, String>)
    requires
        keys_sorted(value@),
    ensures
        match r {
            Ok(identity) => key_pairs(value@, texts(key_fields@)) is Ok && identity@ == json_text(
                JsonView::Object(
                    listing::<String, JsonView>(
                        to_map(key_pairs(value@, texts(key_fields@))->Ok_0),
                    ),
                ),
            ),
            Err(error) => key_pairs(value@, texts(key_fields@)) == Err::<
                Seq<(Seq<char>, JsonView)>,
                Seq<char>,
            >(error@),
        },
{
    broadcast use lemma_object_view;

    let ghost fields = texts(key_fields@);
    let ghost mut pairs: Seq<(Seq<char>, JsonView)> = Seq::empty();
    let mut key: OrderedMap<String, Json> = OrderedMap::new();
    let mut i: usize = 0;
    proof {
        assert(fields.take(0) =~= Seq::<Seq<char>>::empty());
    }
    while i < key_fields.len()
        invariant
            0 <= i <= key_fields@.len(),
            fields == texts(key_fields@),
            keys_sorted(value@),
            key.wf(),
            key@ == to_map(pairs),
            key_pairs(value@, fields.take(i as int)) == Ok::<
                Seq<(Seq<char>, JsonView)>,
                Seq<char>,
            >(pairs),
            forall|j: int| 0 <= j < pairs.len() ==> keys_sorted((#[trigger] pairs[j]).1),
        decreases key_fields@.len() - i,
    {
        proof {
            assert(fields.take(i + 1).drop_last() =~= fields.take(i as int));
            assert(fields.take(i + 1).last() == key_fields@[i as int]@);
        }
        match value.get(key_fields[i].as_str()) {
            Some(field_value) => {
                proof {
                    lemma_field_sorted(value@, key_fields@[i as int]@);
                    let next = pairs.push((key_fields@[i as int]@, field_value@));
                    assert(next.drop_last() =~= pairs);
                    pairs = next;
                }
                key.insert(key_fields[i].clone(), field_value.copy());
            },
            None => {
                let mut message = "final-state row is missing configured key field '".to_owned();
                message.append(key_fields[i].as_str());
                message.append("'");
                proof {
                    lemma_first_missing_key(value@, fields, i + 1);
                }
                return Err(message);
            },
        }
        i = i + 1;
    }
    proof {
        assert(fields.take(fields.len() as int) =~= fields);
        lemma_listed_object_sorted(pairs);
    }
    Ok(to_bytes(&Json::Object(key.into_entries())))
}

/// The text of a row tells its value.
pub open spec fn row_tells(row: RowView) -> bool {
    is_value(row.value) && row.canonical == json_text(row.value) && text_tells(
        row.canonical,
        row.value,
    )
}

/// The texts of rows tell their values.
pub open spec fn rows_tell(rows: Map<(Seq<char>, Seq<u8>), RowView>) -> bool {
    forall|k: (Seq<char>, Seq<u8>)| #[trigger] rows.contains_key(k) ==> row_tells(rows[k])
}

/// The row that is kept for a value.
fn materialized_row(value: Json, key_fields: &Vec<String>) -> (r: Result<MaterializedRow, String>)
    ensures
        match r {
            Ok(row) => row_of(value@, texts(key_fields@)) == Ok::<RowView, Seq<char>>(row@)
                && row_tells(row@),
            Err(error) => row_of(value@, texts(key_fields@)) == Err::<RowView, Seq<char>>(error@),
        },
{
    let (canonical, value) = canonical_row(value);
    let identity = if key_fields.len() == 0 {
        bytes_copy(&canonical)
    } else {
        if !value.is_object() {
            return Err("key_fields require each final-state row to be a JSON object".to_owned());
        }
        match key_identity(&value, key_fields) {
            Ok(identity) => identity,
            Err(error) => {
                return Err(error);
            },
        }
    };
    Ok(MaterializedRow { identity, canonical, value })
}

impl MaterializedRow {
    /// A copy.
    fn copy(&self) -> (r: MaterializedRow)
        ensures
            r@ == self@,
    {
        MaterializedRow {
            identity: bytes_copy(&self.identity),
            canonical: bytes_copy(&self.canonical),
            value: self.value.copy(),
        }
    }
}

/// The rows that remain after a stream of changes, with counts of what was seen.
#[derive(Debug)]
pub struct FinalStateMaterializer {
    rows: OrderedMap<(String, Vec<u8>), MaterializedRow>,
    key_fields: Vec<String>,
    query_ids: OrderedMap<String, ()>,
    change_count: u64,
    duplicate_count: u64,
    upsert_count: u64,
    missing_before_count: u64,
    skipped_record_count: u64,
    normalization_error_count: usize,
    normalization_errors: Vec<String>,
}

/// What a materializer has seen: the rows by query and identity, and the counts.
pub struct FinalStateView {
    pub rows: Map<(Seq<char>, Seq<u8>), RowView>,
    pub key_fields: Seq<Seq<char>>,
    pub query_ids: Map<Seq<char>, ()>,
    pub change_count: nat,
    pub duplicate_count: nat,
    pub upsert_count: nat,
    pub missing_before_count: nat,
    pub skipped_record_count: nat,
    pub normalization_error_count: nat,
    pub normalization_errors: Seq<Seq<char>>,
}

impl View for FinalStateMaterializer {
    type V = FinalStateView;

    closed spec fn view(&self) -> FinalStateView {
        FinalStateView {
            rows: self.rows@,
            key_fields: texts(self.key_fields@),
            query_ids: self.query_ids@,
            change_count: self.change_count as nat,
            duplicate_count: self.duplicate_count as nat,
            upsert_count: self.upsert_count as nat,
            missing_before_count: self.missing_before_count as nat,
            skipped_record_count: self.skipped_record_count as nat,
            normalization_error_count: self.normalization_error_count as nat,
            normalization_errors: texts(self.normalization_errors@),
        }
    }
}

/// A state that has seen nothing.
pub open spec fn initial_state(key_fields: Seq<Seq<char>>) -> FinalStateView {
    FinalStateView {
        rows: Map::empty(),
        key_fields,
        query_ids: Map::empty(),
        change_count: 0,
        duplicate_count: 0,
        upsert_count: 0,
        missing_before_count: 0,
        skipped_record_count: 0,
        normalization_error_count: 0,
        normalization_errors: Seq::empty(),
    }
}

/// The state after adding a row: the row replaces one with the same identity, which counts
/// as a duplicate where the texts agree and as an upsert where they do not.
pub open spec fn after_add(state: FinalStateView, query_id: Seq<char>, row: RowView) -> FinalStateView {
    let key = (query_id, row.identity);
    let known = state.rows.contains_key(key);
    let same = known && state.rows[key].canonical == row.canonical;
    FinalStateView {
        rows: state.rows.insert(key, row),
        duplicate_count: state.duplicate_count + if same {
            1nat
        } else {
            0
        },
        upsert_count: state.upsert_count + if known && !same {
            1nat
        } else {
            0
        },
        ..state
    }
}

/// The state after updating a row. An update whose old row is gone and whose new row is
/// there already is a duplicate and changes no row.
pub open spec fn after_update(
    state: FinalStateView,
    query_id: Seq<char>,
    before: RowView,
    after: RowView,
) -> FinalStateView {
    let before_key = (query_id, before.identity);
    let after_key = (query_id, after.identity);
    let known = state.rows.contains_key(before_key);
    if !known && state.rows.contains_key(after_key) {
        FinalStateView { duplicate_count: state.duplicate_count + 1, ..state }
    } else {
        FinalStateView {
            rows: state.rows.remove(before_key).insert(after_key, after),
            missing_before_count: state.missing_before_count + if known {
                0nat
            } else {
                1
            },
            ..state
        }
    }
}

/// The state after deleting a row. Deleting a row that is not there is a duplicate.
pub open spec fn after_delete(state: FinalStateView, query_id: Seq<char>, row: RowView) -> FinalStateView {
    let key = (query_id, row.identity);
    FinalStateView {
        rows: state.rows.remove(key),
        duplicate_count: state.duplicate_count + if state.rows.contains_key(key) {
            0nat
        } else {
            1
        },
        ..state
    }
}

/// The state after a change, and the error where a row lacks a key field. A change counts
/// even where it fails.
pub open spec fn after_change(
    state: FinalStateView,
    query_id: Seq<char>,
    change: RowChangeView,
) -> (FinalStateView, Result<(), Seq<char>>) {
    let counted = FinalStateView { change_count: state.change_count + 1, ..state };
    match change {
        RowChangeView::Add(after) => match row_of(after, state.key_fields) {
            Ok(row) => (after_add(counted, query_id, row), Ok(())),
            Err(error) => (counted, Err(error)),
        },
        RowChangeView::Update { before, after } => match row_of(before, state.key_fields) {
            Ok(before) => match row_of(after, state.key_fields) {
                Ok(after) => (after_update(counted, query_id, before, after), Ok(())),
                Err(error) => (counted, Err(error)),
            },
            Err(error) => (counted, Err(error)),
        },
        RowChangeView::Delete(before) => match row_of(before, state.key_fields) {
            Ok(row) => (after_delete(counted, query_id, row), Ok(())),
            Err(error) => (counted, Err(error)),
        },
    }
}

/// The state after a list of changes, which ends at the first error.
pub open spec fn after_changes(
    state: FinalStateView,
    query_id: Seq<char>,
    changes: Seq<RowChangeView>,
) -> (FinalStateView, Result<(), Seq<char>>)
    decreases changes.len(),
{
    if changes.len() == 0 {
        (state, Ok(()))
    } else {
        let (before, r) = after_changes(state, query_id, changes.drop_last());
        match r {
            Ok(_) => after_change(before, query_id, changes.last()),
            Err(_) => (before, r),
        }
    }
}

/// The query that a payload is about: `query_id`, or `queryId` where that key is missing,
/// or the fallback where neither names one.
pub open spec fn payload_query_id(payload: JsonView, fallback: Seq<char>) -> Seq<char> {
    let named = match json_get(payload, "query_id"@) {
        Some(v) => crate::json::json_str(v),
        None => json_get_str(payload, "queryId"@),
    };
    let query_id = match named {
        Some(id) => id,
        None => fallback,
    };
    if query_id.len() == 0 {
        "unknown"@
    } else {
        query_id
    }
}

/// The number of normalization errors whose messages are kept.
pub const MAX_KEPT_ERRORS: usize = 20;

/// The state after a payload. One that describes no change is skipped; one that cannot be
/// read is counted, and its message kept as long as there is room.
pub open spec fn after_payload(
    state: FinalStateView,
    fallback_query_id: Seq<char>,
    payload: JsonView,
) -> (FinalStateView, Result<(), Seq<char>>) {
    match changes_of(payload) {
        Err(error) => (
            FinalStateView {
                normalization_error_count: state.normalization_error_count + 1,
                normalization_errors: if state.normalization_errors.len() < MAX_KEPT_ERRORS {
                    state.normalization_errors.push(error)
                } else {
                    state.normalization_errors
                },
                ..state
            },
            Ok(()),
        ),
        Ok(changes) => if changes.len() == 0 {
            (
                FinalStateView { skipped_record_count: state.skipped_record_count + 1, ..state },
                Ok(()),
            )
        } else {
            let query_id = payload_query_id(payload, fallback_query_id);
            after_changes(
                FinalStateView { query_ids: state.query_ids.insert(query_id, ()), ..state },
                query_id,
                changes,
            )
        },
    }
}

/// A result without a value against its specification.
pub open spec fn outcome_matches(r: Result<(), String>, expected: Result<(), Seq<char>>) -> bool {
    match r {
        Ok(_) => expected is Ok,
        Err(error) => expected == Err::<(), Seq<char>>(error@),
    }
}

/// The counters can still count a payload.
pub open spec fn has_room(state: FinalStateView, payload: JsonView) -> bool {
    &&& state.skipped_record_count < u64::MAX
    &&& state.normalization_error_count < usize::MAX
    &&& changes_of(payload) matches Ok(changes) ==> state.change_count + changes.len() <= u64::MAX
}

impl FinalStateMaterializer {
    /// The texts of the rows tell their values, and no single kind of change was counted more
    /// often than changes were.
    pub closed spec fn wf(self) -> bool {
        &&& self.rows.wf()
        &&& rows_tell(self.rows@)
        &&& self.query_ids.wf()
        &&& self.duplicate_count + self.upsert_count + self.missing_before_count <= self.change_count
    }

    /// The texts of the rows tell their values.
    pub proof fn lemma_texts_tell_values(self)
        requires
            self.wf(),
        ensures
            rows_tell(self@.rows),
    {
    }

    /// A materializer that identifies rows by the given fields, or by their whole text
    /// where none are given.
    pub fn new(key_fields: Vec<String>) -> (r: FinalStateMaterializer)
        ensures
            r.wf(),
            r@ == initial_state(texts(key_fields@)),
    {
        let r = FinalStateMaterializer {
            rows: OrderedMap::new(),
            key_fields,
            query_ids: OrderedMap::new(),
            change_count: 0,
            duplicate_count: 0,
            upsert_count: 0,
            missing_before_count: 0,
            skipped_record_count: 0,
            normalization_error_count: 0,
            normalization_errors: Vec::new(),
        };
        assert(texts(r.normalization_errors@) =~= Seq::<Seq<char>>::empty());
        r
    }

    /// Applies one change of a query's rows.
    fn apply_change(&mut self, query_id: &str, change: RowChange) -> (r: Result<(), String>)
        requires
            old(self).wf(),
            old(self)@.change_count < u64::MAX,
        ensures
            final(self).wf(),
            final(self)@ == after_change(old(self)@, query_id@, change@).0,
            outcome_matches(r, after_change(old(self)@, query_id@, change@).1),
    {
        self.change_count = self.change_count + 1;
        match change {
            RowChange::Add(after) => {
                let row = match materialized_row(after, &self.key_fields) {
                    Ok(row) => row,
                    Err(error) => {
                        return Err(error);
                    },
                };
                let key = (query_id.to_owned(), bytes_copy(&row.identity));
                match self.rows.insert(key, row.copy()) {
                    Some(previous) => {
                        if bytes_equal(&previous.canonical, &row.canonical) {
                            self.duplicate_count = self.duplicate_count + 1;
                        } else {
                            self.upsert_count = self.upsert_count + 1;
                        }
                    },
                    None => {},
                }
            },
            RowChange::Update { before, after } => {
                let before = match materialized_row(before, &self.key_fields) {
                    Ok(row) => row,
                    Err(error) => {
                        return Err(error);
                    },
                };
                let after = match materialized_row(after, &self.key_fields) {
                    Ok(row) => row,
                    Err(error) => {
                        return Err(error);
                    },
                };
                let before_key = (query_id.to_owned(), before.identity);
                let after_key = (query_id.to_owned(), bytes_copy(&after.identity));
                let ghost rows = self.rows@;
                if self.rows.remove(&before_key).is_none() {
                    assert(rows.remove(before_key@) =~= rows);
                    if self.rows.contains_key(&after_key) {
                        self.duplicate_count = self.duplicate_count + 1;
                        return Ok(());
                    }
                    self.missing_before_count = self.missing_before_count + 1;
                }
                self.rows.insert(after_key, after);
            },
            RowChange::Delete(before) => {
                let row = match materialized_row(before, &self.key_fields) {
                    Ok(row) => row,
                    Err(error) => {
                        return Err(error);
                    },
                };
                let key = (query_id.to_owned(), row.identity);
                if self.rows.remove(&key).is_none() {
                    self.duplicate_count = self.duplicate_count + 1;
                }
            },
        }
        Ok(())
    }

    /// Whether the counters can still count a payload.
    pub fn has_room_for(&self, payload: &Json) -> (r: bool)
        ensures
            r == has_room(self@, payload@),
    {
        if self.skipped_record_count == u64::MAX || self.normalization_error_count == usize::MAX {
            return false;
        }
        match normalize_changes(payload) {
            Ok(changes) => changes.len() as u64 <= u64::MAX - self.change_count,
            Err(_) => true,
        }
    }

    /// Applies a reaction payload.
    pub fn apply_payload(&mut self, fallback_query_id: &str, payload: &Json) -> (r: Result<
        (),
        String,
    >)
        requires
            old(self).wf(),
            has_room(old(self)@, payload@),
        ensures
            final(self).wf(),
            final(self)@ == after_payload(old(self)@, fallback_query_id@, payload@).0,
            outcome_matches(r, after_payload(old(self)@, fallback_query_id@, payload@).1),
    {
        let ghost start = self@;
        let named = match payload.get("query_id") {
            Some(v) => v.as_str(),
            None => payload.get_str("queryId"),
        };
        let query_id = match named {
            Some(id) => id,
            None => fallback_query_id,
        };
        let changes = match normalize_changes(payload) {
            Ok(changes) => changes,
            Err(error) => {
                self.normalization_error_count = self.normalization_error_count + 1;
                if self.normalization_errors.len() < MAX_KEPT_ERRORS {
                    let ghost errors = self.normalization_errors@;
                    let ghost message = error@;
                    self.normalization_errors.push(error);
                    assert(texts(self.normalization_errors@) =~= texts(errors).push(message));
                }
                return Ok(());
            },
        };
        if changes.len() == 0 {
            self.skipped_record_count = self.skipped_record_count + 1;
            return Ok(());
        }
        let query_id = if query_id.is_empty() || str_equal(query_id, "unknown") {
            "unknown"
        } else {
            query_id
        };
        self.query_ids.insert(query_id.to_owned(), ());
        let ghost base = self@;
        let ghost views = change_views(changes@);
        proof {
            assert(base.query_ids == start.query_ids.insert(query_id@, ()));
            assert(views.take(0) =~= Seq::<RowChangeView>::empty());
            assert(after_payload(start, fallback_query_id@, payload@) == after_changes(
                base,
                query_id@,
                views,
            ));
        }
        for change in it: changes
            invariant
                it.seq() == changes@,
                views == change_views(changes@),
                start == old(self)@,
                after_payload(start, fallback_query_id@, payload@) == after_changes(
                    base,
                    query_id@,
                    views,
                ),
                self.wf(),
                self@.change_count == base.change_count + it.index(),
                base.change_count + views.len() <= u64::MAX,
                after_changes(base, query_id@, views.take(it.index())) == (
                    self@,
                    Ok::<(), Seq<char>>(()),
                ),
        {
            let ghost k = it.index();
            proof {
                assert(views.take(k + 1).drop_last() =~= views.take(k));
                assert(views.take(k + 1).last() == change@);
            }
            match self.apply_change(query_id, change) {
                Ok(_) => {},
                Err(error) => {
                    proof {
                        lemma_first_failure(base, query_id@, views, k + 1);
                    }
                    return Err(error);
                },
            }
        }
        assert(views.take(views.len() as int) =~= views);
        Ok(())
    }

    /// Applies the payload of a handler record.
    pub fn apply_record(&mut self, record: &HandlerRecord) -> (r: Result<(), String>)
        requires
            old(self).wf(),
            has_room(old(self)@, record_payload(*record).1),
        ensures
            final(self).wf(),
            ({
                let (query_id, payload) = record_payload(*record);
                &&& final(self)@ == after_payload(old(self)@, query_id, payload).0
                &&& outcome_matches(r, after_payload(old(self)@, query_id, payload).1)
            }),
    {
        proof {
            reveal_strlit("");
            assert(""@ =~= Seq::<char>::empty());
        }
        match &record.payload {
            HandlerPayload::ReactionInvocation { query_id, request_body, .. } => {
                self.apply_payload(query_id.as_str(), request_body)
            },
            HandlerPayload::ReactionOutput { reaction_output } => {
                self.apply_payload("", reaction_output)
            },
            HandlerPayload::ResultStream { query_result, .. } => self.apply_payload("", query_result),
        }
    }

    /// What remains, with its hash and the counts.
    pub fn summary(&self) -> (r: FinalStateSummary)
        requires
            self.wf(),
        ensures
            r@ == summary_of(self@),
            is_hash_text(r.sha256@),
            forall|i: int| 0 <= i < r.rows@.len() ==> is_hash_text((#[trigger] r.rows@[i]).sha256@),
    {
        let entries = self.rows.entries();
        let ghost list = listing::<(String, Vec<u8>), RowView>(self@.rows);
        let mut aggregate = Sha256Stream::new();
        let mut rows: Vec<FinalStateRow> = Vec::new();
        let mut i: usize = 0;
        let zero: Vec<u8> = vec![0u8];
        let newline: Vec<u8> = vec![10u8];
        proof {
            assert(zero@ =~= seq![0u8]);
            assert(newline@ =~= seq![10u8]);
            assert(list.take(0) =~= Seq::empty());
        }
        while i < entries.len()
            invariant
                0 <= i <= entries@.len(),
                list == entry_views(entries@),
                zero@ == seq![0u8],
                newline@ == seq![10u8],
                absorbed(aggregate) == aggregate_message(list.take(i as int)),
                rows@.len() == i,
                forall|j: int| 0 <= j < i ==> (#[trigger] rows@[j])@ == final_row_of(list[j]),
                forall|j: int| 0 <= j < i ==> is_hash_text((#[trigger] rows@[j]).sha256@),
            decreases entries@.len() - i,
        {
            let query_id = &entries[i].0.0;
            let row = &entries[i].1;
            proof {
                assert(list.take(i + 1).drop_last() =~= list.take(i as int));
                assert(list[i as int].0.0 == query_id@);
                assert(list[i as int].1 == row@);
            }
            let row_sha = sha256_hex_of(&row.canonical);
            aggregate.update(query_id.as_str().as_bytes());
            aggregate.update(zero.as_slice());
            aggregate.update(row_sha.as_str().as_bytes());
            aggregate.update(newline.as_slice());
            rows.push(
                FinalStateRow {
                    query_id: query_id.clone(),
                    sha256: row_sha,
                    value: row.value.copy(),
                },
            );
            i = i + 1;
        }
        proof {
            assert(list.take(list.len() as int) =~= list);
        }
        let query_ids = keys_of(self.query_ids.entries());
        let r = FinalStateSummary {
            mode: "final_state",
            sha256: aggregate.finish_hex(),
            row_count: rows.len(),
            change_count: self.change_count,
            duplicate_count: self.duplicate_count,
            upsert_count: self.upsert_count,
            missing_before_count: self.missing_before_count,
            skipped_record_count: self.skipped_record_count,
            normalization_error_count: self.normalization_error_count,
            normalization_errors: copy_texts(&self.normalization_errors),
            key_fields: copy_texts(&self.key_fields),
            query_ids,
            rows,
        };
        assert(r@.rows =~= final_rows(list));
        r
    }
}

impl Default for FinalStateMaterializer {
    /// A materializer that identifies rows by their whole text.
    fn default() -> (r: FinalStateMaterializer)
        ensures
            r.wf(),
            r@ == initial_state(Seq::empty()),
    {
        let key_fields: Vec<String> = Vec::new();
        assert(texts(key_fields@) =~= Seq::<Seq<char>>::empty());
        FinalStateMaterializer::new(key_fields)
    }
}

/// The query and the payload of a handler record.
pub open spec fn record_payload(record: HandlerRecord) -> (Seq<char>, JsonView) {
    match record.payload {
        HandlerPayload::ReactionInvocation { query_id, request_body, .. } => (
            query_id@,
            request_body@,
        ),
        HandlerPayload::ReactionOutput { reaction_output } => (Seq::empty(), reaction_output@),
        HandlerPayload::ResultStream { query_result, .. } => (Seq::empty(), query_result@),
    }
}

/// An error after a prefix of the changes is the outcome of all of them.
proof fn lemma_first_failure(
    state: FinalStateView,
    query_id: Seq<char>,
    changes: Seq<RowChangeView>,
    n: int,
)
    requires
        0 <= n <= changes.len(),
        after_changes(state, query_id, changes.take(n)).1 is Err,
    ensures
        after_changes(state, query_id, changes) == after_changes(state, query_id, changes.take(n)),
    decreases changes.len(),
{
    if n < changes.len() {
        assert(changes.drop_last().take(n) =~= changes.take(n));
        lemma_first_failure(state, query_id, changes.drop_last(), n);
    } else {
        assert(changes.take(n) =~= changes);
    }
}

/// The keys of a list of marked elements.
fn keys_of(entries: &Vec<(String, ())>) -> (r: Vec<String>)
    ensures
        texts(r@) == keys_listed(entry_views(entries@)),
{
    let mut r: Vec<String> = Vec::new();
    let mut i: usize = 0;
    while i < entries.len()
        invariant
            0 <= i <= entries@.len(),
            r@.len() == i,
            forall|j: int| 0 <= j < i ==> (#[trigger] r@[j])@ == entries@[j].0@,
        decreases entries@.len() - i,
    {
        r.push(entries[i].0.clone());
        i = i + 1;
    }
    assert(texts(r@) =~= keys_listed(entry_views(entries@)));
    r
}

/// The keys of a list of entries.
pub open spec fn keys_listed<V>(entries: Seq<(Seq<char>, V)>) -> Seq<Seq<char>> {
    Seq::new(entries.len(), |i: int| entries[i].0)
}

/// The message whose digest is the hash of a list of rows: for each row the query, a zero
/// byte, the hexadecimal digest of the row's text and a newline.
pub open spec fn aggregate_message(rows: Seq<((Seq<char>, Seq<u8>), RowView)>) -> Seq<u8>
    decreases rows.len(),
{
    if rows.len() == 0 {
        Seq::empty()
    } else {
        aggregate_message(rows.drop_last()) + encode_utf8(rows.last().0.0) + seq![0u8] + encode_utf8(
            sha256_hex(rows.last().1.canonical),
        ) + seq![10u8]
    }
}

/// The hash of the rows of a state, in ascending order of query and identity.
pub open spec fn state_hash(state: FinalStateView) -> Seq<char> {
    sha256_hex(aggregate_message(listing::<(String, Vec<u8>), RowView>(state.rows)))
}

/// A row of a summary.
#[derive(Debug)]
pub struct FinalStateRow {
    pub query_id: String,
    pub sha256: String,
    pub value: Json,
}

/// What a row of a summary says.
pub struct FinalRowView {
    pub query_id: Seq<char>,
    pub sha256: Seq<char>,
    pub value: JsonView,
}

impl View for FinalStateRow {
    type V = FinalRowView;

    open spec fn view(&self) -> FinalRowView {
        FinalRowView { query_id: self.query_id@, sha256: self.sha256@, value: self.value@ }
    }
}

/// What is known of the rows when a reaction stops.
#[derive(Debug)]
pub struct FinalStateSummary {
    pub mode: &'static str,
    pub sha256: String,
    pub row_count: usize,
    pub change_count: u64,
    pub duplicate_count: u64,
    pub upsert_count: u64,
    pub missing_before_count: u64,
    pub skipped_record_count: u64,
    pub normalization_error_count: usize,
    pub normalization_errors: Vec<String>,
    pub key_fields: Vec<String>,
    pub query_ids: Vec<String>,
    pub rows: Vec<FinalStateRow>,
}

/// What a summary says.
pub struct SummaryView {
    pub mode: Seq<char>,
    pub sha256: Seq<char>,
    pub row_count: nat,
    pub change_count: nat,
    pub duplicate_count: nat,
    pub upsert_count: nat,
    pub missing_before_count: nat,
    pub skipped_record_count: nat,
    pub normalization_error_count: nat,
    pub normalization_errors: Seq<Seq<char>>,
    pub key_fields: Seq<Seq<char>>,
    pub query_ids: Seq<Seq<char>>,
    pub rows: Seq<FinalRowView>,
}

impl View for FinalStateSummary {
    type V = SummaryView;

    open spec fn view(&self) -> SummaryView {
        SummaryView {
            mode: self.mode@,
            sha256: self.sha256@,
            row_count: self.row_count as nat,
            change_count: self.change_count as nat,
            duplicate_count: self.duplicate_count as nat,
            upsert_count: self.upsert_count as nat,
            missing_before_count: self.missing_before_count as nat,
            skipped_record_count: self.skipped_record_count as nat,
            normalization_error_count: self.normalization_error_count as nat,
            normalization_errors: texts(self.normalization_errors@),
            key_fields: texts(self.key_fields@),
            query_ids: texts(self.query_ids@),
            rows: Seq::new(self.rows@.len(), |i: int| self.rows@[i]@),
        }
    }
}

/// The summary's row for a kept row.
pub open spec fn final_row_of(entry: ((Seq<char>, Seq<u8>), RowView)) -> FinalRowView {
    FinalRowView {
        query_id: entry.0.0,
        sha256: sha256_hex(entry.1.canonical),
        value: entry.1.value,
    }
}

/// The summary's rows for a list of kept rows.
pub open spec fn final_rows(rows: Seq<((Seq<char>, Seq<u8>), RowView)>) -> Seq<FinalRowView> {
    Seq::new(rows.len(), |i: int| final_row_of(rows[i]))
}

/// The summary of a state.
pub open spec fn summary_of(state: FinalStateView) -> SummaryView {
    let rows = listing::<(String, Vec<u8>), RowView>(state.rows);
    SummaryView {
        mode: "final_state"@,
        sha256: state_hash(state),
        row_count: rows.len(),
        change_count: state.change_count,
        duplicate_count: state.duplicate_count,
        upsert_count: state.upsert_count,
        missing_before_count: state.missing_before_count,
        skipped_record_count: state.skipped_record_count,
        normalization_error_count: state.normalization_error_count,
        normalization_errors: state.normalization_errors,
        key_fields: state.key_fields,
        query_ids: keys_listed(listing::<String, ()>(state.query_ids)),
        rows: final_rows(rows),
    }
}

} // verus!
