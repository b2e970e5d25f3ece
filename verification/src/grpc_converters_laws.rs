//! What is sent to a gRPC source of an event, and what is read of a query's results.

use crate::grpc_converters::{
    element_of, is_special_key, item_fields, item_json, json_fields, json_items, json_of,
    lemma_proto_items, optional_field, optional_fields, plain_proto_fields, properties_of,
    proto_fields, proto_of, source_change_of, struct_json, ChangeModel, ChangeType, ElementModel,
    MetadataView, ProtoView, QueryResultItem, ReceivedView,
};
use crate::json::{json_get, JsonView};
use crate::json_laws::lemma_listed_fields;
use crate::ordered::{ascending, entry_views, lemma_listing_of_list, listing, to_map};
use crate::scripts::ChangeEventView;
use crate::sources::source_change_dispatchers::direct_format::{labels_or_none, texts_among};
use vstd::prelude::*;

verus! {

/// What every element is told by: its reference, its labels and since when it holds.
pub open spec fn metadata_in(element: ElementModel) -> MetadataView {
    match element {
        ElementModel::Node { metadata, .. } => metadata,
        ElementModel::Relation { metadata, .. } => metadata,
    }
}

/// The properties of an element.
pub open spec fn properties_sent(element: ElementModel) -> Seq<(Seq<char>, ProtoView)> {
    match element {
        ElementModel::Node { properties, .. } => properties,
        ElementModel::Relation { properties, .. } => properties,
    }
}

/// The text under a key is the given one; empty where the value has none there.
pub open spec fn is_text_under(json: JsonView, key: Seq<char>, text: Seq<char>) -> bool {
    match json_get(json, key) {
        Some(JsonView::Text(found)) => text == found,
        _ => text.len() == 0,
    }
}

/// Labels that are all texts are read one by one, in their order.
proof fn lemma_texts_among(items: Seq<JsonView>)
    requires
        forall|i: int| 0 <= i < items.len() ==> (#[trigger] items[i]) is Text,
    ensures
        texts_among(items).len() == items.len(),
        forall|i: int|
            0 <= i < items.len() ==> items[i] == JsonView::Text(#[trigger] texts_among(items)[i]),
    decreases items.len(),
{
    if items.len() > 0 {
        let front = items.drop_last();
        assert forall|i: int| 0 <= i < front.len() implies (#[trigger] front[i]) is Text by {
            assert(front[i] == items[i]);
        }
        lemma_texts_among(front);
        assert(items.last() is Text);
        assert forall|i: int| 0 <= i < items.len() implies items[i] == JsonView::Text(
            #[trigger] texts_among(items)[i],
        ) by {
            if i < front.len() {
                assert(front[i] == items[i]);
            }
        }
    }
}

/// Labels are read in their order: of two lists put together, those of the first come first.
/// What is no text is no label.
pub proof fn lemma_labels_keep_their_order(a: Seq<JsonView>, b: Seq<JsonView>, item: JsonView)
    ensures
        texts_among(a + b) == texts_among(a) + texts_among(b),
        texts_among(seq![item]) == (match item {
            JsonView::Text(text) => seq![text],
            _ => Seq::empty(),
        }),
    decreases b.len(),
{
    reveal_with_fuel(texts_among, 2);
    assert(seq![item].drop_last() =~= Seq::<JsonView>::empty());
    if let JsonView::Text(text) = item {
        assert(texts_among(seq![item]) =~= seq![text]);
    }
    if b.len() == 0 {
        assert(a + b =~= a);
        assert(texts_among(a) + texts_among(b) =~= texts_among(a));
    } else {
        lemma_labels_keep_their_order(a, b.drop_last(), item);
        assert((a + b).drop_last() =~= a + b.drop_last());
        assert((a + b).last() == b.last());
        assert(texts_among(a + b) =~= texts_among(a) + texts_among(b));
    }
}

/// An element has exactly the labels that the value lists: none where it lists none.
pub proof fn lemma_labels_are_those_listed(element: JsonView)
    ensures
        match json_get(element, "labels"@) {
            Some(JsonView::Array(items)) => (forall|i: int|
                0 <= i < items.len() ==> (#[trigger] items[i]) is Text) ==> {
                &&& labels_or_none(element).len() == items.len()
                &&& forall|i: int|
                    0 <= i < items.len() ==> items[i] == JsonView::Text(
                        #[trigger] labels_or_none(element)[i],
                    )
            },
            _ => labels_or_none(element).len() == 0,
        },
{
    if let Some(JsonView::Array(items)) = json_get(element, "labels"@) {
        if forall|i: int| 0 <= i < items.len() ==> (#[trigger] items[i]) is Text {
            lemma_texts_among(items);
        }
    }
}

/// The fields to be sent have the keys that are given, each with its own value.
proof fn lemma_proto_lookup(fields: Seq<(Seq<char>, JsonView)>, key: Seq<char>)
    ensures
        to_map(proto_fields(fields)).contains_key(key) <==> to_map(fields).contains_key(key),
        to_map(fields).contains_key(key) ==> to_map(proto_fields(fields))[key] == proto_of(
            to_map(fields)[key],
        ),
    decreases fields.len(),
{
    if fields.len() > 0 {
        let rest = fields.drop_last();
        assert(rest =~= fields.subrange(0, fields.len() - 1));
        lemma_proto_lookup(rest, key);
        assert(proto_fields(fields).drop_last() =~= proto_fields(rest));
    }
}

/// Of an element's own fields, those that are not special are kept.
proof fn lemma_plain_lookup(fields: Seq<(Seq<char>, JsonView)>, key: Seq<char>)
    ensures
        to_map(plain_proto_fields(fields)).contains_key(key) <==> to_map(fields).contains_key(key)
            && !is_special_key(key),
        to_map(fields).contains_key(key) && !is_special_key(key) ==> to_map(
            plain_proto_fields(fields),
        )[key] == proto_of(to_map(fields)[key]),
    decreases fields.len(),
{
    if fields.len() > 0 {
        let front = plain_proto_fields(fields.drop_last());
        lemma_plain_lookup(fields.drop_last(), key);
        if !is_special_key(fields.last().0) {
            let entry = (fields.last().0, proto_of(fields.last().1));
            assert(front.push(entry).drop_last() =~= front);
        }
    }
}

/// The properties sent are those of the value, each under its key with its value: the fields
/// under "properties" where an object stands there, else the value's own fields but for those
/// that tell the element apart. They stand in the order of their keys.
pub proof fn lemma_properties_are_those_held(element: JsonView, key: Seq<char>)
    ensures
        ({
            let sent = properties_of(element);
            let held = match json_get(element, "properties"@) {
                Some(JsonView::Object(fields)) => json_get(JsonView::Object(fields), key),
                _ => if key == "id"@ || key == "labels"@ || key == "startId"@ || key == "start_id"@
                    || key == "endId"@ || key == "end_id"@ || key == "startSourceId"@ || key
                    == "start_source_id"@ || key == "endSourceId"@ || key == "end_source_id"@
                    || key == "properties"@ {
                    None
                } else {
                    json_get(element, key)
                },
            };
            &&& ascending::<String, ProtoView>(sent)
            &&& to_map(sent).contains_key(key) <==> held is Some
            &&& held matches Some(value) ==> to_map(sent)[key] == proto_of(value)
        }),
{
    match json_get(element, "properties"@) {
        Some(JsonView::Object(fields)) => {
            lemma_listing_of_list::<String, ProtoView>(proto_fields(fields));
            lemma_proto_lookup(fields, key);
        },
        _ => {
            match element {
                JsonView::Object(fields) => {
                    lemma_listing_of_list::<String, ProtoView>(plain_proto_fields(fields));
                    lemma_plain_lookup(fields, key);
                },
                _ => {},
            }
        },
    }
}

/// A value to be sent is the value given: the same kind, lists item by item in their order,
/// objects field by field.
pub proof fn lemma_sent_values_are_those_given(json: JsonView)
    ensures
        match json {
            JsonView::Null => proto_of(json) is Null,
            JsonView::Bool(b) => proto_of(json) == ProtoView::Bool(b),
            JsonView::Integer(n) => proto_of(json) == ProtoView::Integer(n),
            JsonView::Float(n) => proto_of(json) == ProtoView::Float(n),
            JsonView::Text(text) => proto_of(json) == ProtoView::Text(text),
            JsonView::Array(items) => proto_of(json) matches ProtoView::List(sent) && sent.len()
                == items.len() && forall|i: int|
                0 <= i < items.len() ==> #[trigger] sent[i] == proto_of(items[i]),
            JsonView::Object(fields) => proto_of(json) matches ProtoView::Struct(sent)
                && ascending::<String, ProtoView>(sent) && forall|key: Seq<char>|
                {
                    &&& #[trigger] to_map(sent).contains_key(key) <==> json_get(json, key) is Some
                    &&& json_get(json, key) matches Some(value) ==> to_map(sent)[key] == proto_of(
                        value,
                    )
                },
        },
{
    match json {
        JsonView::Array(items) => {
            lemma_proto_items(items);
        },
        JsonView::Object(fields) => {
            let sent = listing::<String, ProtoView>(to_map(proto_fields(fields)));
            lemma_listing_of_list::<String, ProtoView>(proto_fields(fields));
            assert forall|key: Seq<char>|
                {
                    &&& #[trigger] to_map(sent).contains_key(key) <==> json_get(json, key) is Some
                    &&& json_get(json, key) matches Some(value) ==> to_map(sent)[key] == proto_of(
                        value,
                    )
                } by {
                lemma_proto_lookup(fields, key);
            }
        },
        _ => {},
    }
}

/// What is sent for an insert or an update is the element as it is after the event: its
/// identifier, its labels, its properties and the event's time are those of the after state.
pub proof fn lemma_inserts_and_updates_carry_the_after_state(
    event: ChangeEventView,
    source_id: Seq<char>,
    key: Seq<char>,
)
    requires
        event.op == "i"@ || event.op == "insert"@ || event.op == "u"@ || event.op == "update"@,
        event.after is Object,
    ensures
        ({
            let sent = source_change_of(event, source_id);
            let held = match json_get(event.after, "properties"@) {
                Some(JsonView::Object(fields)) => json_get(JsonView::Object(fields), key),
                _ => if is_special_key(key) {
                    None
                } else {
                    json_get(event.after, key)
                },
            };
            &&& sent.source_id == source_id
            &&& sent.change_type == if event.op == "i"@ || event.op == "insert"@ {
                ChangeType::Insert
            } else {
                ChangeType::Update
            }
            &&& sent.change matches Some(ChangeModel::Element(element)) && {
                let metadata = metadata_in(element);
                &&& is_text_under(event.after, "id"@, metadata.reference.element_id)
                &&& metadata.reference.source_id == source_id
                &&& metadata.effective_from == event.ts_ns
                &&& metadata.labels == labels_or_none(event.after)
                &&& to_map(properties_sent(element)).contains_key(key) <==> held is Some
                &&& held matches Some(value) ==> to_map(properties_sent(element))[key] == proto_of(
                    value,
                )
            }
        }),
{
    reveal_strlit("i");
    reveal_strlit("insert");
    reveal_strlit("u");
    reveal_strlit("update");
    lemma_properties_are_those_held(event.after, key);
}

/// What is sent for an insert or an update does not depend on the state before it.
pub proof fn lemma_inserts_and_updates_ignore_the_before_state(
    event: ChangeEventView,
    other: JsonView,
    source_id: Seq<char>,
)
    requires
        event.op != "d"@ && event.op != "delete"@,
    ensures
        source_change_of(event, source_id) == source_change_of(
            ChangeEventView { before: other, ..event },
            source_id,
        ),
{
}

/// Without an after state an insert or an update carries no element.
pub proof fn lemma_no_element_without_an_after_state(event: ChangeEventView, source_id: Seq<char>)
    requires
        event.op != "d"@ && event.op != "delete"@,
        !(event.after is Object),
    ensures
        source_change_of(event, source_id).change is None,
{
}

/// What is sent for a delete names the element that is gone: by the state before the event,
/// and by the state after it only where there is none before. No element is sent.
pub proof fn lemma_deletes_name_what_is_gone(event: ChangeEventView, source_id: Seq<char>)
    requires
        event.op == "d"@ || event.op == "delete"@,
    ensures
        ({
            let sent = source_change_of(event, source_id);
            let gone = if event.before is Object {
                event.before
            } else {
                event.after
            };
            &&& sent.source_id == source_id
            &&& sent.change_type == ChangeType::Delete
            &&& if gone is Object {
                sent.change matches Some(ChangeModel::Metadata(metadata)) && {
                    &&& is_text_under(gone, "id"@, metadata.reference.element_id)
                    &&& metadata.reference.source_id == source_id
                    &&& metadata.labels == labels_or_none(gone)
                    &&& metadata.effective_from == event.ts_ns
                }
            } else {
                sent.change is None
            }
        }),
{
    reveal_strlit("d");
    reveal_strlit("delete");
    reveal_strlit("i");
    reveal_strlit("insert");
    reveal_strlit("u");
    reveal_strlit("update");
    if event.op == "d"@ {
        assert(event.op.len() == 1 && event.op[0] == 'd');
        assert(event.op[0] != "i"@[0] && event.op[0] != "u"@[0]);
    } else {
        assert(event.op[0] == 'd');
        assert(event.op[0] != "i"@[0] && event.op[0] != "insert"@[0]);
    }
}

/// An operation that is none of the three sends neither an element nor a name.
pub proof fn lemma_other_operations_send_nothing(event: ChangeEventView, source_id: Seq<char>)
    requires
        event.op != "i"@ && event.op != "insert"@,
        event.op != "u"@ && event.op != "update"@,
        event.op != "d"@ && event.op != "delete"@,
    ensures
        source_change_of(event, source_id).change_type == ChangeType::Unspecified,
        source_change_of(event, source_id).change is None,
{
}

/// The text that a value has under the first of two keys, or under the second where it has
/// nothing under the first.
pub open spec fn is_end(json: JsonView, first: Seq<char>, second: Seq<char>, text: Seq<char>) -> bool {
    ||| json_get(json, first) == Some(JsonView::Text(text))
    ||| json_get(json, first) is None && json_get(json, second) == Some(JsonView::Text(text))
}

/// A value with a start and an end is a relation that leads from that start to that end. Each
/// end belongs to the source that the value names for it, or to the sending source where it
/// names none.
pub proof fn lemma_relations_keep_their_ends(
    element: JsonView,
    source_id: Seq<char>,
    ts_ns: u64,
    start: Seq<char>,
    end: Seq<char>,
)
    requires
        is_end(element, "startId"@, "start_id"@, start),
        is_end(element, "endId"@, "end_id"@, end),
    ensures
        element_of(element, source_id, ts_ns) matches ElementModel::Relation {
            in_node,
            out_node,
            ..
        } && {
            &&& in_node.element_id == start
            &&& out_node.element_id == end
            &&& forall|source: Seq<char>| #[trigger]
                is_end(element, "startSourceId"@, "start_source_id"@, source) ==> in_node.source_id
                    == source
            &&& forall|source: Seq<char>| #[trigger]
                is_end(element, "endSourceId"@, "end_source_id"@, source) ==> out_node.source_id
                    == source
            &&& (forall|source: Seq<char>| !#[trigger]
                is_end(element, "startSourceId"@, "start_source_id"@, source))
                ==> in_node.source_id == source_id
            &&& (forall|source: Seq<char>| !#[trigger]
                is_end(element, "endSourceId"@, "end_source_id"@, source)) ==> out_node.source_id
                == source_id
        },
{
    if let Some(source) = crate::grpc_converters::either_str(
        element,
        "startSourceId"@,
        "start_source_id"@,
    ) {
        assert(is_end(element, "startSourceId"@, "start_source_id"@, source));
    }
    if let Some(source) = crate::grpc_converters::either_str(
        element,
        "endSourceId"@,
        "end_source_id"@,
    ) {
        assert(is_end(element, "endSourceId"@, "end_source_id"@, source));
    }
}

/// A value that lacks a start or an end is a node.
pub proof fn lemma_without_both_ends_it_is_a_node(
    element: JsonView,
    source_id: Seq<char>,
    ts_ns: u64,
)
    requires
        (forall|start: Seq<char>| !#[trigger] is_end(element, "startId"@, "start_id"@, start)) || (
        forall|end: Seq<char>| !#[trigger] is_end(element, "endId"@, "end_id"@, end)),
    ensures
        element_of(element, source_id, ts_ns) is Node,
{
    if let Some(start) = crate::grpc_converters::either_str(element, "startId"@, "start_id"@) {
        assert(is_end(element, "startId"@, "start_id"@, start));
    }
    if let Some(end) = crate::grpc_converters::either_str(element, "endId"@, "end_id"@) {
        assert(is_end(element, "endId"@, "end_id"@, end));
    }
}

/// Items that are read keep their order: of two lists put together, those of the first come
/// first. What has no value is left out.
pub proof fn lemma_read_items_keep_their_order(
    a: Seq<ReceivedView>,
    b: Seq<ReceivedView>,
    item: ReceivedView,
)
    ensures
        json_items(a + b) == json_items(a) + json_items(b),
        json_items(seq![item]) == (match json_of(item) {
            Some(json) => seq![json],
            None => Seq::empty(),
        }),
    decreases b.len(),
{
    reveal_with_fuel(json_items, 2);
    assert(seq![item].subrange(0, 0) =~= Seq::<ReceivedView>::empty());
    if let Some(json) = json_of(item) {
        assert(json_items(seq![item]) =~= seq![json]);
    }
    if b.len() == 0 {
        assert(a + b =~= a);
        assert(json_items(a) + json_items(b) =~= json_items(a));
    } else {
        let rest = b.subrange(0, b.len() - 1);
        lemma_read_items_keep_their_order(a, rest, item);
        assert((a + b).subrange(0, (a + b).len() - 1) =~= a + rest);
        assert(json_items(a + b) =~= json_items(a) + json_items(b));
    }
}

/// A value that is read is the value received: the same kind, lists in their order. What was
/// not set, and a number that is not finite, is no value.
pub proof fn lemma_read_values_are_those_received(value: ReceivedView)
    ensures
        match value {
            ReceivedView::Unset => json_of(value) is None,
            ReceivedView::Null => json_of(value) == Some(JsonView::Null),
            ReceivedView::Bool(b) => json_of(value) == Some(JsonView::Bool(b)),
            ReceivedView::Number(n) => json_of(value) == Some(JsonView::Float(n)),
            ReceivedView::NotFinite => json_of(value) is None,
            ReceivedView::Text(text) => json_of(value) == Some(JsonView::Text(text)),
            ReceivedView::List(items) => json_of(value) == Some(JsonView::Array(json_items(items))),
            ReceivedView::Struct(fields) => json_of(value) == Some(
                JsonView::Object(struct_json(fields)),
            ),
        },
{
}

/// Of a row that is received, every field that has a value is read with that value under its
/// key, and nothing else is.
pub proof fn lemma_rows_are_read_whole(fields: Seq<(Seq<char>, ReceivedView)>, key: Seq<char>)
    requires
        forall|i: int, j: int|
            0 <= i < j < fields.len() ==> (#[trigger] fields[i]).0 != (#[trigger] fields[j]).0,
    ensures
        ascending::<String, JsonView>(struct_json(fields)),
        forall|i: int|
            0 <= i < fields.len() && (#[trigger] fields[i]).0 == key ==> json_get(
                JsonView::Object(struct_json(fields)),
                key,
            ) == json_of(fields[i].1),
        (forall|i: int| 0 <= i < fields.len() ==> (#[trigger] fields[i]).0 != key) ==> json_get(
            JsonView::Object(struct_json(fields)),
            key,
        ) is None,
{
    lemma_listing_of_list::<String, JsonView>(json_fields(fields));
    lemma_read_lookup(fields, key);
}

/// What the read fields hold under a key.
proof fn lemma_read_lookup(fields: Seq<(Seq<char>, ReceivedView)>, key: Seq<char>)
    requires
        forall|i: int, j: int|
            0 <= i < j < fields.len() ==> (#[trigger] fields[i]).0 != (#[trigger] fields[j]).0,
    ensures
        forall|i: int|
            0 <= i < fields.len() && (#[trigger] fields[i]).0 == key ==> json_get(
                JsonView::Object(json_fields(fields)),
                key,
            ) == json_of(fields[i].1),
        (forall|i: int| 0 <= i < fields.len() ==> (#[trigger] fields[i]).0 != key) ==> json_get(
            JsonView::Object(json_fields(fields)),
            key,
        ) is None,
    decreases fields.len(),
{
    if fields.len() > 0 {
        let n = fields.len() - 1;
        let rest = fields.subrange(0, n);
        let front = json_fields(rest);
        assert forall|i: int, j: int| 0 <= i < j < rest.len() implies (#[trigger] rest[i]).0 != (
        #[trigger] rest[j]).0 by {
            assert(rest[i] == fields[i] && rest[j] == fields[j]);
        }
        lemma_read_lookup(rest, key);
        if let Some(json) = json_of(fields[n].1) {
            assert(front.push((fields[n].0, json)).drop_last() =~= front);
        }
        assert forall|i: int| 0 <= i < fields.len() && (#[trigger] fields[i]).0 == key implies json_get(
            JsonView::Object(json_fields(fields)),
            key,
        ) == json_of(fields[i].1) by {
            if i < n {
                assert(rest[i] == fields[i]);
                assert(fields[n].0 != key);
            } else {
                assert forall|k: int| 0 <= k < rest.len() implies (#[trigger] rest[k]).0 != key by {
                    assert(rest[k] == fields[k]);
                }
            }
        }
        if forall|i: int| 0 <= i < fields.len() ==> (#[trigger] fields[i]).0 != key {
            assert forall|k: int| 0 <= k < rest.len() implies (#[trigger] rest[k]).0 != key by {
                assert(rest[k] == fields[k]);
            }
            assert(fields[n].0 != key);
        }
    }
}

/// What a list of fields with one more holds under a key.
proof fn lemma_one_more(
    fields: Seq<(Seq<char>, JsonView)>,
    last: (Seq<char>, JsonView),
    key: Seq<char>,
)
    ensures
        json_get(JsonView::Object(fields.push(last)), key) == if key == last.0 {
            Some(last.1)
        } else {
            json_get(JsonView::Object(fields), key)
        },
{
    assert(fields.push(last).drop_last() =~= fields);
}

/// What two lists of fields hold together: the second's fields go first.
proof fn lemma_both(
    a: Seq<(Seq<char>, JsonView)>,
    b: Seq<(Seq<char>, JsonView)>,
    key: Seq<char>,
)
    ensures
        json_get(JsonView::Object(a + b), key) == (match json_get(JsonView::Object(b), key) {
            Some(value) => Some(value),
            None => json_get(JsonView::Object(a), key),
        }),
    decreases b.len(),
{
    if b.len() == 0 {
        assert(a + b =~= a);
    } else {
        lemma_both(a, b.drop_last(), key);
        assert(a + b =~= (a + b.drop_last()).push(b.last()));
        lemma_one_more(a + b.drop_last(), b.last(), key);
    }
}

/// The rows that an item carries as it is read: a field of the item's data is found under its
/// key; "type" finds the item's type where the data have no such field. For an update, "before"
/// finds the row before and "after" the row after whenever the item has one.
pub proof fn lemma_items_carry_their_rows(item: QueryResultItem, key: Seq<char>)
    ensures
        ({
            let payload = item_json(item);
            let updated = item.item_type@ == "UPDATE"@;
            let data = match item.data {
                Some(fields) => json_get(JsonView::Object(struct_json(entry_views(fields@))), key),
                None => None,
            };
            let own = if key == "type"@ {
                Some(JsonView::Text(item.item_type@))
            } else {
                None
            };
            let plain = if data is Some {
                data
            } else {
                own
            };
            &&& updated && key == "after"@ ==> json_get(payload, key) == (match item.after {
                Some(fields) => Some(JsonView::Object(struct_json(entry_views(fields@)))),
                None => plain,
            })
            &&& updated && key == "before"@ ==> json_get(payload, key) == (match item.before {
                Some(fields) => Some(JsonView::Object(struct_json(entry_views(fields@)))),
                None => plain,
            })
            &&& !updated || (key != "after"@ && key != "before"@) ==> json_get(payload, key)
                == plain
        }),
{
    reveal_strlit("before");
    reveal_strlit("after");
    reveal_strlit("type");
    assert("before"@.len() != "after"@.len());
    let start = seq![("type"@, JsonView::Text(item.item_type@))];
    let data = match optional_fields(item.data) {
        Some(fields) => struct_json(fields),
        None => Seq::empty(),
    };
    let none = Seq::<(Seq<char>, JsonView)>::empty();
    assert(start =~= none.push(("type"@, JsonView::Text(item.item_type@))));
    lemma_one_more(none, ("type"@, JsonView::Text(item.item_type@)), key);
    lemma_both(start, data, key);
    lemma_listed_fields(item_fields(item), key);
    if item.item_type@ == "UPDATE"@ {
        let before = optional_field("before"@, item.before);
        let after = optional_field("after"@, item.after);
        lemma_both(start + data, before, key);
        lemma_both(start + data + before, after, key);
        if let Some(fields) = optional_fields(item.before) {
            let field = ("before"@, JsonView::Object(struct_json(fields)));
            assert(before =~= none.push(field));
            lemma_one_more(none, field, key);
        }
        if let Some(fields) = optional_fields(item.after) {
            let field = ("after"@, JsonView::Object(struct_json(fields)));
            assert(after =~= none.push(field));
            lemma_one_more(none, field, key);
        }
    }
}

/// For an item of type UPDATE, "after" finds the row after and "before" the row before whenever
/// the item has one: neither row is lost.
pub proof fn lemma_updates_carry_both_rows(item: QueryResultItem)
    requires
        item.item_type@ == "UPDATE"@,
    ensures
        item.after matches Some(fields) ==> json_get(item_json(item), "after"@) == Some(
            JsonView::Object(struct_json(entry_views(fields@))),
        ),
        item.before matches Some(fields) ==> json_get(item_json(item), "before"@) == Some(
            JsonView::Object(struct_json(entry_views(fields@))),
        ),
{
    lemma_items_carry_their_rows(item, "after"@);
    lemma_items_carry_their_rows(item, "before"@);
}

} // verus!
