//! Changes as a gRPC source takes them, and query results as a gRPC reaction gets them.

use crate::json::{
    json_get, json_get_str, json_str, json_views, keys_sorted, lemma_array_view, lemma_object_view,
    FloatNumber, Json, JsonView,
};
use crate::ordered::{
    ascending, entry_views, lemma_listing, listing, to_map, OrderedKey, OrderedMap,
};
use crate::scripts::{ChangeEventView, SourceChangeEvent};
use crate::sources::source_change_dispatchers::direct_format::{extract_labels, labels_or_none};
use crate::text::{str_equal, texts};
use serde_json::Number;
use vstd::prelude::*;

verus! {

/// A value to be sent. Numbers are held as they are given; on the wire each becomes the
/// nearest floating-point value.
#[derive(Debug)]
pub enum ProtoValue {
    Null,
    Bool(bool),
    Signed(i64),
    Unsigned(u64),
    Float(FloatNumber),
    Text(String),
    List(Vec<ProtoValue>),
    Struct(Vec<(String, ProtoValue)>),
}

/// What a value to be sent says.
pub enum ProtoView {
    Null,
    Bool(bool),
    Integer(int),
    Float(Number),
    Text(Seq<char>),
    List(Seq<ProtoView>),
    Struct(Seq<(Seq<char>, ProtoView)>),
}

impl View for ProtoValue {
    type V = ProtoView;

    open spec fn view(&self) -> ProtoView {
        proto_model(*self)
    }
}

/// What a value to be sent says.
pub open spec fn proto_model(value: ProtoValue) -> ProtoView
    decreases value,
{
    match value {
        ProtoValue::Null => ProtoView::Null,
        ProtoValue::Bool(b) => ProtoView::Bool(b),
        ProtoValue::Signed(n) => ProtoView::Integer(n as int),
        ProtoValue::Unsigned(n) => ProtoView::Integer(n as int),
        ProtoValue::Float(f) => ProtoView::Float(f@),
        ProtoValue::Text(s) => ProtoView::Text(s@),
        ProtoValue::List(items) => ProtoView::List(
            Seq::new(
                items@.len(),
                |i: int|
                    if 0 <= i < items@.len() {
                        proto_model(items@[i])
                    } else {
                        ProtoView::Null
                    },
            ),
        ),
        ProtoValue::Struct(fields) => ProtoView::Struct(
            Seq::new(
                fields@.len(),
                |i: int|
                    if 0 <= i < fields@.len() {
                        proto_field_model(fields@[i])
                    } else {
                        arbitrary()
                    },
            ),
        ),
    }
}

/// What a field to be sent says.
pub open spec fn proto_field_model(field: (String, ProtoValue)) -> (Seq<char>, ProtoView)
    decreases field,
{
    (field.0@, proto_model(field.1))
}

/// The views of a list of values.
pub open spec fn proto_views(items: Seq<ProtoValue>) -> Seq<ProtoView> {
    Seq::new(items.len(), |i: int| items[i]@)
}

/// A list's view is made of its items' views.
pub proof fn lemma_list_view(items: Vec<ProtoValue>)
    ensures
        ProtoValue::List(items)@ == ProtoView::List(proto_views(items@)),
{
    assert(ProtoValue::List(items)@->List_0 =~= proto_views(items@));
}

/// A struct's view is made of its fields' views.
pub proof fn lemma_struct_view(fields: Vec<(String, ProtoValue)>)
    ensures
        ProtoValue::Struct(fields)@ == ProtoView::Struct(entry_views(fields@)),
{
    let seen = ProtoValue::Struct(fields)@->Struct_0;
    assert forall|i: int| 0 <= i < fields@.len() implies seen[i] == #[trigger] entry_views(fields@)[i] by {
        assert(proto_field_model(fields@[i]) == (fields@[i].0@, fields@[i].1@));
    }
    assert(seen =~= entry_views(fields@));
}

/// A value as it is sent; the fields of a struct in order of their names.
pub open spec fn proto_of(json: JsonView) -> ProtoView
    decreases json,
{
    match json {
        JsonView::Null => ProtoView::Null,
        JsonView::Bool(b) => ProtoView::Bool(b),
        JsonView::Integer(n) => ProtoView::Integer(n),
        JsonView::Float(n) => ProtoView::Float(n),
        JsonView::Text(s) => ProtoView::Text(s),
        JsonView::Array(items) => ProtoView::List(proto_items(items)),
        JsonView::Object(fields) => ProtoView::Struct(
            listing::<String, ProtoView>(to_map(proto_fields(fields))),
        ),
    }
}

/// Each item as it is sent.
pub open spec fn proto_items(items: Seq<JsonView>) -> Seq<ProtoView>
    decreases items,
{
    if items.len() == 0 {
        Seq::empty()
    } else {
        proto_items(items.subrange(0, items.len() - 1)).push(proto_of(items[items.len() - 1]))
    }
}

/// Each field as it is sent.
pub open spec fn proto_fields(fields: Seq<(Seq<char>, JsonView)>) -> Seq<(Seq<char>, ProtoView)>
    decreases fields,
{
    if fields.len() == 0 {
        Seq::empty()
    } else {
        let last = fields[fields.len() - 1];
        proto_fields(fields.subrange(0, fields.len() - 1)).push((last.0, proto_of(last.1)))
    }
}

/// A value as it is sent.
pub fn json_to_proto_value(json: &Json) -> (r: ProtoValue)
    ensures
        r@ == proto_of(json@),
    decreases json@,
{
    broadcast use {lemma_array_view, lemma_object_view};

    match json {
        Json::Null => ProtoValue::Null,
        Json::Bool(b) => ProtoValue::Bool(*b),
        Json::Unsigned(n) => ProtoValue::Unsigned(*n),
        Json::Signed(n) => ProtoValue::Signed(*n),
        Json::Float(f) => ProtoValue::Float(f.copy()),
        Json::Text(s) => ProtoValue::Text(s.clone()),
        Json::Array(items) => {
            let ghost models = json@->Array_0;
            let mut out: Vec<ProtoValue> = Vec::new();
            let mut i: usize = 0;
            assert(proto_views(out@) =~= Seq::<ProtoView>::empty());
            while i < items.len()
                invariant
                    0 <= i <= items@.len(),
                    json@ is Array,
                    models == json@->Array_0,
                    models == json_views(items@),
                    proto_views(out@) == proto_items(models.subrange(0, i as int)),
                decreases items@.len() - i,
            {
                proof {
                    assert(items@[i as int]@ == models[i as int]);
                    assert(decreases_to!(json@ => models));
                    assert(models.subrange(0, i + 1).subrange(0, i as int) =~= models.subrange(
                        0,
                        i as int,
                    ));
                }
                let ghost before = proto_views(out@);
                out.push(json_to_proto_value(&items[i]));
                assert(proto_views(out@) =~= before.push(proto_of(models[i as int])));
                i = i + 1;
            }
            proof {
                assert(models.subrange(0, models.len() as int) =~= models);
                lemma_list_view(out);
            }
            ProtoValue::List(out)
        },
        Json::Object(fields) => {
            let ghost models = json@->Object_0;
            let mut map: OrderedMap<String, ProtoValue> = OrderedMap::new();
            let mut i: usize = 0;
            while i < fields.len()
                invariant
                    0 <= i <= fields@.len(),
                    json@ is Object,
                    models == json@->Object_0,
                    models == entry_views(fields@),
                    map.wf(),
                    map@ == to_map(proto_fields(models.subrange(0, i as int))),
                decreases fields@.len() - i,
            {
                proof {
                    let k = i as int;
                    let m = models[k];
                    assert(m == (fields@[k].0@, fields@[k].1@));
                    assert(decreases_to!(json@ => models));
                    assert(decreases_to!(models => m));
                    assert(decreases_to!(m => m.1));
                    assert(models.subrange(0, k + 1).subrange(0, k) =~= models.subrange(0, k));
                    let t = proto_fields(models.subrange(0, k + 1));
                    assert(t.drop_last() =~= proto_fields(models.subrange(0, k)));
                    assert(t.last() == (m.0, proto_of(m.1)));
                }
                map.insert(fields[i].0.clone(), json_to_proto_value(&fields[i].1));
                i = i + 1;
            }
            let entries = map.into_entries();
            proof {
                assert(models.subrange(0, models.len() as int) =~= models);
                lemma_struct_view(entries);
            }
            ProtoValue::Struct(entries)
        },
    }
}

/// A key that describes the element itself.
pub open spec fn is_special_key(key: Seq<char>) -> bool {
    ||| key == "id"@
    ||| key == "labels"@
    ||| key == "startId"@
    ||| key == "start_id"@
    ||| key == "endId"@
    ||| key == "end_id"@
    ||| key == "startSourceId"@
    ||| key == "start_source_id"@
    ||| key == "endSourceId"@
    ||| key == "end_source_id"@
    ||| key == "properties"@
}

/// The fields that are not special, as they are sent.
pub open spec fn plain_proto_fields(fields: Seq<(Seq<char>, JsonView)>) -> Seq<
    (Seq<char>, ProtoView),
>
    decreases fields.len(),
{
    if fields.len() == 0 {
        Seq::empty()
    } else {
        let front = plain_proto_fields(fields.drop_last());
        if is_special_key(fields.last().0) {
            front
        } else {
            front.push((fields.last().0, proto_of(fields.last().1)))
        }
    }
}

/// The properties of an element: those under `properties` where that is an object, otherwise
/// the fields that do not describe the element itself.
pub open spec fn properties_of(element: JsonView) -> Seq<(Seq<char>, ProtoView)> {
    match json_get(element, "properties"@) {
        Some(JsonView::Object(fields)) => listing::<String, ProtoView>(to_map(proto_fields(fields))),
        _ => match element {
            JsonView::Object(fields) => listing::<String, ProtoView>(
                to_map(plain_proto_fields(fields)),
            ),
            _ => Seq::empty(),
        },
    }
}

fn special_key(key: &str) -> (r: bool)
    ensures
        r == is_special_key(key@),
{
    str_equal(key, "id") || str_equal(key, "labels") || str_equal(key, "startId") || str_equal(
        key,
        "start_id",
    ) || str_equal(key, "endId") || str_equal(key, "end_id") || str_equal(key, "startSourceId")
        || str_equal(key, "start_source_id") || str_equal(key, "endSourceId") || str_equal(
        key,
        "end_source_id",
    ) || str_equal(key, "properties")
}

/// The fields that are not special, as they are sent.
fn plain_fields(fields: &Vec<(String, Json)>) -> (r: Vec<(String, ProtoValue)>)
    ensures
        entry_views(r@) == listing::<String, ProtoView>(
            to_map(plain_proto_fields(entry_views(fields@))),
        ),
{
    let ghost models = entry_views(fields@);
    let mut map: OrderedMap<String, ProtoValue> = OrderedMap::new();
    let mut i: usize = 0;
    assert(models.take(0) =~= Seq::<(Seq<char>, JsonView)>::empty());
    while i < fields.len()
        invariant
            0 <= i <= fields@.len(),
            models == entry_views(fields@),
            map.wf(),
            map@ == to_map(plain_proto_fields(models.take(i as int))),
        decreases fields@.len() - i,
    {
        proof {
            assert(models.take(i + 1).drop_last() =~= models.take(i as int));
            assert(models.take(i + 1).last() == (fields@[i as int].0@, fields@[i as int].1@));
        }
        if !special_key(fields[i].0.as_str()) {
            proof {
                let t = plain_proto_fields(models.take(i + 1));
                assert(t.drop_last() =~= plain_proto_fields(models.take(i as int)));
            }
            map.insert(fields[i].0.clone(), json_to_proto_value(&fields[i].1));
        }
        i = i + 1;
    }
    assert(models.take(models.len() as int) =~= models);
    map.into_entries()
}

/// The fields of an object, as they are sent.
fn all_fields(fields: &Vec<(String, Json)>) -> (r: Vec<(String, ProtoValue)>)
    ensures
        entry_views(r@) == listing::<String, ProtoView>(to_map(proto_fields(entry_views(fields@)))),
{
    let ghost models = entry_views(fields@);
    let mut map: OrderedMap<String, ProtoValue> = OrderedMap::new();
    let mut i: usize = 0;
    while i < fields.len()
        invariant
            0 <= i <= fields@.len(),
            models == entry_views(fields@),
            map.wf(),
            map@ == to_map(proto_fields(models.subrange(0, i as int))),
        decreases fields@.len() - i,
    {
        proof {
            let k = i as int;
            assert(models.subrange(0, k + 1).subrange(0, k) =~= models.subrange(0, k));
            let t = proto_fields(models.subrange(0, k + 1));
            assert(t.drop_last() =~= proto_fields(models.subrange(0, k)));
            assert(t.last() == (fields@[k].0@, proto_of(fields@[k].1@)));
        }
        map.insert(fields[i].0.clone(), json_to_proto_value(&fields[i].1));
        i = i + 1;
    }
    assert(models.subrange(0, models.len() as int) =~= models);
    map.into_entries()
}

/// The properties of an element.
pub fn extract_properties(element: &Json) -> (r: Vec<(String, ProtoValue)>)
    ensures
        entry_views(r@) == properties_of(element@),
{
    broadcast use lemma_object_view;

    match element.get("properties") {
        Some(Json::Object(fields)) => all_fields(fields),
        _ => match element {
            Json::Object(fields) => plain_fields(fields),
            _ => {
                let r: Vec<(String, ProtoValue)> = Vec::new();
                assert(entry_views(r@) =~= Seq::<(Seq<char>, ProtoView)>::empty());
                r
            },
        },
    }
}

/// What kind of change it is.
#[derive(Clone, Copy, Debug, PartialEq, Eq, Structural)]
pub enum ChangeType {
    Unspecified,
    Insert,
    Update,
    Delete,
}

/// An element of a source.
#[derive(Debug)]
pub struct ElementReference {
    pub source_id: String,
    pub element_id: String,
}

/// What names an element of a source.
pub struct ReferenceView {
    pub source_id: Seq<char>,
    pub element_id: Seq<char>,
}

impl View for ElementReference {
    type V = ReferenceView;

    open spec fn view(&self) -> ReferenceView {
        ReferenceView { source_id: self.source_id@, element_id: self.element_id@ }
    }
}

/// What is known of an element besides its properties.
#[derive(Debug)]
pub struct ElementMetadata {
    pub reference: ElementReference,
    pub labels: Vec<String>,
    pub effective_from: u64,
}

/// What is known of an element besides its properties.
pub struct MetadataView {
    pub reference: ReferenceView,
    pub labels: Seq<Seq<char>>,
    pub effective_from: u64,
}

impl View for ElementMetadata {
    type V = MetadataView;

    open spec fn view(&self) -> MetadataView {
        MetadataView {
            reference: self.reference@,
            labels: texts(self.labels@),
            effective_from: self.effective_from,
        }
    }
}

/// A node, or a relation between two.
#[derive(Debug)]
pub enum Element {
    Node { metadata: ElementMetadata, properties: Vec<(String, ProtoValue)> },
    Relation {
        metadata: ElementMetadata,
        in_node: ElementReference,
        out_node: ElementReference,
        properties: Vec<(String, ProtoValue)>,
    },
}

/// What a node or a relation says.
pub enum ElementModel {
    Node { metadata: MetadataView, properties: Seq<(Seq<char>, ProtoView)> },
    Relation {
        metadata: MetadataView,
        in_node: ReferenceView,
        out_node: ReferenceView,
        properties: Seq<(Seq<char>, ProtoView)>,
    },
}

impl View for Element {
    type V = ElementModel;

    open spec fn view(&self) -> ElementModel {
        match self {
            Element::Node { metadata, properties } => ElementModel::Node {
                metadata: metadata@,
                properties: entry_views(properties@),
            },
            Element::Relation { metadata, in_node, out_node, properties } => ElementModel::Relation {
                metadata: metadata@,
                in_node: in_node@,
                out_node: out_node@,
                properties: entry_views(properties@),
            },
        }
    }
}

/// What changed: an element, or for a deleted one what names it.
#[derive(Debug)]
pub enum Change {
    Element(Element),
    Metadata(ElementMetadata),
}

/// What changed.
pub enum ChangeModel {
    Element(ElementModel),
    Metadata(MetadataView),
}

/// A change as a gRPC source takes it.
#[derive(Debug)]
pub struct SourceChange {
    pub change_type: ChangeType,
    pub change: Option<Change>,
    pub timestamp_seconds: i64,
    pub timestamp_nanos: i32,
    pub source_id: String,
}

/// What a change as a gRPC source takes it says.
pub struct SourceChangeModel {
    pub change_type: ChangeType,
    pub change: Option<ChangeModel>,
    pub timestamp_seconds: i64,
    pub timestamp_nanos: i32,
    pub source_id: Seq<char>,
}

impl View for SourceChange {
    type V = SourceChangeModel;

    open spec fn view(&self) -> SourceChangeModel {
        SourceChangeModel {
            change_type: self.change_type,
            change: match self.change {
                Some(Change::Element(element)) => Some(ChangeModel::Element(element@)),
                Some(Change::Metadata(metadata)) => Some(ChangeModel::Metadata(metadata@)),
                None => None,
            },
            timestamp_seconds: self.timestamp_seconds,
            timestamp_nanos: self.timestamp_nanos,
            source_id: self.source_id@,
        }
    }
}

/// The kind of change that an operation names.
pub open spec fn change_type_of(op: Seq<char>) -> ChangeType {
    if op == "i"@ || op == "insert"@ {
        ChangeType::Insert
    } else if op == "u"@ || op == "update"@ {
        ChangeType::Update
    } else if op == "d"@ || op == "delete"@ {
        ChangeType::Delete
    } else {
        ChangeType::Unspecified
    }
}

/// The text under the first of two keys that is there.
pub open spec fn either_str(json: JsonView, first: Seq<char>, second: Seq<char>) -> Option<Seq<char>> {
    match json_get(json, first) {
        Some(v) => json_str(v),
        None => json_get_str(json, second),
    }
}

/// A text or what stands in for it.
pub open spec fn text_or(text: Option<Seq<char>>, other: Seq<char>) -> Seq<char> {
    match text {
        Some(text) => text,
        None => other,
    }
}

/// What is known of an element besides its properties.
pub open spec fn metadata_of(element: JsonView, source_id: Seq<char>, ts_ns: u64) -> MetadataView {
    MetadataView {
        reference: ReferenceView {
            source_id,
            element_id: text_or(json_get_str(element, "id"@), Seq::empty()),
        },
        labels: labels_or_none(element),
        effective_from: ts_ns,
    }
}

/// The element that a value describes. With both ends it is a relation, and each end is in
/// the element's own source where no other is named.
pub open spec fn element_of(element: JsonView, source_id: Seq<char>, ts_ns: u64) -> ElementModel {
    let metadata = metadata_of(element, source_id, ts_ns);
    let properties = properties_of(element);
    match (
        either_str(element, "startId"@, "start_id"@),
        either_str(element, "endId"@, "end_id"@),
    ) {
        (Some(start_id), Some(end_id)) => ElementModel::Relation {
            metadata,
            in_node: ReferenceView {
                source_id: text_or(
                    either_str(element, "startSourceId"@, "start_source_id"@),
                    source_id,
                ),
                element_id: start_id,
            },
            out_node: ReferenceView {
                source_id: text_or(
                    either_str(element, "endSourceId"@, "end_source_id"@),
                    source_id,
                ),
                element_id: end_id,
            },
            properties,
        },
        _ => ElementModel::Node { metadata, properties },
    }
}

/// What changed in an event. A deleted element is named by its state before, or by its state
/// after where there is none before.
pub open spec fn change_of(event: ChangeEventView, source_id: Seq<char>) -> Option<ChangeModel> {
    match change_type_of(event.op) {
        ChangeType::Delete => if event.before is Object {
            Some(ChangeModel::Metadata(metadata_of(event.before, source_id, event.ts_ns)))
        } else if event.after is Object {
            Some(ChangeModel::Metadata(metadata_of(event.after, source_id, event.ts_ns)))
        } else {
            None
        },
        ChangeType::Unspecified => None,
        _ => if event.after is Object {
            Some(ChangeModel::Element(element_of(event.after, source_id, event.ts_ns)))
        } else {
            None
        },
    }
}

/// An event as a gRPC source takes it.
pub open spec fn source_change_of(event: ChangeEventView, source_id: Seq<char>) -> SourceChangeModel {
    SourceChangeModel {
        change_type: change_type_of(event.op),
        change: change_of(event, source_id),
        timestamp_seconds: (event.ts_ns / 1_000_000_000) as i64,
        timestamp_nanos: (event.ts_ns % 1_000_000_000) as i32,
        source_id,
    }
}

/// The text under the first of two keys that is there.
fn get_either_str<'a>(json: &'a Json, first: &str, second: &str) -> (r: Option<&'a str>)
    ensures
        match r {
            Some(s) => either_str(json@, first@, second@) == Some(s@),
            None => either_str(json@, first@, second@) is None,
        },
{
    match json.get(first) {
        Some(v) => v.as_str(),
        None => json.get_str(second),
    }
}

/// What is known of an element besides its properties.
fn element_metadata(element: &Json, source_id: &str, ts_ns: u64) -> (r: ElementMetadata)
    ensures
        r@ == metadata_of(element@, source_id@, ts_ns),
{
    let element_id = match element.get_str("id") {
        Some(id) => id.to_owned(),
        None => {
            let id = String::new();
            assert(id@ =~= Seq::<char>::empty());
            id
        },
    };
    ElementMetadata {
        reference: ElementReference { source_id: source_id.to_owned(), element_id },
        labels: extract_labels(element),
        effective_from: ts_ns,
    }
}

/// A reference to an element of a source, or of the given one where none is named.
fn reference(source: Option<&str>, own_source: &str, element_id: &str) -> (r: ElementReference)
    ensures
        r@ == (ReferenceView {
            source_id: text_or(
                match source {
                    Some(s) => Some(s@),
                    None => None,
                },
                own_source@,
            ),
            element_id: element_id@,
        }),
{
    let source_id = match source {
        Some(s) => s.to_owned(),
        None => own_source.to_owned(),
    };
    ElementReference { source_id, element_id: element_id.to_owned() }
}

/// The element that a value describes.
pub fn create_element_from_json(element: &Json, source_id: &str, ts_ns: u64) -> (r: Element)
    ensures
        r@ == element_of(element@, source_id@, ts_ns),
{
    let metadata = element_metadata(element, source_id, ts_ns);
    let properties = extract_properties(element);
    let start = get_either_str(element, "startId", "start_id");
    let end = get_either_str(element, "endId", "end_id");
    match (start, end) {
        (Some(start_id), Some(end_id)) => {
            let start_source = get_either_str(element, "startSourceId", "start_source_id");
            let end_source = get_either_str(element, "endSourceId", "end_source_id");
            Element::Relation {
                metadata,
                in_node: reference(start_source, source_id, start_id),
                out_node: reference(end_source, source_id, end_id),
                properties,
            }
        },
        _ => Element::Node { metadata, properties },
    }
}

/// The kind of change that an operation names.
fn parse_change_type(op: &str) -> (r: ChangeType)
    ensures
        r == change_type_of(op@),
{
    if str_equal(op, "i") || str_equal(op, "insert") {
        ChangeType::Insert
    } else if str_equal(op, "u") || str_equal(op, "update") {
        ChangeType::Update
    } else if str_equal(op, "d") || str_equal(op, "delete") {
        ChangeType::Delete
    } else {
        ChangeType::Unspecified
    }
}

/// An event as a gRPC source takes it.
pub fn convert_to_drasi_source_change(event: &SourceChangeEvent, source_id: &str) -> (r:
    SourceChange)
    ensures
        r@ == source_change_of(event@, source_id@),
{
    let change_type = parse_change_type(event.op.as_str());
    let ts_ns = event.payload.source.ts_ns;
    let before = &event.payload.before;
    let after = &event.payload.after;
    let change = match change_type {
        ChangeType::Delete => if before.is_object() {
            Some(Change::Metadata(element_metadata(before, source_id, ts_ns)))
        } else if after.is_object() {
            Some(Change::Metadata(element_metadata(after, source_id, ts_ns)))
        } else {
            None
        },
        ChangeType::Unspecified => None,
        _ => if after.is_object() {
            Some(Change::Element(create_element_from_json(after, source_id, ts_ns)))
        } else {
            None
        },
    };
    SourceChange {
        change_type,
        change,
        timestamp_seconds: (ts_ns / 1_000_000_000) as i64,
        timestamp_nanos: (ts_ns % 1_000_000_000) as i32,
        source_id: source_id.to_owned(),
    }
}

/// The timestamp of a change is exactly the event's time.
pub proof fn lemma_timestamp_is_exact(event: ChangeEventView, source_id: Seq<char>)
    ensures
        ({
            let change = source_change_of(event, source_id);
            &&& change.timestamp_seconds * 1_000_000_000 + change.timestamp_nanos == event.ts_ns
            &&& 0 <= change.timestamp_nanos < 1_000_000_000
            &&& change.timestamp_seconds >= 0
        }),
{
}

/// A value that was received.
#[derive(Debug)]
pub enum ReceivedValue {
    /// No kind of value was set.
    Unset,
    Null,
    Bool(bool),
    Number(FloatNumber),
    /// A number that is infinite or not a number.
    NotFinite,
    Text(String),
    List(Vec<ReceivedValue>),
    Struct(Vec<(String, ReceivedValue)>),
}

/// What a value that was received says.
pub enum ReceivedView {
    Unset,
    Null,
    Bool(bool),
    Number(Number),
    NotFinite,
    Text(Seq<char>),
    List(Seq<ReceivedView>),
    Struct(Seq<(Seq<char>, ReceivedView)>),
}

impl View for ReceivedValue {
    type V = ReceivedView;

    open spec fn view(&self) -> ReceivedView {
        received_model(*self)
    }
}

/// What a value that was received says.
pub open spec fn received_model(value: ReceivedValue) -> ReceivedView
    decreases value,
{
    match value {
        ReceivedValue::Unset => ReceivedView::Unset,
        ReceivedValue::Null => ReceivedView::Null,
        ReceivedValue::Bool(b) => ReceivedView::Bool(b),
        ReceivedValue::Number(f) => ReceivedView::Number(f@),
        ReceivedValue::NotFinite => ReceivedView::NotFinite,
        ReceivedValue::Text(s) => ReceivedView::Text(s@),
        ReceivedValue::List(items) => ReceivedView::List(
            Seq::new(
                items@.len(),
                |i: int|
                    if 0 <= i < items@.len() {
                        received_model(items@[i])
                    } else {
                        ReceivedView::Null
                    },
            ),
        ),
        ReceivedValue::Struct(fields) => ReceivedView::Struct(
            Seq::new(
                fields@.len(),
                |i: int|
                    if 0 <= i < fields@.len() {
                        received_field_model(fields@[i])
                    } else {
                        arbitrary()
                    },
            ),
        ),
    }
}

/// What a field that was received says.
pub open spec fn received_field_model(field: (String, ReceivedValue)) -> (Seq<char>, ReceivedView)
    decreases field,
{
    (field.0@, received_model(field.1))
}

/// The views of a list of values.
pub open spec fn received_views(items: Seq<ReceivedValue>) -> Seq<ReceivedView> {
    Seq::new(items.len(), |i: int| items[i]@)
}

pub proof fn lemma_received_list_view(items: Vec<ReceivedValue>)
    ensures
        ReceivedValue::List(items)@ == ReceivedView::List(received_views(items@)),
{
    assert(ReceivedValue::List(items)@->List_0 =~= received_views(items@));
}

pub proof fn lemma_received_struct_view(fields: Vec<(String, ReceivedValue)>)
    ensures
        ReceivedValue::Struct(fields)@ == ReceivedView::Struct(entry_views(fields@)),
{
    let seen = ReceivedValue::Struct(fields)@->Struct_0;
    assert forall|i: int| 0 <= i < fields@.len() implies seen[i] == #[trigger] entry_views(fields@)[i] by {
        assert(received_field_model(fields@[i]) == (fields@[i].0@, fields@[i].1@));
    }
    assert(seen =~= entry_views(fields@));
}

/// A value that was received, as JSON. There is none for a number that is not finite or for
/// no value; lists and structs leave such values out.
pub open spec fn json_of(value: ReceivedView) -> Option<JsonView>
    decreases value,
{
    match value {
        ReceivedView::Unset => None,
        ReceivedView::Null => Some(JsonView::Null),
        ReceivedView::Bool(b) => Some(JsonView::Bool(b)),
        ReceivedView::Number(n) => Some(JsonView::Float(n)),
        ReceivedView::NotFinite => None,
        ReceivedView::Text(s) => Some(JsonView::Text(s)),
        ReceivedView::List(items) => Some(JsonView::Array(json_items(items))),
        ReceivedView::Struct(fields) => Some(
            JsonView::Object(listing::<String, JsonView>(to_map(json_fields(fields)))),
        ),
    }
}

/// The items that there is JSON for.
pub open spec fn json_items(items: Seq<ReceivedView>) -> Seq<JsonView>
    decreases items,
{
    if items.len() == 0 {
        Seq::empty()
    } else {
        let front = json_items(items.subrange(0, items.len() - 1));
        match json_of(items[items.len() - 1]) {
            Some(json) => front.push(json),
            None => front,
        }
    }
}

/// The fields that there is JSON for.
pub open spec fn json_fields(fields: Seq<(Seq<char>, ReceivedView)>) -> Seq<(Seq<char>, JsonView)>
    decreases fields,
{
    if fields.len() == 0 {
        Seq::empty()
    } else {
        let front = json_fields(fields.subrange(0, fields.len() - 1));
        let last = fields[fields.len() - 1];
        match json_of(last.1) {
            Some(json) => front.push((last.0, json)),
            None => front,
        }
    }
}

/// A value that was received, as JSON.
pub fn proto_value_to_json(value: &ReceivedValue) -> (r: Option<Json>)
    ensures
        match r {
            Some(json) => json_of(value@) == Some(json@),
            None => json_of(value@) is None,
        },
    decreases value@,
{
    broadcast use {lemma_array_view, lemma_object_view};

    match value {
        ReceivedValue::Unset => None,
        ReceivedValue::Null => Some(Json::Null),
        ReceivedValue::Bool(b) => Some(Json::Bool(*b)),
        ReceivedValue::Number(f) => Some(Json::Float(f.copy())),
        ReceivedValue::NotFinite => None,
        ReceivedValue::Text(s) => Some(Json::Text(s.clone())),
        ReceivedValue::List(items) => {
            proof {
                lemma_received_list_view(*items);
            }
            let ghost models = value@->List_0;
            let mut out: Vec<Json> = Vec::new();
            let mut i: usize = 0;
            assert(json_views(out@) =~= Seq::<JsonView>::empty());
            while i < items.len()
                invariant
                    0 <= i <= items@.len(),
                    value@ is List,
                    models == value@->List_0,
                    models == received_views(items@),
                    json_views(out@) == json_items(models.subrange(0, i as int)),
                decreases items@.len() - i,
            {
                proof {
                    let k = i as int;
                    assert(items@[k]@ == models[k]);
                    assert(decreases_to!(value@ => models));
                    assert(models.subrange(0, k + 1).subrange(0, k) =~= models.subrange(0, k));
                }
                match proto_value_to_json(&items[i]) {
                    Some(json) => {
                        let ghost before = json_views(out@);
                        out.push(json);
                        assert(json_views(out@) =~= before.push(json@));
                    },
                    None => {},
                }
                i = i + 1;
            }
            assert(models.subrange(0, models.len() as int) =~= models);
            Some(Json::Array(out))
        },
        ReceivedValue::Struct(fields) => {
            proof {
                lemma_received_struct_view(*fields);
            }
            let ghost models = value@->Struct_0;
            let mut map: OrderedMap<String, Json> = OrderedMap::new();
            let mut i: usize = 0;
            while i < fields.len()
                invariant
                    0 <= i <= fields@.len(),
                    value@ is Struct,
                    models == value@->Struct_0,
                    models == entry_views(fields@),
                    map.wf(),
                    map@ == to_map(json_fields(models.subrange(0, i as int))),
                decreases fields@.len() - i,
            {
                proof {
                    let k = i as int;
                    let m = models[k];
                    assert(m == (fields@[k].0@, fields@[k].1@));
                    assert(decreases_to!(value@ => models));
                    assert(decreases_to!(models => m));
                    assert(decreases_to!(m => m.1));
                    assert(models.subrange(0, k + 1).subrange(0, k) =~= models.subrange(0, k));
                }
                match proto_value_to_json(&fields[i].1) {
                    Some(json) => {
                        proof {
                            let k = i as int;
                            let t = json_fields(models.subrange(0, k + 1));
                            assert(t.drop_last() =~= json_fields(models.subrange(0, k)));
                            assert(t.last() == (fields@[k].0@, json@));
                        }
                        map.insert(fields[i].0.clone(), json);
                    },
                    None => {},
                }
                i = i + 1;
            }
            assert(models.subrange(0, models.len() as int) =~= models);
            Some(Json::Object(map.into_entries()))
        },
    }
}

/// The fields of a struct that was received, as JSON, in order of their names.
pub open spec fn struct_json(fields: Seq<(Seq<char>, ReceivedView)>) -> Seq<(Seq<char>, JsonView)> {
    listing::<String, JsonView>(to_map(json_fields(fields)))
}

/// The fields of a struct that was received, as JSON.
fn struct_entries(fields: &Vec<(String, ReceivedValue)>) -> (r: Vec<(String, Json)>)
    ensures
        entry_views(r@) == struct_json(entry_views(fields@)),
{
    let ghost models = entry_views(fields@);
    let mut map: OrderedMap<String, Json> = OrderedMap::new();
    let mut i: usize = 0;
    while i < fields.len()
        invariant
            0 <= i <= fields@.len(),
            models == entry_views(fields@),
            map.wf(),
            map@ == to_map(json_fields(models.subrange(0, i as int))),
        decreases fields@.len() - i,
    {
        proof {
            let k = i as int;
            assert(models[k] == (fields@[k].0@, fields@[k].1@));
            assert(models.subrange(0, k + 1).subrange(0, k) =~= models.subrange(0, k));
        }
        match proto_value_to_json(&fields[i].1) {
            Some(json) => {
                proof {
                    let k = i as int;
                    let t = json_fields(models.subrange(0, k + 1));
                    assert(t.drop_last() =~= json_fields(models.subrange(0, k)));
                    assert(t.last() == (fields@[k].0@, json@));
                }
                map.insert(fields[i].0.clone(), json);
            },
            None => {},
        }
        i = i + 1;
    }
    assert(models.subrange(0, models.len() as int) =~= models);
    map.into_entries()
}

/// A struct that was received, as JSON.
pub fn proto_struct_to_json(fields: &Vec<(String, ReceivedValue)>) -> (r: Json)
    ensures
        r@ == JsonView::Object(struct_json(entry_views(fields@))),
{
    broadcast use lemma_object_view;

    Json::Object(struct_entries(fields))
}

/// One change of a query's result.
#[derive(Debug)]
pub struct QueryResultItem {
    pub item_type: String,
    pub data: Option<Vec<(String, ReceivedValue)>>,
    pub before: Option<Vec<(String, ReceivedValue)>>,
    pub after: Option<Vec<(String, ReceivedValue)>>,
}

/// The fields of an optional struct.
pub open spec fn optional_fields(fields: Option<Vec<(String, ReceivedValue)>>) -> Option<
    Seq<(Seq<char>, ReceivedView)>,
> {
    match fields {
        Some(fields) => Some(entry_views(fields@)),
        None => None,
    }
}

/// A field for an optional struct.
pub open spec fn optional_field(key: Seq<char>, fields: Option<Vec<(String, ReceivedValue)>>) -> Seq<
    (Seq<char>, JsonView),
> {
    match optional_fields(fields) {
        Some(fields) => seq![(key, JsonView::Object(struct_json(fields)))],
        None => Seq::empty(),
    }
}

/// The fields of a change as a reaction sees it: its type, its data, and for an update the
/// rows before and after. A later field replaces an earlier one of its name.
pub open spec fn item_fields(item: QueryResultItem) -> Seq<(Seq<char>, JsonView)> {
    let start = seq![("type"@, JsonView::Text(item.item_type@))];
    let data = match optional_fields(item.data) {
        Some(fields) => struct_json(fields),
        None => Seq::empty(),
    };
    if item.item_type@ == "UPDATE"@ {
        start + data + optional_field("before"@, item.before) + optional_field(
            "after"@,
            item.after,
        )
    } else {
        start + data
    }
}

/// A change as a reaction sees it.
pub open spec fn item_json(item: QueryResultItem) -> JsonView {
    JsonView::Object(listing::<String, JsonView>(to_map(item_fields(item))))
}

/// Sets a field of an object that is being built.
fn set_field(
    map: &mut OrderedMap<String, Json>,
    fields: Ghost<Seq<(Seq<char>, JsonView)>>,
    key: String,
    value: Json,
)
    requires
        old(map).wf(),
        old(map)@ == to_map(fields@),
    ensures
        final(map).wf(),
        final(map)@ == to_map(fields@.push((key@, value@))),
{
    proof {
        let next = fields@.push((key@, value@));
        assert(next.drop_last() =~= fields@);
    }
    map.insert(key, value);
}

/// A change as a reaction sees it.
fn convert_item(item: &QueryResultItem) -> (r: Json)
    ensures
        r@ == item_json(*item),
{
    broadcast use lemma_object_view;

    let mut map: OrderedMap<String, Json> = OrderedMap::new();
    let ghost mut fields: Seq<(Seq<char>, JsonView)> = Seq::empty();
    set_field(&mut map, Ghost(fields), "type".to_owned(), Json::Text(item.item_type.clone()));
    let ghost start = seq![("type"@, JsonView::Text(item.item_type@))];
    proof {
        fields = fields.push(("type"@, JsonView::Text(item.item_type@)));
        assert(fields =~= start);
    }
    match &item.data {
        Some(data) => {
            let entries = struct_entries(data);
            let ghost views = entry_views(entries@);
            assert(fields =~= start + views.take(0));
            for entry in it: entries
                invariant
                    it.seq() == entries@,
                    views == entry_views(entries@),
                    map.wf(),
                    map@ == to_map(fields),
                    fields == start + views.take(it.index()),
            {
                let (key, value) = entry;
                let ghost field = (key@, value@);
                set_field(&mut map, Ghost(fields), key, value);
                proof {
                    assert(field == views[it.index()]);
                    fields = fields.push(field);
                    assert(fields =~= start + views.take(it.index() + 1));
                }
            }
            assert(views.take(views.len() as int) =~= views);
        },
        None => {
            assert(fields =~= start + Seq::<(Seq<char>, JsonView)>::empty());
        },
    }
    if str_equal(item.item_type.as_str(), "UPDATE") {
        let ghost so_far = fields;
        match &item.before {
            Some(before) => {
                let value = proto_struct_to_json(before);
                let ghost field = ("before"@, value@);
                set_field(&mut map, Ghost(fields), "before".to_owned(), value);
                proof {
                    fields = fields.push(field);
                    assert(fields =~= so_far + optional_field("before"@, item.before));
                }
            },
            None => {
                assert(fields =~= so_far + optional_field("before"@, item.before));
            },
        }
        let ghost so_far = fields;
        match &item.after {
            Some(after) => {
                let value = proto_struct_to_json(after);
                let ghost field = ("after"@, value@);
                set_field(&mut map, Ghost(fields), "after".to_owned(), value);
                proof {
                    fields = fields.push(field);
                    assert(fields =~= so_far + optional_field("after"@, item.after));
                }
            },
            None => {
                assert(fields =~= so_far + optional_field("after"@, item.after));
            },
        }
    }
    assert(fields == item_fields(*item));
    Json::Object(map.into_entries())
}

/// The changes of a query's result as a reaction sees them.
pub fn convert_from_drasi_query_result(results: &Vec<QueryResultItem>) -> (r: Vec<Json>)
    ensures
        json_views(r@) == Seq::new(results@.len(), |i: int| item_json(results@[i])),
{
    let mut r: Vec<Json> = Vec::new();
    let mut i: usize = 0;
    while i < results.len()
        invariant
            0 <= i <= results@.len(),
            r@.len() == i,
            forall|j: int| 0 <= j < i ==> (#[trigger] r@[j])@ == item_json(results@[j]),
        decreases results@.len() - i,
    {
        r.push(convert_item(&results[i]));
        i = i + 1;
    }
    assert(json_views(r@) =~= Seq::new(results@.len(), |i: int| item_json(results@[i])));
    r
}

/// Every number of a value is a floating-point number.
pub open spec fn only_floats(json: JsonView) -> bool
    decreases json,
{
    match json {
        JsonView::Integer(_) => false,
        JsonView::Array(items) => forall|i: int|
            0 <= i < items.len() ==> only_floats(#[trigger] items[i]),
        JsonView::Object(fields) => forall|i: int|
            0 <= i < fields.len() ==> only_floats((#[trigger] fields[i]).1),
        _ => true,
    }
}

/// A value that was sent is received as another: the same value, with the same items in the same
/// order and the same fields.
pub open spec fn arrives_as(sent: ProtoView, received: ReceivedView) -> bool
    decreases sent,
{
    match (sent, received) {
        (ProtoView::Null, ReceivedView::Null) => true,
        (ProtoView::Bool(a), ReceivedView::Bool(b)) => a == b,
        (ProtoView::Float(a), ReceivedView::Number(b)) => a == b,
        (ProtoView::Text(a), ReceivedView::Text(b)) => a == b,
        (ProtoView::List(a), ReceivedView::List(b)) => a.len() == b.len() && forall|i: int|
            0 <= i < a.len() ==> arrives_as(#[trigger] a[i], b[i]),
        (ProtoView::Struct(a), ReceivedView::Struct(b)) => a.len() == b.len() && forall|i: int|
            0 <= i < a.len() ==> (#[trigger] a[i]).0 == b[i].0 && arrives_as(a[i].1, b[i].1),
        _ => false,
    }
}

pub proof fn lemma_proto_items(items: Seq<JsonView>)
    ensures
        proto_items(items).len() == items.len(),
        forall|i: int|
            0 <= i < items.len() ==> #[trigger] proto_items(items)[i] == proto_of(items[i]),
    decreases items.len(),
{
    if items.len() > 0 {
        let rest = items.subrange(0, items.len() - 1);
        lemma_proto_items(rest);
        assert forall|i: int| 0 <= i < items.len() implies #[trigger] proto_items(items)[i]
            == proto_of(items[i]) by {
            if i < rest.len() {
                assert(rest[i] == items[i]);
                assert(proto_items(rest)[i] == proto_of(rest[i]));
            }
        }
    }
}

pub proof fn lemma_proto_fields(fields: Seq<(Seq<char>, JsonView)>)
    ensures
        proto_fields(fields).len() == fields.len(),
        forall|i: int|
            0 <= i < fields.len() ==> #[trigger] proto_fields(fields)[i] == (
                fields[i].0,
                proto_of(fields[i].1),
            ),
    decreases fields.len(),
{
    if fields.len() > 0 {
        let rest = fields.subrange(0, fields.len() - 1);
        lemma_proto_fields(rest);
        assert forall|i: int| 0 <= i < fields.len() implies #[trigger] proto_fields(fields)[i] == (
            fields[i].0,
            proto_of(fields[i].1),
        ) by {
            if i < rest.len() {
                assert(rest[i] == fields[i]);
                assert(proto_fields(rest)[i] == (rest[i].0, proto_of(rest[i].1)));
            }
        }
    }
}

/// Where there is JSON for every item, the list has them all.
pub proof fn lemma_json_items(items: Seq<ReceivedView>, expected: Seq<JsonView>)
    requires
        items.len() == expected.len(),
        forall|i: int|
            0 <= i < items.len() ==> json_of(#[trigger] items[i]) == Some(expected[i]),
    ensures
        json_items(items) == expected,
    decreases items.len(),
{
    if items.len() > 0 {
        let n = items.len() - 1;
        let rest = items.subrange(0, n);
        let front = expected.subrange(0, n);
        assert forall|i: int| 0 <= i < rest.len() implies json_of(#[trigger] rest[i]) == Some(
            front[i],
        ) by {
            assert(rest[i] == items[i]);
        }
        lemma_json_items(rest, front);
        assert(json_of(items[n]) == Some(expected[n]));
        assert(front.push(expected[n]) =~= expected);
    } else {
        assert(expected =~= Seq::empty());
    }
}

/// Where there is JSON for every field, the object has them all.
pub proof fn lemma_json_fields(
    fields: Seq<(Seq<char>, ReceivedView)>,
    expected: Seq<(Seq<char>, JsonView)>,
)
    requires
        fields.len() == expected.len(),
        forall|i: int|
            0 <= i < fields.len() ==> (#[trigger] fields[i]).0 == expected[i].0 && json_of(
                fields[i].1,
            ) == Some(expected[i].1),
    ensures
        json_fields(fields) == expected,
    decreases fields.len(),
{
    if fields.len() > 0 {
        let n = fields.len() - 1;
        let rest = fields.subrange(0, n);
        let front = expected.subrange(0, n);
        assert forall|i: int| 0 <= i < rest.len() implies (#[trigger] rest[i]).0 == front[i].0
            && json_of(rest[i].1) == Some(front[i].1) by {
            assert(rest[i] == fields[i]);
        }
        lemma_json_fields(rest, front);
        assert(fields[n].0 == expected[n].0);
        assert(front.push(expected[n]) =~= expected);
    } else {
        assert(expected =~= Seq::empty());
    }
}

/// A value whose numbers are all floating-point numbers comes back as it was sent. An integer
/// comes back as a floating-point number.
pub proof fn lemma_values_survive_the_way(json: JsonView, received: ReceivedView)
    requires
        keys_sorted(json),
        only_floats(json),
        arrives_as(proto_of(json), received),
    ensures
        json_of(received) == Some(json),
    decreases json,
{
    match (json, received) {
        (JsonView::Array(items), ReceivedView::List(list)) => {
            lemma_proto_items(items);
            assert forall|i: int| 0 <= i < list.len() implies json_of(#[trigger] list[i]) == Some(
                items[i],
            ) by {
                assert(arrives_as(proto_items(items)[i], list[i]));
                assert(keys_sorted(items[i]) && only_floats(items[i]));
                assert(decreases_to!(json => items));
                assert(decreases_to!(items => items[i]));
                lemma_values_survive_the_way(items[i], list[i]);
            }
            lemma_json_items(list, items);
        },
        (JsonView::Object(fields), ReceivedView::Struct(list)) => {
            lemma_proto_fields(fields);
            let sent = proto_fields(fields);
            assert forall|i: int, j: int| 0 <= i < j < sent.len() implies <String as OrderedKey>::before(
                (#[trigger] sent[i]).0,
                (#[trigger] sent[j]).0,
            ) by {
                assert(sent[i].0 == fields[i].0 && sent[j].0 == fields[j].0);
            }
            assert(ascending::<String, ProtoView>(sent));
            lemma_listing::<String, ProtoView>(sent, to_map(sent));
            assert forall|i: int| 0 <= i < list.len() implies (#[trigger] list[i]).0 == fields[i].0
                && json_of(list[i].1) == Some(fields[i].1) by {
                assert(sent[i].0 == list[i].0 && arrives_as(sent[i].1, list[i].1));
                assert(keys_sorted(fields[i].1) && only_floats(fields[i].1));
                assert(decreases_to!(json => fields));
                assert(decreases_to!(fields => fields[i]));
                assert(decreases_to!(fields[i] => fields[i].1));
                lemma_values_survive_the_way(fields[i].1, list[i].1);
            }
            lemma_json_fields(list, fields);
            lemma_listing::<String, JsonView>(fields, to_map(fields));
        },
        _ => {},
    }
}

} // verus!
