//! Nodes and relations of a model, and how they are inserted.

use crate::json::{json_views, lemma_array_view, lemma_object_view, Json, JsonView};
use crate::ordered::entry_views;
use crate::scripts::{NodeRecord, NodeView};
use crate::sources::model_data_generators::change_stream::{ElementInsert, ElementView};
use crate::text::texts;
use vstd::prelude::*;

verus! {

/// A relation between two nodes of a model.
#[derive(Debug)]
pub struct GraphRelation {
    pub id: String,
    pub labels: Vec<String>,
    pub start_id: String,
    pub end_id: String,
}

/// What a relation between two nodes says.
pub struct GraphRelationView {
    pub id: Seq<char>,
    pub labels: Seq<Seq<char>>,
    pub start_id: Seq<char>,
    pub end_id: Seq<char>,
}

impl View for GraphRelation {
    type V = GraphRelationView;

    open spec fn view(&self) -> GraphRelationView {
        GraphRelationView {
            id: self.id@,
            labels: texts(self.labels@),
            start_id: self.start_id@,
            end_id: self.end_id@,
        }
    }
}

/// An object without fields.
pub open spec fn empty_object() -> JsonView {
    JsonView::Object(Seq::empty())
}

/// Labels as a value.
pub open spec fn labels_json(labels: Seq<Seq<char>>) -> JsonView {
    JsonView::Array(Seq::new(labels.len(), |i: int| JsonView::Text(labels[i])))
}

/// A node as it is inserted.
pub open spec fn node_insert_of(node: NodeView) -> ElementView {
    ElementView {
        is_relation: false,
        after: JsonView::Object(
            seq![
                ("id"@, JsonView::Text(node.id)),
                ("labels"@, labels_json(node.labels)),
                ("properties"@, node.properties),
            ],
        ),
    }
}

/// A relation as it is inserted.
pub open spec fn relation_insert_of(relation: GraphRelationView) -> ElementView {
    ElementView {
        is_relation: true,
        after: JsonView::Object(
            seq![
                ("id"@, JsonView::Text(relation.id)),
                ("labels"@, labels_json(relation.labels)),
                ("properties"@, empty_object()),
                ("start_id"@, JsonView::Text(relation.start_id)),
                ("end_id"@, JsonView::Text(relation.end_id)),
            ],
        ),
    }
}

/// The node without its properties.
pub open spec fn bare(node: NodeView) -> NodeView {
    NodeView { properties: empty_object(), ..node }
}

/// An object without fields.
pub fn no_properties() -> (r: Json)
    ensures
        r@ == empty_object(),
{
    broadcast use lemma_object_view;

    let fields: Vec<(String, Json)> = Vec::new();
    assert(entry_views(fields@) =~= Seq::empty());
    Json::Object(fields)
}

/// Labels as a value.
fn labels_value(labels: &Vec<String>) -> (r: Json)
    ensures
        r@ == labels_json(texts(labels@)),
{
    broadcast use lemma_array_view;

    let mut items: Vec<Json> = Vec::new();
    let mut i: usize = 0;
    while i < labels.len()
        invariant
            0 <= i <= labels@.len(),
            items@.len() == i,
            forall|j: int| 0 <= j < i ==> (#[trigger] items@[j])@ == JsonView::Text(labels@[j]@),
        decreases labels@.len() - i,
    {
        items.push(Json::Text(labels[i].clone()));
        i = i + 1;
    }
    assert(json_views(items@) =~= labels_json(texts(labels@))->Array_0);
    Json::Array(items)
}

/// A node, with the given properties, as it is inserted.
pub fn node_insert(node: &NodeRecord, properties: Json) -> (r: ElementInsert)
    ensures
        r@ == node_insert_of(NodeView { properties: properties@, ..node@ }),
{
    broadcast use lemma_object_view;

    let ghost expected = node_insert_of(NodeView { properties: properties@, ..node@ });
    let fields = vec![
        ("id".to_owned(), Json::Text(node.id.clone())),
        ("labels".to_owned(), labels_value(&node.labels)),
        ("properties".to_owned(), properties),
    ];
    assert(entry_views(fields@) =~= expected.after->Object_0);
    ElementInsert { is_relation: false, after: Json::Object(fields) }
}

/// A relation as it is inserted.
pub fn relation_insert(relation: &GraphRelation) -> (r: ElementInsert)
    ensures
        r@ == relation_insert_of(relation@),
{
    broadcast use lemma_object_view;

    let fields = vec![
        ("id".to_owned(), Json::Text(relation.id.clone())),
        ("labels".to_owned(), labels_value(&relation.labels)),
        ("properties".to_owned(), no_properties()),
        ("start_id".to_owned(), Json::Text(relation.start_id.clone())),
        ("end_id".to_owned(), Json::Text(relation.end_id.clone())),
    ];
    assert(entry_views(fields@) =~= relation_insert_of(relation@).after->Object_0);
    ElementInsert { is_relation: true, after: Json::Object(fields) }
}

} // verus!
