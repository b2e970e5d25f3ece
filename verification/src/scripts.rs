//! The change events and bootstrap records that sources produce.

use crate::json::{Json, JsonView};
use crate::text::{copy_texts, texts};
use vstd::prelude::*;

verus! {

/// Where a change comes from.
#[derive(Debug)]
pub struct SourceChangeEventSourceInfo {
    pub db: String,
    pub lsn: u64,
    pub table: String,
    pub ts_ns: u64,
}

/// What changed.
#[derive(Debug)]
pub struct SourceChangeEventPayload {
    pub source: SourceChangeEventSourceInfo,
    pub before: Json,
    pub after: Json,
}

/// A change of a source's data.
#[derive(Debug)]
pub struct SourceChangeEvent {
    pub op: String,
    pub reactivator_start_ns: u64,
    pub reactivator_end_ns: u64,
    pub payload: SourceChangeEventPayload,
}

/// What a change of a source's data says.
pub struct ChangeEventView {
    pub op: Seq<char>,
    pub reactivator_start_ns: u64,
    pub reactivator_end_ns: u64,
    pub db: Seq<char>,
    pub lsn: u64,
    pub table: Seq<char>,
    pub ts_ns: u64,
    pub before: JsonView,
    pub after: JsonView,
}

impl View for SourceChangeEvent {
    type V = ChangeEventView;

    open spec fn view(&self) -> ChangeEventView {
        ChangeEventView {
            op: self.op@,
            reactivator_start_ns: self.reactivator_start_ns,
            reactivator_end_ns: self.reactivator_end_ns,
            db: self.payload.source.db@,
            lsn: self.payload.source.lsn,
            table: self.payload.source.table@,
            ts_ns: self.payload.source.ts_ns,
            before: self.payload.before@,
            after: self.payload.after@,
        }
    }
}

impl SourceChangeEvent {
    /// A copy.
    pub fn copy(&self) -> (r: SourceChangeEvent)
        ensures
            r@ == self@,
    {
        SourceChangeEvent {
            op: self.op.clone(),
            reactivator_start_ns: self.reactivator_start_ns,
            reactivator_end_ns: self.reactivator_end_ns,
            payload: SourceChangeEventPayload {
                source: SourceChangeEventSourceInfo {
                    db: self.payload.source.db.clone(),
                    lsn: self.payload.source.lsn,
                    table: self.payload.source.table.clone(),
                    ts_ns: self.payload.source.ts_ns,
                },
                before: self.payload.before.copy(),
                after: self.payload.after.copy(),
            },
        }
    }
}

/// The views of a list of events.
pub open spec fn event_views(events: Seq<SourceChangeEvent>) -> Seq<ChangeEventView> {
    Seq::new(events.len(), |i: int| events[i]@)
}

/// A node of the initial data.
#[derive(Debug)]
pub struct NodeRecord {
    pub id: String,
    pub labels: Vec<String>,
    pub properties: Json,
}

/// What a node of the initial data says.
pub struct NodeView {
    pub id: Seq<char>,
    pub labels: Seq<Seq<char>>,
    pub properties: JsonView,
}

impl View for NodeRecord {
    type V = NodeView;

    open spec fn view(&self) -> NodeView {
        NodeView { id: self.id@, labels: texts(self.labels@), properties: self.properties@ }
    }
}

impl NodeRecord {
    /// A copy.
    pub fn copy(&self) -> (r: NodeRecord)
        ensures
            r@ == self@,
    {
        NodeRecord {
            id: self.id.clone(),
            labels: copy_texts(&self.labels),
            properties: self.properties.copy(),
        }
    }
}

/// A relation of the initial data.
#[derive(Debug)]
pub struct RelationRecord {
    pub id: String,
    pub labels: Vec<String>,
    pub properties: Json,
    pub start_id: String,
    pub start_label: Option<String>,
    pub end_id: String,
    pub end_label: Option<String>,
}

/// What a relation of the initial data says.
pub struct RelationView {
    pub id: Seq<char>,
    pub labels: Seq<Seq<char>>,
    pub properties: JsonView,
    pub start_id: Seq<char>,
    pub start_label: Option<Seq<char>>,
    pub end_id: Seq<char>,
    pub end_label: Option<Seq<char>>,
}

impl View for RelationRecord {
    type V = RelationView;

    open spec fn view(&self) -> RelationView {
        RelationView {
            id: self.id@,
            labels: texts(self.labels@),
            properties: self.properties@,
            start_id: self.start_id@,
            start_label: match self.start_label {
                Some(label) => Some(label@),
                None => None,
            },
            end_id: self.end_id@,
            end_label: match self.end_label {
                Some(label) => Some(label@),
                None => None,
            },
        }
    }
}

/// The initial data of a source: the nodes and the relations under their labels.
#[derive(Debug)]
pub struct BootstrapData {
    pub nodes: Vec<(String, Vec<NodeRecord>)>,
    pub rels: Vec<(String, Vec<RelationRecord>)>,
}

/// What the initial data of a source say.
pub struct BootstrapView {
    pub nodes: Seq<(Seq<char>, Seq<NodeView>)>,
    pub rels: Seq<(Seq<char>, Seq<RelationView>)>,
}

/// The views of a list of nodes.
pub open spec fn node_views(nodes: Seq<NodeRecord>) -> Seq<NodeView> {
    Seq::new(nodes.len(), |i: int| nodes[i]@)
}

/// The views of a list of relations.
pub open spec fn relation_views(relations: Seq<RelationRecord>) -> Seq<RelationView> {
    Seq::new(relations.len(), |i: int| relations[i]@)
}

impl View for BootstrapData {
    type V = BootstrapView;

    open spec fn view(&self) -> BootstrapView {
        BootstrapView {
            nodes: Seq::new(
                self.nodes@.len(),
                |i: int| (self.nodes@[i].0@, node_views(self.nodes@[i].1@)),
            ),
            rels: Seq::new(
                self.rels@.len(),
                |i: int| (self.rels@[i].0@, relation_views(self.rels@[i].1@)),
            ),
        }
    }
}

/// The initial data with a group of nodes added, unless the group is empty.
pub open spec fn with_nodes(data: BootstrapView, label: Seq<char>, nodes: Seq<NodeView>) -> BootstrapView {
    if nodes.len() == 0 {
        data
    } else {
        BootstrapView { nodes: data.nodes.push((label, nodes)), ..data }
    }
}

/// The initial data with a group of relations added, unless the group is empty.
pub open spec fn with_relations(
    data: BootstrapView,
    label: Seq<char>,
    relations: Seq<RelationView>,
) -> BootstrapView {
    if relations.len() == 0 {
        data
    } else {
        BootstrapView { rels: data.rels.push((label, relations)), ..data }
    }
}

/// No initial data.
pub open spec fn no_data() -> BootstrapView {
    BootstrapView { nodes: Seq::empty(), rels: Seq::empty() }
}

impl BootstrapData {
    /// No initial data.
    pub fn new() -> (r: BootstrapData)
        ensures
            r@ == no_data(),
    {
        let r = BootstrapData { nodes: Vec::new(), rels: Vec::new() };
        assert(r@.nodes =~= no_data().nodes);
        assert(r@.rels =~= no_data().rels);
        r
    }

    /// Adds a group of nodes, unless it is empty.
    pub fn add_nodes(&mut self, label: &str, nodes: Vec<NodeRecord>)
        ensures
            final(self)@ == with_nodes(old(self)@, label@, node_views(nodes@)),
    {
        if nodes.len() > 0 {
            let ghost before = self@;
            let ghost group = (label@, node_views(nodes@));
            self.nodes.push((label.to_owned(), nodes));
            assert(self@.nodes =~= before.nodes.push(group));
            assert(self@.rels =~= before.rels);
        }
    }

    /// Adds a group of relations, unless it is empty.
    pub fn add_relations(&mut self, label: &str, relations: Vec<RelationRecord>)
        ensures
            final(self)@ == with_relations(old(self)@, label@, relation_views(relations@)),
    {
        if relations.len() > 0 {
            let ghost before = self@;
            let ghost group = (label@, relation_views(relations@));
            self.rels.push((label.to_owned(), relations));
            assert(self@.rels =~= before.rels.push(group));
            assert(self@.nodes =~= before.nodes);
        }
    }
}

} // verus!
