//! What the initial data and the first inserts of a building model hold.

use crate::ids::TestRunSourceId;
use crate::json::{json_get, JsonView};
use crate::json_laws::lemma_fields_are_found;
use crate::scripts::{BootstrapView, NodeView, RelationView};
use crate::sources::model_data_generators::building_hierarchy::{
    are_settings, bootstrap_of, building_floors_of, buildings_of, floor_rooms_of, floors_of,
    insert_of, inserts_of, rooms_of, BuildingHierarchyDataGeneratorSettings, GraphElementType,
    ModelChange,
};
use crate::sources::model_data_generators::change_stream::ElementView;
use crate::sources::model_data_generators::graph_elements::{
    node_insert_of, relation_insert_of, GraphRelationView,
};
use crate::test_repo_storage::models::{
    BuildingHierarchyDataGeneratorDefinition, SourceChangeDispatcherDefinition,
};
use crate::text::texts;
use vstd::prelude::*;

verus! {

/// The buildings are listed in the order in which they are added: those of two lists of
/// changes put together are those of the first, followed by those of the second. Each is listed
/// as it is added, and nothing else is.
pub proof fn lemma_buildings_keep_their_order(
    a: Seq<ModelChange>,
    b: Seq<ModelChange>,
    change: ModelChange,
)
    ensures
        buildings_of(a + b) == buildings_of(a) + buildings_of(b),
        match change {
            ModelChange::BuildingAdded(node) => buildings_of(seq![change]).len() == 1 && {
                let added = buildings_of(seq![change])[0];
                added.id == node.id@ && added.labels == texts(node.labels@)
                && added.properties == JsonView::Object(Seq::empty())
            },
            _ => buildings_of(seq![change]).len() == 0,
        },
    decreases b.len(),
{
    reveal_with_fuel(buildings_of, 2);
    assert(seq![change].drop_last() =~= Seq::<ModelChange>::empty());
    if b.len() == 0 {
        assert(a + b =~= a);
        assert(buildings_of(a) + buildings_of(b) =~= buildings_of(a));
    } else {
        lemma_buildings_keep_their_order(a, b.drop_last(), change);
        assert((a + b).drop_last() =~= a + b.drop_last());
        assert((a + b).last() == b.last());
        assert(buildings_of(a + b) =~= buildings_of(a) + buildings_of(b));
    }
}

/// The floors are listed in the order in which they are added: those of two lists of
/// changes put together are those of the first, followed by those of the second. Each is listed
/// as it is added, and nothing else is.
pub proof fn lemma_floors_keep_their_order(
    a: Seq<ModelChange>,
    b: Seq<ModelChange>,
    change: ModelChange,
)
    ensures
        floors_of(a + b) == floors_of(a) + floors_of(b),
        match change {
            ModelChange::FloorAdded(node) => floors_of(seq![change]).len() == 1 && {
                let added = floors_of(seq![change])[0];
                added.id == node.id@ && added.labels == texts(node.labels@)
                && added.properties == JsonView::Object(Seq::empty())
            },
            _ => floors_of(seq![change]).len() == 0,
        },
    decreases b.len(),
{
    reveal_with_fuel(floors_of, 2);
    assert(seq![change].drop_last() =~= Seq::<ModelChange>::empty());
    if b.len() == 0 {
        assert(a + b =~= a);
        assert(floors_of(a) + floors_of(b) =~= floors_of(a));
    } else {
        lemma_floors_keep_their_order(a, b.drop_last(), change);
        assert((a + b).drop_last() =~= a + b.drop_last());
        assert((a + b).last() == b.last());
        assert(floors_of(a + b) =~= floors_of(a) + floors_of(b));
    }
}

/// The rooms are listed in the order in which they are added: those of two lists of
/// changes put together are those of the first, followed by those of the second. Each is listed
/// as it is added, and nothing else is.
pub proof fn lemma_rooms_keep_their_order(
    a: Seq<ModelChange>,
    b: Seq<ModelChange>,
    change: ModelChange,
)
    ensures
        rooms_of(a + b) == rooms_of(a) + rooms_of(b),
        match change {
            ModelChange::RoomAdded(node) => rooms_of(seq![change]).len() == 1 && {
                let added = rooms_of(seq![change])[0];
                added.id == node.id@ && added.labels == texts(node.labels@)
                && added.properties == node.properties@
            },
            _ => rooms_of(seq![change]).len() == 0,
        },
    decreases b.len(),
{
    reveal_with_fuel(rooms_of, 2);
    assert(seq![change].drop_last() =~= Seq::<ModelChange>::empty());
    if b.len() == 0 {
        assert(a + b =~= a);
        assert(rooms_of(a) + rooms_of(b) =~= rooms_of(a));
    } else {
        lemma_rooms_keep_their_order(a, b.drop_last(), change);
        assert((a + b).drop_last() =~= a + b.drop_last());
        assert((a + b).last() == b.last());
        assert(rooms_of(a + b) =~= rooms_of(a) + rooms_of(b));
    }
}

/// The relations from buildings to floors are listed in the order in which they are added:
/// those of two lists of changes put together are those of the first, followed by those of the
/// second. Each is listed as it is added, with the labels of its two ends, and nothing else is.
pub proof fn lemma_building_floors_keep_their_order(
    a: Seq<ModelChange>,
    b: Seq<ModelChange>,
    change: ModelChange,
    labels: GraphElementType,
)
    ensures
        building_floors_of(a + b, labels) == building_floors_of(a, labels) + building_floors_of(b, labels),
        match change {
            ModelChange::BuildingFloorRelationAdded(relation) => building_floors_of(seq![change], labels).len() == 1 && {
                let added = building_floors_of(seq![change], labels)[0];
                added.id == relation.id@ && added.labels == texts(
                    relation.labels@,
                ) && added.properties == JsonView::Object(Seq::empty()) && added.start_id
                    == relation.start_id@ && added.end_id == relation.end_id@ && added.start_label
                    == Some(labels.building@) && added.end_label == Some(labels.floor@)
            },
            _ => building_floors_of(seq![change], labels).len() == 0,
        },
    decreases b.len(),
{
    reveal_with_fuel(building_floors_of, 2);
    assert(seq![change].drop_last() =~= Seq::<ModelChange>::empty());
    if b.len() == 0 {
        assert(a + b =~= a);
        assert(building_floors_of(a, labels) + building_floors_of(b, labels) =~= building_floors_of(a, labels));
    } else {
        lemma_building_floors_keep_their_order(a, b.drop_last(), change, labels);
        assert((a + b).drop_last() =~= a + b.drop_last());
        assert((a + b).last() == b.last());
        assert(building_floors_of(a + b, labels) =~= building_floors_of(a, labels) + building_floors_of(b, labels));
    }
}

/// The relations from floors to rooms are listed in the order in which they are added:
/// those of two lists of changes put together are those of the first, followed by those of the
/// second. Each is listed as it is added, with the labels of its two ends, and nothing else is.
pub proof fn lemma_floor_rooms_keep_their_order(
    a: Seq<ModelChange>,
    b: Seq<ModelChange>,
    change: ModelChange,
    labels: GraphElementType,
)
    ensures
        floor_rooms_of(a + b, labels) == floor_rooms_of(a, labels) + floor_rooms_of(b, labels),
        match change {
            ModelChange::FloorRoomRelationAdded(relation) => floor_rooms_of(seq![change], labels).len() == 1 && {
                let added = floor_rooms_of(seq![change], labels)[0];
                added.id == relation.id@ && added.labels == texts(
                    relation.labels@,
                ) && added.properties == JsonView::Object(Seq::empty()) && added.start_id
                    == relation.start_id@ && added.end_id == relation.end_id@ && added.start_label
                    == Some(labels.floor@) && added.end_label == Some(labels.room@)
            },
            _ => floor_rooms_of(seq![change], labels).len() == 0,
        },
    decreases b.len(),
{
    reveal_with_fuel(floor_rooms_of, 2);
    assert(seq![change].drop_last() =~= Seq::<ModelChange>::empty());
    if b.len() == 0 {
        assert(a + b =~= a);
        assert(floor_rooms_of(a, labels) + floor_rooms_of(b, labels) =~= floor_rooms_of(a, labels));
    } else {
        lemma_floor_rooms_keep_their_order(a, b.drop_last(), change, labels);
        assert((a + b).drop_last() =~= a + b.drop_last());
        assert((a + b).last() == b.last());
        assert(floor_rooms_of(a + b, labels) =~= floor_rooms_of(a, labels) + floor_rooms_of(b, labels));
    }
}

/// The buildings listed are those that were added.
pub proof fn lemma_listed_buildings(changes: Seq<ModelChange>, id: Seq<char>)
    ensures
        (exists|k: int| 0 <= k < buildings_of(changes).len() && (#[trigger] buildings_of(changes)[k]).id == id) <==> (
        exists|i: int|
            0 <= i < changes.len() && (#[trigger] changes[i] matches ModelChange::BuildingAdded(node)
                && node.id@ == id)),
    decreases changes.len(),
{
    if changes.len() > 0 {
        let rest = changes.drop_last();
        lemma_listed_buildings(rest, id);
        let listed = buildings_of(changes);
        let before = buildings_of(rest);
        if exists|k: int| 0 <= k < listed.len() && (#[trigger] listed[k]).id == id {
            let k = choose|k: int| 0 <= k < listed.len() && (#[trigger] listed[k]).id == id;
            if k < before.len() {
                assert(before[k].id == id);
                let i = choose|i: int|
                    0 <= i < rest.len() && (#[trigger] rest[i] matches ModelChange::BuildingAdded(node)
                        && node.id@ == id);
                assert(changes[i] == rest[i]);
            } else {
                assert(changes[changes.len() - 1] == changes.last());
            }
        }
        if exists|i: int|
            0 <= i < changes.len() && (#[trigger] changes[i] matches ModelChange::BuildingAdded(node)
                && node.id@ == id) {
            let i = choose|i: int|
                0 <= i < changes.len() && (#[trigger] changes[i] matches ModelChange::BuildingAdded(node)
                    && node.id@ == id);
            if i < rest.len() {
                assert(rest[i] == changes[i]);
                let k = choose|k: int| 0 <= k < before.len() && (#[trigger] before[k]).id == id;
                assert(listed[k] == before[k]);
            } else {
                assert(listed[listed.len() - 1].id == id);
            }
        }
    }
}

/// The floors listed are those that were added.
pub proof fn lemma_listed_floors(changes: Seq<ModelChange>, id: Seq<char>)
    ensures
        (exists|k: int| 0 <= k < floors_of(changes).len() && (#[trigger] floors_of(changes)[k]).id == id) <==> (
        exists|i: int|
            0 <= i < changes.len() && (#[trigger] changes[i] matches ModelChange::FloorAdded(node)
                && node.id@ == id)),
    decreases changes.len(),
{
    if changes.len() > 0 {
        let rest = changes.drop_last();
        lemma_listed_floors(rest, id);
        let listed = floors_of(changes);
        let before = floors_of(rest);
        if exists|k: int| 0 <= k < listed.len() && (#[trigger] listed[k]).id == id {
            let k = choose|k: int| 0 <= k < listed.len() && (#[trigger] listed[k]).id == id;
            if k < before.len() {
                assert(before[k].id == id);
                let i = choose|i: int|
                    0 <= i < rest.len() && (#[trigger] rest[i] matches ModelChange::FloorAdded(node)
                        && node.id@ == id);
                assert(changes[i] == rest[i]);
            } else {
                assert(changes[changes.len() - 1] == changes.last());
            }
        }
        if exists|i: int|
            0 <= i < changes.len() && (#[trigger] changes[i] matches ModelChange::FloorAdded(node)
                && node.id@ == id) {
            let i = choose|i: int|
                0 <= i < changes.len() && (#[trigger] changes[i] matches ModelChange::FloorAdded(node)
                    && node.id@ == id);
            if i < rest.len() {
                assert(rest[i] == changes[i]);
                let k = choose|k: int| 0 <= k < before.len() && (#[trigger] before[k]).id == id;
                assert(listed[k] == before[k]);
            } else {
                assert(listed[listed.len() - 1].id == id);
            }
        }
    }
}

/// The rooms listed are those that were added.
pub proof fn lemma_listed_rooms(changes: Seq<ModelChange>, id: Seq<char>)
    ensures
        (exists|k: int| 0 <= k < rooms_of(changes).len() && (#[trigger] rooms_of(changes)[k]).id == id) <==> (
        exists|i: int|
            0 <= i < changes.len() && (#[trigger] changes[i] matches ModelChange::RoomAdded(node)
                && node.id@ == id)),
    decreases changes.len(),
{
    if changes.len() > 0 {
        let rest = changes.drop_last();
        lemma_listed_rooms(rest, id);
        let listed = rooms_of(changes);
        let before = rooms_of(rest);
        if exists|k: int| 0 <= k < listed.len() && (#[trigger] listed[k]).id == id {
            let k = choose|k: int| 0 <= k < listed.len() && (#[trigger] listed[k]).id == id;
            if k < before.len() {
                assert(before[k].id == id);
                let i = choose|i: int|
                    0 <= i < rest.len() && (#[trigger] rest[i] matches ModelChange::RoomAdded(node)
                        && node.id@ == id);
                assert(changes[i] == rest[i]);
            } else {
                assert(changes[changes.len() - 1] == changes.last());
            }
        }
        if exists|i: int|
            0 <= i < changes.len() && (#[trigger] changes[i] matches ModelChange::RoomAdded(node)
                && node.id@ == id) {
            let i = choose|i: int|
                0 <= i < changes.len() && (#[trigger] changes[i] matches ModelChange::RoomAdded(node)
                    && node.id@ == id);
            if i < rest.len() {
                assert(rest[i] == changes[i]);
                let k = choose|k: int| 0 <= k < before.len() && (#[trigger] before[k]).id == id;
                assert(listed[k] == before[k]);
            } else {
                assert(listed[listed.len() - 1].id == id);
            }
        }
    }
}

/// Every one of these relations has the label of buildings at its start and that of floors at its
/// end, and joins the elements that an added relation joins.
proof fn lemma_ends_of_building_floors(changes: Seq<ModelChange>, labels: GraphElementType, k: int)
    requires
        0 <= k < building_floors_of(changes, labels).len(),
    ensures
        building_floors_of(changes, labels)[k].start_label == Some(labels.building@),
        building_floors_of(changes, labels)[k].end_label == Some(labels.floor@),
        exists|i: int|
            0 <= i < changes.len() && (#[trigger] changes[i] matches ModelChange::BuildingFloorRelationAdded(relation)
                && relation.id@ == building_floors_of(changes, labels)[k].id && relation.start_id@
                == building_floors_of(changes, labels)[k].start_id && relation.end_id@ == building_floors_of(
                changes,
                labels,
            )[k].end_id),
    decreases changes.len(),
{
    let rest = changes.drop_last();
    let before = building_floors_of(rest, labels);
    if k < before.len() {
        lemma_ends_of_building_floors(rest, labels, k);
        assert(building_floors_of(changes, labels)[k] == before[k]);
        let i = choose|i: int|
            0 <= i < rest.len() && (#[trigger] rest[i] matches ModelChange::BuildingFloorRelationAdded(relation)
                && relation.id@ == before[k].id && relation.start_id@ == before[k].start_id
                && relation.end_id@ == before[k].end_id);
        assert(changes[i] == rest[i]);
    } else {
        assert(changes[changes.len() - 1] == changes.last());
    }
}

/// Every one of these relations has the label of floors at its start and that of rooms at its
/// end, and joins the elements that an added relation joins.
proof fn lemma_ends_of_floor_rooms(changes: Seq<ModelChange>, labels: GraphElementType, k: int)
    requires
        0 <= k < floor_rooms_of(changes, labels).len(),
    ensures
        floor_rooms_of(changes, labels)[k].start_label == Some(labels.floor@),
        floor_rooms_of(changes, labels)[k].end_label == Some(labels.room@),
        exists|i: int|
            0 <= i < changes.len() && (#[trigger] changes[i] matches ModelChange::FloorRoomRelationAdded(relation)
                && relation.id@ == floor_rooms_of(changes, labels)[k].id && relation.start_id@
                == floor_rooms_of(changes, labels)[k].start_id && relation.end_id@ == floor_rooms_of(
                changes,
                labels,
            )[k].end_id),
    decreases changes.len(),
{
    let rest = changes.drop_last();
    let before = floor_rooms_of(rest, labels);
    if k < before.len() {
        lemma_ends_of_floor_rooms(rest, labels, k);
        assert(floor_rooms_of(changes, labels)[k] == before[k]);
        let i = choose|i: int|
            0 <= i < rest.len() && (#[trigger] rest[i] matches ModelChange::FloorRoomRelationAdded(relation)
                && relation.id@ == before[k].id && relation.start_id@ == before[k].start_id
                && relation.end_id@ == before[k].end_id);
        assert(changes[i] == rest[i]);
    } else {
        assert(changes[changes.len() - 1] == changes.last());
    }
}

/// The initial data list a node with that identifier under that label.
pub open spec fn lists_node(data: BootstrapView, label: Seq<char>, id: Seq<char>) -> bool {
    exists|g: int, k: int|
        0 <= g < data.nodes.len() && data.nodes[g].0 == label && 0 <= k < data.nodes[g].1.len()
            && (#[trigger] data.nodes[g].1[k]).id == id
}

/// The initial data have the relation under that label.
pub open spec fn lists_relation(
    data: BootstrapView,
    label: Seq<char>,
    relation: RelationView,
) -> bool {
    exists|g: int, k: int|
        0 <= g < data.rels.len() && data.rels[g].0 == label && 0 <= k < data.rels[g].1.len()
            && #[trigger] data.rels[g].1[k] == relation
}

/// The initial data list each kind of node under its own label, all of that kind together and
/// no kind that has none, buildings first and rooms last. Relations come likewise.
pub proof fn lemma_kinds_stand_under_their_labels(
    node_changes: Seq<ModelChange>,
    rel_changes: Seq<ModelChange>,
    labels: GraphElementType,
)
    ensures
        ({
            let data = bootstrap_of(node_changes, rel_changes, labels);
            let buildings = buildings_of(node_changes);
            let floors = floors_of(node_changes);
            let rooms = rooms_of(node_changes);
            let building_floors = building_floors_of(rel_changes, labels);
            let floor_rooms = floor_rooms_of(rel_changes, labels);
            let one = |some: bool|
                if some {
                    1int
                } else {
                    0int
                };
            let b = one(buildings.len() > 0);
            let f = one(floors.len() > 0);
            let r = one(rooms.len() > 0);
            let bf = one(building_floors.len() > 0);
            let fr = one(floor_rooms.len() > 0);
            &&& data.nodes.len() == b + f + r
            &&& b == 1 ==> data.nodes[0] == (labels.building@, buildings)
            &&& f == 1 ==> data.nodes[b] == (labels.floor@, floors)
            &&& r == 1 ==> data.nodes[b + f] == (labels.room@, rooms)
            &&& data.rels.len() == bf + fr
            &&& bf == 1 ==> data.rels[0] == (labels.building_floor@, building_floors)
            &&& fr == 1 ==> data.rels[bf] == (labels.floor_room@, floor_rooms)
        }),
{
}

/// Every building, floor and room that was added is listed under the label of its kind.
pub proof fn lemma_added_nodes_are_listed(
    node_changes: Seq<ModelChange>,
    rel_changes: Seq<ModelChange>,
    labels: GraphElementType,
    i: int,
)
    requires
        0 <= i < node_changes.len(),
    ensures
        ({
            let data = bootstrap_of(node_changes, rel_changes, labels);
            match node_changes[i] {
                ModelChange::BuildingAdded(node) => lists_node(data, labels.building@, node.id@),
                ModelChange::FloorAdded(node) => lists_node(data, labels.floor@, node.id@),
                ModelChange::RoomAdded(node) => lists_node(data, labels.room@, node.id@),
                _ => true,
            }
        }),
{
    let data = bootstrap_of(node_changes, rel_changes, labels);
    lemma_kinds_stand_under_their_labels(node_changes, rel_changes, labels);
    let b = if buildings_of(node_changes).len() > 0 {
        1int
    } else {
        0int
    };
    let f = if floors_of(node_changes).len() > 0 {
        1int
    } else {
        0int
    };
    match node_changes[i] {
        ModelChange::BuildingAdded(node) => {
            let listed = buildings_of(node_changes);
            lemma_listed_buildings(node_changes, node.id@);
            let k = choose|k: int| 0 <= k < listed.len() && (#[trigger] listed[k]).id == node.id@;
            assert(data.nodes[0].1[k].id == node.id@);
        },
        ModelChange::FloorAdded(node) => {
            let listed = floors_of(node_changes);
            lemma_listed_floors(node_changes, node.id@);
            let k = choose|k: int| 0 <= k < listed.len() && (#[trigger] listed[k]).id == node.id@;
            assert(data.nodes[b].1[k].id == node.id@);
        },
        ModelChange::RoomAdded(node) => {
            let listed = rooms_of(node_changes);
            lemma_listed_rooms(node_changes, node.id@);
            let k = choose|k: int| 0 <= k < listed.len() && (#[trigger] listed[k]).id == node.id@;
            assert(data.nodes[b + f].1[k].id == node.id@);
        },
        _ => {},
    }
}

/// A relation filed under the label of the relations from buildings to floors has the label of
/// buildings at its start and that of floors at its end, and one under that of the relations
/// from floors to rooms those of floors and rooms. There are no others.
pub proof fn lemma_relations_join_their_kinds(
    node_changes: Seq<ModelChange>,
    rel_changes: Seq<ModelChange>,
    labels: GraphElementType,
    label: Seq<char>,
    relation: RelationView,
)
    requires
        labels.building_floor@ != labels.floor_room@,
        lists_relation(bootstrap_of(node_changes, rel_changes, labels), label, relation),
    ensures
        label == labels.building_floor@ || label == labels.floor_room@,
        label == labels.building_floor@ ==> relation.start_label == Some(labels.building@)
            && relation.end_label == Some(labels.floor@) && exists|i: int|
            0 <= i < rel_changes.len() && (
            #[trigger] rel_changes[i] matches ModelChange::BuildingFloorRelationAdded(added)
                && added.id@ == relation.id && added.start_id@ == relation.start_id && added.end_id@
                == relation.end_id),
        label == labels.floor_room@ ==> relation.start_label == Some(labels.floor@)
            && relation.end_label == Some(labels.room@) && exists|i: int|
            0 <= i < rel_changes.len() && (
            #[trigger] rel_changes[i] matches ModelChange::FloorRoomRelationAdded(added)
                && added.id@ == relation.id && added.start_id@ == relation.start_id && added.end_id@
                == relation.end_id),
{
    let data = bootstrap_of(node_changes, rel_changes, labels);
    lemma_kinds_stand_under_their_labels(node_changes, rel_changes, labels);
    let (g, k) = choose|g: int, k: int|
        0 <= g < data.rels.len() && data.rels[g].0 == label && 0 <= k < data.rels[g].1.len()
            && #[trigger] data.rels[g].1[k] == relation;
    if g == 0 && building_floors_of(rel_changes, labels).len() > 0 {
        lemma_ends_of_building_floors(rel_changes, labels, k);
    } else {
        lemma_ends_of_floor_rooms(rel_changes, labels, k);
    }
}

/// Each labelled end of a relation from a building to a floor names a label under which the
/// node at that end is listed, whenever the model holds that node; so does each end of a
/// relation from a floor to a room.
pub proof fn lemma_labelled_ends_are_listed(
    node_changes: Seq<ModelChange>,
    rel_changes: Seq<ModelChange>,
    labels: GraphElementType,
    label: Seq<char>,
    relation: RelationView,
    i: int,
)
    requires
        labels.building_floor@ != labels.floor_room@,
        lists_relation(bootstrap_of(node_changes, rel_changes, labels), label, relation),
        0 <= i < node_changes.len(),
    ensures
        ({
            let data = bootstrap_of(node_changes, rel_changes, labels);
            match node_changes[i] {
                ModelChange::BuildingAdded(node) => label == labels.building_floor@ && node.id@
                    == relation.start_id ==> (relation.start_label matches Some(at) && lists_node(
                    data,
                    at,
                    relation.start_id,
                )),
                ModelChange::FloorAdded(node) => {
                    &&& label == labels.building_floor@ && node.id@ == relation.end_id ==> (
                    relation.end_label matches Some(at) && lists_node(data, at, relation.end_id))
                    &&& label == labels.floor_room@ && node.id@ == relation.start_id ==> (
                    relation.start_label matches Some(at) && lists_node(
                        data,
                        at,
                        relation.start_id,
                    ))
                },
                ModelChange::RoomAdded(node) => label == labels.floor_room@ && node.id@
                    == relation.end_id ==> (relation.end_label matches Some(at) && lists_node(
                    data,
                    at,
                    relation.end_id,
                )),
                _ => true,
            }
        }),
{
    lemma_relations_join_their_kinds(node_changes, rel_changes, labels, label, relation);
    lemma_added_nodes_are_listed(node_changes, rel_changes, labels, i);
}

/// The first inserts keep the order of the changes: those of two lists put together are those
/// of the first, followed by those of the second. Each added element is inserted once, and
/// nothing else is.
pub proof fn lemma_inserts_keep_the_order(
    a: Seq<ModelChange>,
    b: Seq<ModelChange>,
    change: ModelChange,
)
    ensures
        inserts_of(a + b) == inserts_of(a) + inserts_of(b),
        inserts_of(seq![change]).len() == (match change {
            ModelChange::RoomUpdated(_, _) => 0int,
            ModelChange::Other(_) => 0,
            _ => 1,
        }),
        insert_of(change) matches Some(element) ==> inserts_of(seq![change]) == seq![element],
    decreases b.len(),
{
    reveal_with_fuel(inserts_of, 2);
    assert(seq![change].drop_last() =~= Seq::<ModelChange>::empty());
    if let Some(element) = insert_of(change) {
        assert(inserts_of(seq![change]) =~= seq![element]);
    }
    if b.len() == 0 {
        assert(a + b =~= a);
        assert(inserts_of(a) + inserts_of(b) =~= inserts_of(a));
    } else {
        lemma_inserts_keep_the_order(a, b.drop_last(), change);
        assert((a + b).drop_last() =~= a + b.drop_last());
        assert((a + b).last() == b.last());
        assert(inserts_of(a + b) =~= inserts_of(a) + inserts_of(b));
    }
}

/// The insert of a node tells its identifier, its labels one by one, and its properties.
pub proof fn lemma_node_inserts_tell_the_node(node: NodeView)
    ensures
        ({
            let element = node_insert_of(node);
            &&& !element.is_relation
            &&& json_get(element.after, "id"@) == Some(JsonView::Text(node.id))
            &&& json_get(element.after, "labels"@) matches Some(JsonView::Array(items))
                && items.len() == node.labels.len() && forall|i: int|
                0 <= i < items.len() ==> #[trigger] items[i] == JsonView::Text(node.labels[i])
            &&& json_get(element.after, "properties"@) == Some(node.properties)
            &&& json_get(element.after, "start_id"@) is None
            &&& json_get(element.after, "end_id"@) is None
        }),
{
    lemma_distinct_keys();
    let fields = node_insert_of(node).after->Object_0;
    assert(fields.len() == 3);
    lemma_fields_are_found(fields, "id"@);
    lemma_fields_are_found(fields, "labels"@);
    lemma_fields_are_found(fields, "properties"@);
    lemma_fields_are_found(fields, "start_id"@);
    lemma_fields_are_found(fields, "end_id"@);
    assert(fields[0].0 == "id"@);
    assert(fields[1].0 == "labels"@);
    assert(fields[2].0 == "properties"@);
}

/// The keys of an inserted element are different ones.
proof fn lemma_distinct_keys()
    ensures
        "id"@.len() == 2,
        "labels"@.len() == 6 && "labels"@[0] == 'l',
        "properties"@.len() == 10,
        "start_id"@.len() == 8,
        "end_id"@.len() == 6 && "end_id"@[0] == 'e',
{
    reveal_strlit("id");
    reveal_strlit("labels");
    reveal_strlit("properties");
    reveal_strlit("start_id");
    reveal_strlit("end_id");
}

/// The insert of a relation tells its identifier, its labels one by one, where it starts and
/// where it ends.
pub proof fn lemma_relation_inserts_tell_the_relation(relation: GraphRelationView)
    ensures
        ({
            let element = relation_insert_of(relation);
            &&& element.is_relation
            &&& json_get(element.after, "id"@) == Some(JsonView::Text(relation.id))
            &&& json_get(element.after, "labels"@) matches Some(JsonView::Array(items))
                && items.len() == relation.labels.len() && forall|i: int|
                0 <= i < items.len() ==> #[trigger] items[i] == JsonView::Text(relation.labels[i])
            &&& json_get(element.after, "properties"@) == Some(JsonView::Object(Seq::empty()))
            &&& json_get(element.after, "start_id"@) == Some(JsonView::Text(relation.start_id))
            &&& json_get(element.after, "end_id"@) == Some(JsonView::Text(relation.end_id))
        }),
{
    lemma_distinct_keys();
    let fields = relation_insert_of(relation).after->Object_0;
    assert(fields.len() == 5);
    lemma_fields_are_found(fields, "id"@);
    lemma_fields_are_found(fields, "labels"@);
    lemma_fields_are_found(fields, "properties"@);
    lemma_fields_are_found(fields, "start_id"@);
    lemma_fields_are_found(fields, "end_id"@);
    assert(fields[0].0 == "id"@);
    assert(fields[1].0 == "labels"@);
    assert(fields[2].0 == "properties"@);
    assert(fields[3].0 == "start_id"@);
    assert(fields[4].0 == "end_id"@);
}

/// The element inserted for a change is the one that the change adds: a building or a floor
/// without properties, a room with its own, a relation with its ends.
pub proof fn lemma_inserts_are_what_is_added(change: ModelChange)
    ensures
        match change {
            ModelChange::BuildingAdded(node) => insert_of(change) matches Some(e)
                && tells_node(e, node.id@, texts(node.labels@), JsonView::Object(Seq::empty())),
            ModelChange::FloorAdded(node) => insert_of(change) matches Some(e)
                && tells_node(e, node.id@, texts(node.labels@), JsonView::Object(Seq::empty())),
            ModelChange::RoomAdded(node) => insert_of(change) matches Some(e)
                && tells_node(e, node.id@, texts(node.labels@), node.properties@),
            ModelChange::BuildingFloorRelationAdded(relation) => insert_of(change) matches Some(e)
                && tells_relation(e, relation.id@, relation.start_id@, relation.end_id@),
            ModelChange::FloorRoomRelationAdded(relation) => insert_of(change) matches Some(e)
                && tells_relation(e, relation.id@, relation.start_id@, relation.end_id@),
            _ => insert_of(change) is None,
        },
{
    match change {
        ModelChange::BuildingAdded(node) => {
            let bare = NodeView { properties: JsonView::Object(Seq::empty()), ..node@ };
            lemma_node_inserts_tell_the_node(bare);
        },
        ModelChange::FloorAdded(node) => {
            let bare = NodeView { properties: JsonView::Object(Seq::empty()), ..node@ };
            lemma_node_inserts_tell_the_node(bare);
        },
        ModelChange::RoomAdded(node) => {
            lemma_node_inserts_tell_the_node(node@);
        },
        ModelChange::BuildingFloorRelationAdded(relation) => {
            lemma_relation_inserts_tell_the_relation(relation@);
        },
        ModelChange::FloorRoomRelationAdded(relation) => {
            lemma_relation_inserts_tell_the_relation(relation@);
        },
        _ => {},
    }
}

/// An inserted element is a node with that identifier, those labels and those properties.
pub open spec fn tells_node(
    element: ElementView,
    id: Seq<char>,
    labels: Seq<Seq<char>>,
    properties: JsonView,
) -> bool {
    &&& !element.is_relation
    &&& json_get(element.after, "id"@) == Some(JsonView::Text(id))
    &&& json_get(element.after, "labels"@) matches Some(JsonView::Array(items)) && items.len()
        == labels.len() && forall|i: int|
        0 <= i < items.len() ==> #[trigger] items[i] == JsonView::Text(labels[i])
    &&& json_get(element.after, "properties"@) == Some(properties)
}

/// An inserted element is a relation with that identifier from the one element to the other.
pub open spec fn tells_relation(
    element: ElementView,
    id: Seq<char>,
    start_id: Seq<char>,
    end_id: Seq<char>,
) -> bool {
    &&& element.is_relation
    &&& json_get(element.after, "id"@) == Some(JsonView::Text(id))
    &&& json_get(element.after, "start_id"@) == Some(JsonView::Text(start_id))
    &&& json_get(element.after, "end_id"@) == Some(JsonView::Text(end_id))
}

/// Whatever a definition says, the generator is set up with: each setting from the one of its
/// name. Where it does not say, there is one building of five floors with ten rooms each, and a
/// change every second, a hundred thousand times.
pub proof fn lemma_definitions_are_followed(
    settings: BuildingHierarchyDataGeneratorSettings,
    id: TestRunSourceId,
    definition: BuildingHierarchyDataGeneratorDefinition,
    dispatchers: Vec<SourceChangeDispatcherDefinition>,
    seed: u64,
)
    requires
        are_settings(settings, id, definition, dispatchers, seed),
    ensures
        definition.building_count matches Some(n) ==> settings.building_count == n,
        definition.floor_count matches Some(n) ==> settings.floor_count == n,
        definition.room_count matches Some(n) ==> settings.room_count == n,
        definition.common.change_count matches Some(n) ==> settings.change_count == n,
        definition.common.change_interval matches Some(i) ==> settings.change_interval == i,
        definition.common.seed matches Some(s) ==> settings.seed == s,
        definition.building_count is None ==> settings.building_count.0 == 1
            && settings.building_count.1.bits == 0,
        definition.floor_count is None ==> settings.floor_count.0 == 5
            && settings.floor_count.1.bits == 0,
        definition.room_count is None ==> settings.room_count.0 == 10
            && settings.room_count.1.bits == 0,
        definition.common.change_count is None ==> settings.change_count == 100_000,
        definition.common.change_interval is None ==> settings.change_interval.0 == 1_000_000_000
            && settings.change_interval.1.bits == 0 && settings.change_interval.2 == 0
            && settings.change_interval.3 == u64::MAX,
        definition.common.seed is None ==> settings.seed == seed,
        settings.room_sensors == definition.room_sensors,
        settings.dispatchers == dispatchers,
        settings.id == id,
        settings.spacing_mode == definition.common.spacing_mode,
        settings.time_mode == definition.common.time_mode,
        settings.send_initial_inserts == definition.send_initial_inserts,
{
}

} // verus!
