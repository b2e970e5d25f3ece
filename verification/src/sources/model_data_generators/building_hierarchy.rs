//! Changes of buildings with floors, rooms and sensors.

use crate::ids::TestRunSourceId;
use crate::json::Json;
use crate::scripts::{
    event_views, no_data, node_views, relation_views, with_nodes, with_relations, BootstrapData,
    BootstrapView, NodeRecord, NodeView, RelationRecord, RelationView, SourceChangeEvent,
};
use crate::sources::model_data_generators::change_stream::{
    after_numbering, draw_seed, element_views, insert_events, refusal_message, ChangeStream,
    ElementInsert, ElementView, ExternalState, FailurePolicy, GeneratorCommand, GeneratorError,
    GeneratorStats, ModelUpdate, ResultSummary, StreamSettings, StreamSettingsView,
};
use crate::sources::model_data_generators::graph_elements::{
    bare, empty_object, no_properties, node_insert, node_insert_of, relation_insert,
    relation_insert_of, GraphRelation, GraphRelationView,
};
use crate::test_repo_storage::models::{
    BuildingHierarchyDataGeneratorDefinition, FloatBits, SensorDefinition,
    SourceChangeDispatcherDefinition, SpacingMode, TimeMode,
};
use crate::text::copy_texts;
use vstd::prelude::*;

verus! {

/// A command to the generator.
pub type BuildingHierarchyDataGeneratorCommand = GeneratorCommand;

/// Why the generator refuses a command.
pub type BuildingHierarchyDataGeneratorError = GeneratorError;

/// What is reported of the generator.
pub type BuildingHierarchyDataGeneratorExternalState = ExternalState;

/// What the generator has done.
pub type BuildingHierarchyDataGeneratorStats = GeneratorStats;

/// What is written down when the generator has ended.
pub type BuildingHierarchyDataGeneratorResultSummary = ResultSummary;

/// The state of the generator.
pub type BuildingHierarchyDataGeneratorInternalState = ChangeStream;

/// The answer to a command: its result, and the state after it.
#[derive(Debug)]
pub struct BuildingHierarchyDataGeneratorMessageResponse {
    pub result: Result<(), String>,
    pub state: BuildingHierarchyDataGeneratorExternalState,
}

/// The message that a command is refused with.
pub fn refusal_text(error: BuildingHierarchyDataGeneratorError) -> (r: String)
    ensures
        r@ == refusal_message("BuildingHierarchyDataGenerator"@, error),
{
    error.text("BuildingHierarchyDataGenerator")
}

/// How the generator is set up.
#[derive(Debug)]
pub struct BuildingHierarchyDataGeneratorSettings {
    pub building_count: (u32, FloatBits),
    pub floor_count: (u32, FloatBits),
    pub room_count: (u32, FloatBits),
    pub change_count: u64,
    pub change_interval: (u64, FloatBits, u64, u64),
    pub dispatchers: Vec<SourceChangeDispatcherDefinition>,
    pub id: TestRunSourceId,
    pub room_sensors: Vec<SensorDefinition>,
    pub seed: u64,
    pub spacing_mode: SpacingMode,
    pub time_mode: TimeMode,
    pub send_initial_inserts: bool,
}

/// A value or its default.
pub open spec fn or_default<T>(value: Option<T>, default: T) -> T {
    match value {
        Some(value) => value,
        None => default,
    }
}

/// The floating-point zero.
pub open spec fn zero_bits() -> FloatBits {
    FloatBits { bits: 0 }
}

/// The settings that a definition asks for, with the given seed where it names none.
pub open spec fn are_settings(
    r: BuildingHierarchyDataGeneratorSettings,
    test_run_source_id: TestRunSourceId,
    definition: BuildingHierarchyDataGeneratorDefinition,
    dispatchers: Vec<SourceChangeDispatcherDefinition>,
    drawn_seed: u64,
) -> bool {
    &&& r.building_count == or_default(definition.building_count, (1u32, zero_bits()))
    &&& r.floor_count == or_default(definition.floor_count, (5u32, zero_bits()))
    &&& r.room_count == or_default(definition.room_count, (10u32, zero_bits()))
    &&& r.change_count == or_default(definition.common.change_count, 100000u64)
    &&& r.change_interval == or_default(
        definition.common.change_interval,
        (1000000000u64, zero_bits(), 0u64, u64::MAX),
    )
    &&& r.dispatchers == dispatchers
    &&& r.id == test_run_source_id
    &&& r.room_sensors == definition.room_sensors
    &&& r.seed == or_default(definition.common.seed, drawn_seed)
    &&& r.spacing_mode == definition.common.spacing_mode
    &&& r.time_mode == definition.common.time_mode
    &&& r.send_initial_inserts == definition.send_initial_inserts
}

impl BuildingHierarchyDataGeneratorSettings {
    /// The settings that a definition asks for. Where it names no seed, one is drawn.
    pub fn new(
        test_run_source_id: TestRunSourceId,
        definition: BuildingHierarchyDataGeneratorDefinition,
        dispatchers: Vec<SourceChangeDispatcherDefinition>,
    ) -> (r: BuildingHierarchyDataGeneratorSettings)
        ensures
            exists|drawn_seed: u64|
                are_settings(r, test_run_source_id, definition, dispatchers, drawn_seed),
    {
        BuildingHierarchyDataGeneratorSettings::with_seed(
            test_run_source_id,
            definition,
            dispatchers,
            draw_seed(),
        )
    }

    /// The settings that a definition asks for: one building of five floors with ten rooms
    /// each and a change every second, a hundred thousand times, where it does not say. A
    /// definition without a seed gets the one that was drawn.
    pub fn with_seed(
        test_run_source_id: TestRunSourceId,
        definition: BuildingHierarchyDataGeneratorDefinition,
        dispatchers: Vec<SourceChangeDispatcherDefinition>,
        drawn_seed: u64,
    ) -> (r: BuildingHierarchyDataGeneratorSettings)
        ensures
            are_settings(r, test_run_source_id, definition, dispatchers, drawn_seed),
    {
        let zero = FloatBits { bits: 0 };
        BuildingHierarchyDataGeneratorSettings {
            building_count: definition.building_count.unwrap_or((1, zero)),
            floor_count: definition.floor_count.unwrap_or((5, zero)),
            room_count: definition.room_count.unwrap_or((10, zero)),
            change_count: definition.common.change_count.unwrap_or(100000),
            change_interval: definition.common.change_interval.unwrap_or(
                (1000000000, zero, 0, u64::MAX),
            ),
            dispatchers,
            id: test_run_source_id,
            room_sensors: definition.room_sensors,
            seed: definition.common.seed.unwrap_or(drawn_seed),
            spacing_mode: definition.common.spacing_mode,
            time_mode: definition.common.time_mode,
            send_initial_inserts: definition.send_initial_inserts,
        }
    }

    /// The source that the generator works for.
    pub fn get_id(&self) -> (r: TestRunSourceId)
        ensures
            r@ == self.id@,
    {
        self.id.copy()
    }

    /// The change stream's part of the settings. Failures of dispatchers are passed over.
    pub fn stream_settings(&self, test_run_source_id: &str) -> (r: StreamSettings)
        ensures
            r@ == (StreamSettingsView {
                test_run_source_id: test_run_source_id@,
                test_source_id: self.id.test_source_id@,
                change_count: self.change_count,
                spacing_mode: self.spacing_mode,
                time_mode: self.time_mode,
                send_initial_inserts: self.send_initial_inserts,
                failures: FailurePolicy::Ignore,
            }),
    {
        StreamSettings {
            test_run_source_id: test_run_source_id.to_owned(),
            test_source_id: self.id.test_source_id.clone(),
            change_count: self.change_count,
            spacing_mode: self.spacing_mode,
            time_mode: self.time_mode,
            send_initial_inserts: self.send_initial_inserts,
            failures: FailurePolicy::Ignore,
        }
    }
}

/// A change of the model.
#[derive(Debug)]
pub enum ModelChange {
    BuildingAdded(NodeRecord),
    FloorAdded(NodeRecord),
    RoomAdded(NodeRecord),
    /// From a building to a floor.
    BuildingFloorRelationAdded(GraphRelation),
    /// From a floor to a room.
    FloorRoomRelationAdded(GraphRelation),
    /// The room before and after.
    RoomUpdated(Json, Json),
    /// Any other change, as it is shown.
    Other(String),
}

/// The labels of the model's elements.
#[derive(Debug)]
pub struct GraphElementType {
    pub building: String,
    pub floor: String,
    pub room: String,
    pub building_floor: String,
    pub floor_room: String,
}

/// The element that a change adds, as it is inserted. Only rooms have properties.
pub open spec fn insert_of(change: ModelChange) -> Option<ElementView> {
    match change {
        ModelChange::BuildingAdded(node) => Some(node_insert_of(bare(node@))),
        ModelChange::FloorAdded(node) => Some(node_insert_of(bare(node@))),
        ModelChange::RoomAdded(node) => Some(node_insert_of(node@)),
        ModelChange::BuildingFloorRelationAdded(relation) => Some(relation_insert_of(relation@)),
        ModelChange::FloorRoomRelationAdded(relation) => Some(relation_insert_of(relation@)),
        _ => None,
    }
}

/// The elements that changes add, in their order.
pub open spec fn inserts_of(changes: Seq<ModelChange>) -> Seq<ElementView>
    decreases changes.len(),
{
    if changes.len() == 0 {
        Seq::empty()
    } else {
        let front = inserts_of(changes.drop_last());
        match insert_of(changes.last()) {
            Some(element) => front.push(element),
            None => front,
        }
    }
}

/// The element that a change adds.
fn element_insert(change: &ModelChange) -> (r: Option<ElementInsert>)
    ensures
        match r {
            Some(element) => insert_of(*change) == Some(element@),
            None => insert_of(*change) is None,
        },
{
    match change {
        ModelChange::BuildingAdded(node) => Some(node_insert(node, no_properties())),
        ModelChange::FloorAdded(node) => Some(node_insert(node, no_properties())),
        ModelChange::RoomAdded(node) => Some(node_insert(node, node.properties.copy())),
        ModelChange::BuildingFloorRelationAdded(relation) => Some(relation_insert(relation)),
        ModelChange::FloorRoomRelationAdded(relation) => Some(relation_insert(relation)),
        _ => None,
    }
}

/// The elements that changes add.
pub fn element_inserts(changes: &Vec<ModelChange>) -> (r: Vec<ElementInsert>)
    ensures
        element_views(r@) == inserts_of(changes@),
{
    let mut r: Vec<ElementInsert> = Vec::new();
    let mut i: usize = 0;
    proof {
        assert(changes@.take(0) =~= Seq::<ModelChange>::empty());
        assert(element_views(r@) =~= Seq::<ElementView>::empty());
    }
    while i < changes.len()
        invariant
            0 <= i <= changes@.len(),
            element_views(r@) == inserts_of(changes@.take(i as int)),
        decreases changes@.len() - i,
    {
        proof {
            assert(changes@.take(i + 1).drop_last() =~= changes@.take(i as int));
            assert(changes@.take(i + 1).last() == changes@[i as int]);
        }
        match element_insert(&changes[i]) {
            Some(element) => {
                let ghost before = element_views(r@);
                r.push(element);
                assert(element_views(r@) =~= before.push(element@));
            },
            None => {},
        }
        i = i + 1;
    }
    assert(changes@.take(changes@.len() as int) =~= changes@);
    r
}

/// The inserts of everything that the model holds.
pub fn send_initial_inserts(
    stream: &mut BuildingHierarchyDataGeneratorInternalState,
    changes: &Vec<ModelChange>,
    now_ns: u64,
) -> (r: Option<Vec<SourceChangeEvent>>)
    requires
        old(stream).wf(),
    ensures
        final(stream).wf(),
        ({
            let elements = inserts_of(changes@);
            let stats = old(stream)@.stats;
            let fits = old(stream)@.event_seq_num + elements.len() <= u64::MAX
                && stats.num_source_change_events + elements.len() <= u64::MAX;
            match r {
                Some(events) => {
                    &&& fits
                    &&& final(stream)@ == after_numbering(old(stream)@, elements.len())
                    &&& event_views(events@) == insert_events(old(stream)@, now_ns, elements)
                },
                None => !fits && final(stream)@ == old(stream)@,
            }
        }),
{
    let elements = element_inserts(changes);
    assert(elements@.len() == inserts_of(changes@).len());
    if !stream.can_insert(elements.len()) {
        return None;
    }
    Some(stream.initial_inserts(elements, now_ns))
}

/// What the model's next change is to the stream: only updates of rooms are expected.
pub fn model_update(change: Option<ModelChange>, shown: String) -> (r: ModelUpdate)
    ensures
        match change {
            Some(ModelChange::RoomUpdated(before, after)) => r == (ModelUpdate::Updated {
                before,
                after,
            }),
            Some(_) => r == ModelUpdate::Unexpected(shown),
            None => r == ModelUpdate::Nothing,
        },
{
    match change {
        Some(ModelChange::RoomUpdated(before, after)) => ModelUpdate::Updated { before, after },
        Some(_) => ModelUpdate::Unexpected(shown),
        None => ModelUpdate::Nothing,
    }
}

/// The buildings among the changes.
pub open spec fn buildings_of(changes: Seq<ModelChange>) -> Seq<NodeView>
    decreases changes.len(),
{
    if changes.len() == 0 {
        Seq::empty()
    } else {
        let front = buildings_of(changes.drop_last());
        match changes.last() {
            ModelChange::BuildingAdded(node) => front.push(bare(node@)),
            _ => front,
        }
    }
}

/// The floors among the changes.
pub open spec fn floors_of(changes: Seq<ModelChange>) -> Seq<NodeView>
    decreases changes.len(),
{
    if changes.len() == 0 {
        Seq::empty()
    } else {
        let front = floors_of(changes.drop_last());
        match changes.last() {
            ModelChange::FloorAdded(node) => front.push(bare(node@)),
            _ => front,
        }
    }
}

/// The rooms among the changes.
pub open spec fn rooms_of(changes: Seq<ModelChange>) -> Seq<NodeView>
    decreases changes.len(),
{
    if changes.len() == 0 {
        Seq::empty()
    } else {
        let front = rooms_of(changes.drop_last());
        match changes.last() {
            ModelChange::RoomAdded(node) => front.push(node@),
            _ => front,
        }
    }
}

/// A relation of the initial data between elements of two labels.
pub open spec fn relation_of(
    relation: GraphRelationView,
    start_label: Seq<char>,
    end_label: Seq<char>,
) -> RelationView {
    RelationView {
        id: relation.id,
        labels: relation.labels,
        properties: empty_object(),
        start_id: relation.start_id,
        start_label: Some(start_label),
        end_id: relation.end_id,
        end_label: Some(end_label),
    }
}

/// The relations from buildings to floors among the changes.
pub open spec fn building_floors_of(changes: Seq<ModelChange>, labels: GraphElementType) -> Seq<
    RelationView,
>
    decreases changes.len(),
{
    if changes.len() == 0 {
        Seq::empty()
    } else {
        let front = building_floors_of(changes.drop_last(), labels);
        match changes.last() {
            ModelChange::BuildingFloorRelationAdded(relation) => front.push(
                relation_of(relation@, labels.building@, labels.floor@),
            ),
            _ => front,
        }
    }
}

/// The relations from floors to rooms among the changes.
pub open spec fn floor_rooms_of(changes: Seq<ModelChange>, labels: GraphElementType) -> Seq<
    RelationView,
>
    decreases changes.len(),
{
    if changes.len() == 0 {
        Seq::empty()
    } else {
        let front = floor_rooms_of(changes.drop_last(), labels);
        match changes.last() {
            ModelChange::FloorRoomRelationAdded(relation) => front.push(
                relation_of(relation@, labels.floor@, labels.room@),
            ),
            _ => front,
        }
    }
}

/// The initial data that the model's nodes and relations make up: each kind under its label,
/// kinds without elements left out.
pub open spec fn bootstrap_of(
    node_changes: Seq<ModelChange>,
    rel_changes: Seq<ModelChange>,
    labels: GraphElementType,
) -> BootstrapView {
    let buildings = with_nodes(no_data(), labels.building@, buildings_of(node_changes));
    let floors = with_nodes(buildings, labels.floor@, floors_of(node_changes));
    let rooms = with_nodes(floors, labels.room@, rooms_of(node_changes));
    let first = with_relations(
        rooms,
        labels.building_floor@,
        building_floors_of(rel_changes, labels),
    );
    with_relations(first, labels.floor_room@, floor_rooms_of(rel_changes, labels))
}

/// A copy of a node without its properties.
fn bare_copy(node: &NodeRecord) -> (r: NodeRecord)
    ensures
        r@ == bare(node@),
{
    NodeRecord {
        id: node.id.clone(),
        labels: copy_texts(&node.labels),
        properties: no_properties(),
    }
}

/// A relation of the initial data between elements of two labels.
fn relation_record(relation: &GraphRelation, start_label: &str, end_label: &str) -> (r:
    RelationRecord)
    ensures
        r@ == relation_of(relation@, start_label@, end_label@),
{
    RelationRecord {
        id: relation.id.clone(),
        labels: copy_texts(&relation.labels),
        properties: no_properties(),
        start_id: relation.start_id.clone(),
        start_label: Some(start_label.to_owned()),
        end_id: relation.end_id.clone(),
        end_label: Some(end_label.to_owned()),
    }
}

/// The initial data that the model's current nodes and relations make up.
pub fn get_data(
    node_changes: &Vec<ModelChange>,
    rel_changes: &Vec<ModelChange>,
    labels: &GraphElementType,
) -> (r: BootstrapData)
    ensures
        r@ == bootstrap_of(node_changes@, rel_changes@, *labels),
{
    let mut building_nodes: Vec<NodeRecord> = Vec::new();
    let mut floor_nodes: Vec<NodeRecord> = Vec::new();
    let mut room_nodes: Vec<NodeRecord> = Vec::new();
    let mut building_floor_rels: Vec<RelationRecord> = Vec::new();
    let mut floor_room_rels: Vec<RelationRecord> = Vec::new();
    let mut i: usize = 0;
    proof {
        assert(node_changes@.take(0) =~= Seq::<ModelChange>::empty());
        assert(rel_changes@.take(0) =~= Seq::<ModelChange>::empty());
        assert(node_views(building_nodes@) =~= Seq::<NodeView>::empty());
        assert(relation_views(building_floor_rels@) =~= Seq::<RelationView>::empty());
    }
    while i < node_changes.len()
        invariant
            0 <= i <= node_changes@.len(),
            node_views(building_nodes@) == buildings_of(node_changes@.take(i as int)),
            node_views(floor_nodes@) == floors_of(node_changes@.take(i as int)),
            node_views(room_nodes@) == rooms_of(node_changes@.take(i as int)),
        decreases node_changes@.len() - i,
    {
        proof {
            assert(node_changes@.take(i + 1).drop_last() =~= node_changes@.take(i as int));
            assert(node_changes@.take(i + 1).last() == node_changes@[i as int]);
        }
        match &node_changes[i] {
            ModelChange::BuildingAdded(node) => {
                let ghost before = node_views(building_nodes@);
                building_nodes.push(bare_copy(node));
                assert(node_views(building_nodes@) =~= before.push(bare(node@)));
            },
            ModelChange::FloorAdded(node) => {
                let ghost before = node_views(floor_nodes@);
                floor_nodes.push(bare_copy(node));
                assert(node_views(floor_nodes@) =~= before.push(bare(node@)));
            },
            ModelChange::RoomAdded(node) => {
                let ghost before = node_views(room_nodes@);
                room_nodes.push(node.copy());
                assert(node_views(room_nodes@) =~= before.push(node@));
            },
            _ => {},
        }
        i = i + 1;
    }
    let mut k: usize = 0;
    while k < rel_changes.len()
        invariant
            0 <= k <= rel_changes@.len(),
            relation_views(building_floor_rels@) == building_floors_of(
                rel_changes@.take(k as int),
                *labels,
            ),
            relation_views(floor_room_rels@) == floor_rooms_of(rel_changes@.take(k as int), *labels),
        decreases rel_changes@.len() - k,
    {
        proof {
            assert(rel_changes@.take(k + 1).drop_last() =~= rel_changes@.take(k as int));
            assert(rel_changes@.take(k + 1).last() == rel_changes@[k as int]);
        }
        match &rel_changes[k] {
            ModelChange::BuildingFloorRelationAdded(relation) => {
                let ghost before = relation_views(building_floor_rels@);
                building_floor_rels.push(
                    relation_record(relation, labels.building.as_str(), labels.floor.as_str()),
                );
                assert(relation_views(building_floor_rels@) =~= before.push(
                    relation_of(relation@, labels.building@, labels.floor@),
                ));
            },
            ModelChange::FloorRoomRelationAdded(relation) => {
                let ghost before = relation_views(floor_room_rels@);
                floor_room_rels.push(
                    relation_record(relation, labels.floor.as_str(), labels.room.as_str()),
                );
                assert(relation_views(floor_room_rels@) =~= before.push(
                    relation_of(relation@, labels.floor@, labels.room@),
                ));
            },
            _ => {},
        }
        k = k + 1;
    }
    proof {
        assert(node_changes@.take(node_changes@.len() as int) =~= node_changes@);
        assert(rel_changes@.take(rel_changes@.len() as int) =~= rel_changes@);
    }
    let mut data = BootstrapData::new();
    data.add_nodes(labels.building.as_str(), building_nodes);
    data.add_nodes(labels.floor.as_str(), floor_nodes);
    data.add_nodes(labels.room.as_str(), room_nodes);
    data.add_relations(labels.building_floor.as_str(), building_floor_rels);
    data.add_relations(labels.floor_room.as_str(), floor_room_rels);
    data
}

} // verus!
