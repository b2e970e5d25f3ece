//! Changes of the prices and volumes of traded stocks.

use crate::ids::TestRunSourceId;
use crate::json::Json;
use crate::scripts::{
    event_views, no_data, node_views, with_nodes, BootstrapData, NodeRecord, NodeView,
    SourceChangeEvent,
};
use crate::sources::model_data_generators::building_hierarchy::{or_default, zero_bits};
use crate::sources::model_data_generators::change_stream::{
    after_numbering, draw_seed, element_views, insert_events, refusal_message, ChangeStream,
    ElementInsert, ElementView, ExternalState, FailurePolicy, GeneratorCommand, GeneratorError,
    GeneratorStats, ModelUpdate, ResultSummary, StreamSettings, StreamSettingsView,
};
use crate::sources::model_data_generators::graph_elements::{node_insert, node_insert_of};
use crate::test_repo_storage::models::{
    FloatBits, SourceChangeDispatcherDefinition, SpacingMode, StockDefinition,
    StockTradeDataGeneratorDefinition, TimeMode,
};
use vstd::prelude::*;

verus! {

/// A command to the generator.
pub type StockTradeDataGeneratorCommand = GeneratorCommand;

/// Why the generator refuses a command.
pub type StockTradeDataGeneratorError = GeneratorError;

/// What is reported of the generator.
pub type StockTradeDataGeneratorExternalState = ExternalState;

/// What the generator has done.
pub type StockTradeDataGeneratorStats = GeneratorStats;

/// What is written down when the generator has ended.
pub type StockTradeDataGeneratorResultSummary = ResultSummary;

/// The state of the generator.
pub type StockTradeDataGeneratorInternalState = ChangeStream;

/// The answer to a command: its result, and the state after it.
#[derive(Debug)]
pub struct StockTradeDataGeneratorMessageResponse {
    pub result: Result<(), String>,
    pub state: StockTradeDataGeneratorExternalState,
}

/// The floating-point value with these bits.
pub open spec fn float_bits(bits: u64) -> FloatBits {
    FloatBits { bits }
}

/// The bits of 0.3.
pub const THREE_TENTHS: u64 = 0x3fd3_3333_3333_3333;

/// The bits of 0.5.
pub const ONE_HALF: u64 = 0x3fe0_0000_0000_0000;

/// The bits of 1.
pub const ONE: u64 = 0x3ff0_0000_0000_0000;

/// The bits of 2.
pub const TWO: u64 = 0x4000_0000_0000_0000;

/// The bits of 10.
pub const TEN: u64 = 0x4024_0000_0000_0000;

/// The bits of 100.
pub const HUNDRED: u64 = 0x4059_0000_0000_0000;

/// The bits of 5000.
pub const FIVE_THOUSAND: u64 = 0x40b3_8800_0000_0000;

/// The bits of 10000.
pub const TEN_THOUSAND: u64 = 0x40c3_8800_0000_0000;

/// The bits of 500000.
pub const HALF_A_MILLION: u64 = 0x411e_8480_0000_0000;

/// The message that a command is refused with.
pub fn refusal_text(error: StockTradeDataGeneratorError) -> (r: String)
    ensures
        r@ == refusal_message("StockTradeDataGenerator"@, error),
{
    error.text("StockTradeDataGenerator")
}

/// How the generator is set up.
#[derive(Debug)]
pub struct StockTradeDataGeneratorSettings {
    pub stock_definitions: Vec<StockDefinition>,
    pub price_init: (FloatBits, FloatBits),
    pub price_change: (FloatBits, FloatBits),
    pub price_momentum: (i32, FloatBits, FloatBits),
    pub price_range: (FloatBits, FloatBits),
    pub volume_init: (i64, FloatBits),
    pub volume_change: (i64, FloatBits),
    pub volume_momentum: (i32, FloatBits, FloatBits),
    pub volume_range: (i64, i64),
    pub change_count: u64,
    pub change_interval: (u64, FloatBits, u64, u64),
    pub dispatchers: Vec<SourceChangeDispatcherDefinition>,
    pub id: TestRunSourceId,
    pub seed: u64,
    pub spacing_mode: SpacingMode,
    pub time_mode: TimeMode,
    pub send_initial_inserts: bool,
}

fn float(bits: u64) -> (r: FloatBits)
    ensures
        r == float_bits(bits),
{
    FloatBits { bits }
}

/// The settings that a definition asks for, with the given seed where it names none.
pub open spec fn are_settings(
    r: StockTradeDataGeneratorSettings,
    test_run_source_id: TestRunSourceId,
    definition: StockTradeDataGeneratorDefinition,
    dispatchers: Vec<SourceChangeDispatcherDefinition>,
    drawn_seed: u64,
) -> bool {
    &&& r.stock_definitions == definition.stock_definitions
    &&& r.price_init == or_default(definition.price_init, (float_bits(HUNDRED), float_bits(TEN)))
    &&& r.price_change == or_default(definition.price_change, (float_bits(ONE), float_bits(TWO)))
    &&& r.price_momentum == or_default(
        definition.price_momentum,
        (5i32, float_bits(TWO), float_bits(THREE_TENTHS)),
    )
    &&& r.price_range == or_default(
        definition.price_range,
        (float_bits(ONE), float_bits(TEN_THOUSAND)),
    )
    &&& r.volume_init == or_default(
        definition.volume_init,
        (1000000i64, float_bits(HALF_A_MILLION)),
    )
    &&& r.volume_change == or_default(
        definition.volume_change,
        (10000i64, float_bits(FIVE_THOUSAND)),
    )
    &&& r.volume_momentum == or_default(
        definition.volume_momentum,
        (3i32, float_bits(ONE), float_bits(ONE_HALF)),
    )
    &&& r.volume_range == or_default(definition.volume_range, (0i64, 1000000000i64))
    &&& r.change_count == or_default(definition.common.change_count, 100000u64)
    &&& r.change_interval == or_default(
        definition.common.change_interval,
        (1000000000u64, zero_bits(), 0u64, u64::MAX),
    )
    &&& r.dispatchers == dispatchers
    &&& r.id == test_run_source_id
    &&& r.seed == or_default(definition.common.seed, drawn_seed)
    &&& r.spacing_mode == definition.common.spacing_mode
    &&& r.time_mode == definition.common.time_mode
    &&& r.send_initial_inserts == definition.send_initial_inserts
}

impl StockTradeDataGeneratorSettings {
    /// The settings that a definition asks for. Where it names no seed, one is drawn.
    pub fn new(
        test_run_source_id: TestRunSourceId,
        definition: StockTradeDataGeneratorDefinition,
        dispatchers: Vec<SourceChangeDispatcherDefinition>,
    ) -> (r: StockTradeDataGeneratorSettings)
        ensures
            exists|drawn_seed: u64|
                are_settings(r, test_run_source_id, definition, dispatchers, drawn_seed),
    {
        StockTradeDataGeneratorSettings::with_seed(
            test_run_source_id,
            definition,
            dispatchers,
            draw_seed(),
        )
    }

    /// The settings that a definition asks for, with defaults where it does not say. A
    /// definition without a seed gets the one that was drawn.
    pub fn with_seed(
        test_run_source_id: TestRunSourceId,
        definition: StockTradeDataGeneratorDefinition,
        dispatchers: Vec<SourceChangeDispatcherDefinition>,
        drawn_seed: u64,
    ) -> (r: StockTradeDataGeneratorSettings)
        ensures
            are_settings(r, test_run_source_id, definition, dispatchers, drawn_seed),
    {
        StockTradeDataGeneratorSettings {
            stock_definitions: definition.stock_definitions,
            price_init: definition.price_init.unwrap_or((float(HUNDRED), float(TEN))),
            price_change: definition.price_change.unwrap_or((float(ONE), float(TWO))),
            price_momentum: definition.price_momentum.unwrap_or(
                (5, float(TWO), float(THREE_TENTHS)),
            ),
            price_range: definition.price_range.unwrap_or((float(ONE), float(TEN_THOUSAND))),
            volume_init: definition.volume_init.unwrap_or((1000000, float(HALF_A_MILLION))),
            volume_change: definition.volume_change.unwrap_or((10000, float(FIVE_THOUSAND))),
            volume_momentum: definition.volume_momentum.unwrap_or(
                (3, float(ONE), float(ONE_HALF)),
            ),
            volume_range: definition.volume_range.unwrap_or((0, 1000000000)),
            change_count: definition.common.change_count.unwrap_or(100000),
            change_interval: definition.common.change_interval.unwrap_or(
                (1000000000, float(0), 0, u64::MAX),
            ),
            dispatchers,
            id: test_run_source_id,
            seed: definition.common.seed.unwrap_or(drawn_seed),
            spacing_mode: definition.common.spacing_mode,
            time_mode: definition.common.time_mode,
            send_initial_inserts: definition.send_initial_inserts,
        }
    }

    /// The source that the generator works for.
    pub fn get_id(&self) -> (r: TestRunSourceId)
        ensures
            r@ == self.id@,
    {
        self.id.copy()
    }

    /// The change stream's part of the settings. Failures of dispatchers are reported.
    pub fn stream_settings(&self, test_run_source_id: &str) -> (r: StreamSettings)
        ensures
            r@ == (StreamSettingsView {
                test_run_source_id: test_run_source_id@,
                test_source_id: self.id.test_source_id@,
                change_count: self.change_count,
                spacing_mode: self.spacing_mode,
                time_mode: self.time_mode,
                send_initial_inserts: self.send_initial_inserts,
                failures: FailurePolicy::Report,
            }),
    {
        StreamSettings {
            test_run_source_id: test_run_source_id.to_owned(),
            test_source_id: self.id.test_source_id.clone(),
            change_count: self.change_count,
            spacing_mode: self.spacing_mode,
            time_mode: self.time_mode,
            send_initial_inserts: self.send_initial_inserts,
            failures: FailurePolicy::Report,
        }
    }
}

/// A change of the model.
#[derive(Debug)]
pub enum ModelChange {
    StockAdded(NodeRecord),
    /// The stock before and after.
    StockUpdated(Json, Json),
    /// Any other change, as it is shown.
    Other(String),
}

/// The stocks that changes add, in their order.
pub open spec fn stocks_of(changes: Seq<ModelChange>) -> Seq<NodeView>
    decreases changes.len(),
{
    if changes.len() == 0 {
        Seq::empty()
    } else {
        let front = stocks_of(changes.drop_last());
        match changes.last() {
            ModelChange::StockAdded(stock) => front.push(stock@),
            _ => front,
        }
    }
}

/// The stocks as they are inserted.
pub open spec fn inserts_of(changes: Seq<ModelChange>) -> Seq<ElementView> {
    Seq::new(stocks_of(changes).len(), |i: int| node_insert_of(stocks_of(changes)[i]))
}

/// The stocks that changes add.
fn added_stocks(changes: &Vec<ModelChange>) -> (r: Vec<NodeRecord>)
    ensures
        node_views(r@) == stocks_of(changes@),
{
    let mut r: Vec<NodeRecord> = Vec::new();
    let mut i: usize = 0;
    proof {
        assert(changes@.take(0) =~= Seq::<ModelChange>::empty());
        assert(node_views(r@) =~= Seq::<NodeView>::empty());
    }
    while i < changes.len()
        invariant
            0 <= i <= changes@.len(),
            node_views(r@) == stocks_of(changes@.take(i as int)),
        decreases changes@.len() - i,
    {
        proof {
            assert(changes@.take(i + 1).drop_last() =~= changes@.take(i as int));
            assert(changes@.take(i + 1).last() == changes@[i as int]);
        }
        match &changes[i] {
            ModelChange::StockAdded(stock) => {
                let ghost before = node_views(r@);
                r.push(stock.copy());
                assert(node_views(r@) =~= before.push(stock@));
            },
            _ => {},
        }
        i = i + 1;
    }
    assert(changes@.take(changes@.len() as int) =~= changes@);
    r
}

/// The stocks as they are inserted.
pub fn element_inserts(changes: &Vec<ModelChange>) -> (r: Vec<ElementInsert>)
    ensures
        element_views(r@) == inserts_of(changes@),
{
    let stocks = added_stocks(changes);
    let mut r: Vec<ElementInsert> = Vec::new();
    let mut i: usize = 0;
    while i < stocks.len()
        invariant
            0 <= i <= stocks@.len(),
            r@.len() == i,
            forall|j: int| 0 <= j < i ==> (#[trigger] r@[j])@ == node_insert_of(stocks@[j]@),
        decreases stocks@.len() - i,
    {
        r.push(node_insert(&stocks[i], stocks[i].properties.copy()));
        i = i + 1;
    }
    proof {
        let views = stocks_of(changes@);
        assert forall|j: int| 0 <= j < views.len() implies views[j] == (#[trigger] stocks@[j])@ by {
            assert(node_views(stocks@)[j] == stocks@[j]@);
        }
        assert(element_views(r@) =~= inserts_of(changes@));
    }
    r
}

/// The inserts of everything that the model holds, or none where they would not fit the
/// counters.
pub fn send_initial_inserts(
    stream: &mut StockTradeDataGeneratorInternalState,
    changes: &Vec<ModelChange>,
    now_ns: u64,
) -> (r: Option<Vec<SourceChangeEvent>>)
    requires
        old(stream).wf(),
    ensures
        final(stream).wf(),
        ({
            let elements = inserts_of(changes@);
            let stats = old(stream)@.stats;
            let fits = old(stream)@.event_seq_num + elements.len() <= u64::MAX
                && stats.num_source_change_events + elements.len() <= u64::MAX;
            match r {
                Some(events) => {
                    &&& fits
                    &&& final(stream)@ == after_numbering(old(stream)@, elements.len())
                    &&& event_views(events@) == insert_events(old(stream)@, now_ns, elements)
                },
                None => !fits && final(stream)@ == old(stream)@,
            }
        }),
{
    let elements = element_inserts(changes);
    assert(elements@.len() == inserts_of(changes@).len());
    if !stream.can_insert(elements.len()) {
        return None;
    }
    Some(stream.initial_inserts(elements, now_ns))
}

/// What the model's next change is to the stream: only updates of stocks are expected.
pub fn model_update(change: Option<ModelChange>, shown: String) -> (r: ModelUpdate)
    ensures
        match change {
            Some(ModelChange::StockUpdated(before, after)) => r == (ModelUpdate::Updated {
                before,
                after,
            }),
            Some(_) => r == ModelUpdate::Unexpected(shown),
            None => r == ModelUpdate::Nothing,
        },
{
    match change {
        Some(ModelChange::StockUpdated(before, after)) => ModelUpdate::Updated { before, after },
        Some(_) => ModelUpdate::Unexpected(shown),
        None => ModelUpdate::Nothing,
    }
}

/// The initial data that the model's stocks make up.
pub fn get_data(changes: &Vec<ModelChange>) -> (r: BootstrapData)
    ensures
        r@ == with_nodes(no_data(), "Stock"@, stocks_of(changes@)),
{
    let mut data = BootstrapData::new();
    data.add_nodes("Stock", added_stocks(changes));
    data
}

} // verus!
