//! What the initial data and the first inserts of a stock model hold.

use crate::ids::TestRunSourceId;
use crate::json::{json_get, JsonView};
use crate::scripts::{no_data, with_nodes};
use crate::sources::model_data_generators::building_hierarchy_laws::{
    lemma_node_inserts_tell_the_node, tells_node,
};
use crate::sources::model_data_generators::stock_trades::{
    are_settings, inserts_of, stocks_of, ModelChange, StockTradeDataGeneratorSettings,
    FIVE_THOUSAND, HALF_A_MILLION, HUNDRED, ONE, ONE_HALF, TEN, TEN_THOUSAND, THREE_TENTHS, TWO,
};
use crate::test_repo_storage::models::{
    SourceChangeDispatcherDefinition, StockTradeDataGeneratorDefinition,
};
use crate::text::texts;
use vstd::prelude::*;

verus! {

/// The stocks are listed, and inserted, in the order in which they are added: those of two
/// lists of changes put together are those of the first, followed by those of the second. Each
/// is listed and inserted as it is added, and nothing else is.
pub proof fn lemma_stocks_keep_their_order(
    a: Seq<ModelChange>,
    b: Seq<ModelChange>,
    change: ModelChange,
)
    ensures
        stocks_of(a + b) == stocks_of(a) + stocks_of(b),
        inserts_of(a + b) == inserts_of(a) + inserts_of(b),
        match change {
            ModelChange::StockAdded(stock) => {
                &&& stocks_of(seq![change]) == seq![stock@]
                &&& inserts_of(seq![change]).len() == 1
                &&& tells_node(
                    inserts_of(seq![change])[0],
                    stock.id@,
                    texts(stock.labels@),
                    stock.properties@,
                )
            },
            _ => stocks_of(seq![change]).len() == 0 && inserts_of(seq![change]).len() == 0,
        },
    decreases b.len(),
{
    reveal_with_fuel(stocks_of, 2);
    assert(seq![change].drop_last() =~= Seq::<ModelChange>::empty());
    if let ModelChange::StockAdded(stock) = change {
        assert(stocks_of(seq![change]) =~= seq![stock@]);
        lemma_node_inserts_tell_the_node(stock@);
    }
    if b.len() == 0 {
        assert(a + b =~= a);
        assert(stocks_of(a) + stocks_of(b) =~= stocks_of(a));
    } else {
        lemma_stocks_keep_their_order(a, b.drop_last(), change);
        assert((a + b).drop_last() =~= a + b.drop_last());
        assert((a + b).last() == b.last());
        assert(stocks_of(a + b) =~= stocks_of(a) + stocks_of(b));
    }
    assert(inserts_of(a + b) =~= inserts_of(a) + inserts_of(b));
}

/// What the first inserts tell is what the initial data list: one insert for each stock, in
/// the same order, with the same identifier and the same properties.
pub proof fn lemma_inserts_and_data_agree(changes: Seq<ModelChange>)
    ensures
        ({
            let data = with_nodes(no_data(), "Stock"@, stocks_of(changes));
            let inserts = inserts_of(changes);
            &&& data.rels.len() == 0
            &&& inserts.len() == 0 ==> data.nodes.len() == 0
            &&& inserts.len() > 0 ==> {
                &&& data.nodes.len() == 1
                &&& data.nodes[0].0 == "Stock"@
                &&& data.nodes[0].1.len() == inserts.len()
                &&& forall|i: int|
                    0 <= i < inserts.len() ==> json_get((#[trigger] inserts[i]).after, "id"@)
                        == Some(JsonView::Text(data.nodes[0].1[i].id)) && json_get(
                        inserts[i].after,
                        "properties"@,
                    ) == Some(data.nodes[0].1[i].properties)
            }
        }),
{
    let inserts = inserts_of(changes);
    assert forall|i: int| 0 <= i < inserts.len() implies json_get(
        (#[trigger] inserts[i]).after,
        "id"@,
    ) == Some(JsonView::Text(stocks_of(changes)[i].id)) && json_get(
        inserts[i].after,
        "properties"@,
    ) == Some(stocks_of(changes)[i].properties) by {
        lemma_node_inserts_tell_the_node(stocks_of(changes)[i]);
    }
}

/// Whatever a definition says, the generator is set up with: each setting from the one of its
/// name.
pub proof fn lemma_definitions_are_followed(
    settings: StockTradeDataGeneratorSettings,
    id: TestRunSourceId,
    definition: StockTradeDataGeneratorDefinition,
    dispatchers: Vec<SourceChangeDispatcherDefinition>,
    seed: u64,
)
    requires
        are_settings(settings, id, definition, dispatchers, seed),
    ensures
        settings.stock_definitions == definition.stock_definitions,
        definition.price_init matches Some(v) ==> settings.price_init == v,
        definition.price_change matches Some(v) ==> settings.price_change == v,
        definition.price_momentum matches Some(v) ==> settings.price_momentum == v,
        definition.price_range matches Some(v) ==> settings.price_range == v,
        definition.volume_init matches Some(v) ==> settings.volume_init == v,
        definition.volume_change matches Some(v) ==> settings.volume_change == v,
        definition.volume_momentum matches Some(v) ==> settings.volume_momentum == v,
        definition.volume_range matches Some(v) ==> settings.volume_range == v,
        definition.common.change_count matches Some(v) ==> settings.change_count == v,
        definition.common.change_interval matches Some(v) ==> settings.change_interval == v,
        definition.common.seed matches Some(v) ==> settings.seed == v,
        definition.price_momentum is None ==> settings.price_momentum.0 == 5,
        definition.volume_init is None ==> settings.volume_init.0 == 1_000_000,
        definition.volume_change is None ==> settings.volume_change.0 == 10_000,
        definition.volume_momentum is None ==> settings.volume_momentum.0 == 3,
        definition.volume_range is None ==> settings.volume_range == (0i64, 1_000_000_000i64),
        definition.common.change_count is None ==> settings.change_count == 100_000,
        definition.common.change_interval is None ==> settings.change_interval.0 == 1_000_000_000
            && settings.change_interval.1.bits == 0 && settings.change_interval.2 == 0
            && settings.change_interval.3 == u64::MAX,
        definition.common.seed is None ==> settings.seed == seed,
        settings.dispatchers == dispatchers,
        settings.id == id,
        settings.spacing_mode == definition.common.spacing_mode,
        settings.time_mode == definition.common.time_mode,
        settings.send_initial_inserts == definition.send_initial_inserts,
{
}

/// Where a definition does not say, prices start around a hundred, and change, gather momentum
/// and are bounded by the given floating-point values; so do volumes.
pub proof fn lemma_floats_by_default(
    settings: StockTradeDataGeneratorSettings,
    id: TestRunSourceId,
    definition: StockTradeDataGeneratorDefinition,
    dispatchers: Vec<SourceChangeDispatcherDefinition>,
    seed: u64,
)
    requires
        are_settings(settings, id, definition, dispatchers, seed),
    ensures
        definition.price_init is None ==> settings.price_init.0.bits == HUNDRED
            && settings.price_init.1.bits == TEN,
        definition.price_change is None ==> settings.price_change.0.bits == ONE
            && settings.price_change.1.bits == TWO,
        definition.price_momentum is None ==> settings.price_momentum.1.bits == TWO
            && settings.price_momentum.2.bits == THREE_TENTHS,
        definition.price_range is None ==> settings.price_range.0.bits == ONE
            && settings.price_range.1.bits == TEN_THOUSAND,
        definition.volume_init is None ==> settings.volume_init.1.bits == HALF_A_MILLION,
        definition.volume_change is None ==> settings.volume_change.1.bits == FIVE_THOUSAND,
        definition.volume_momentum is None ==> settings.volume_momentum.1.bits == ONE
            && settings.volume_momentum.2.bits == ONE_HALF,
{
}

} // verus!
