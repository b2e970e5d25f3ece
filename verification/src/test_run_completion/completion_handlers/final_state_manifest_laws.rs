//! What holds of stored final states and their comparison.

use crate::hashing::sha256_hex;
use crate::json::json_text;
use crate::ordered::{
    lemma_ascending_is_sorted, lemma_ascending_lookup, lemma_listable, lemma_listing_of_list,
    lemma_sorting_forgets_order, lemma_to_map, listable, listing, to_map, OrderedKey,
};
use crate::reactions::output_loggers::final_state::{
    aggregate_message, canonical_value, final_row_of, final_rows, state_hash, summary_of,
    FinalRowView, FinalStateView, RowView, SummaryView,
};
use crate::reactions::output_loggers::final_state_laws::consistent;
use crate::test_run_completion::completion_handlers::final_state_manifest::{
    hash_entries, hash_entry, hash_message, lacking, manifest_error, named_rows, only_in,
    reaction_error, reaction_verdict, reactions_error, row_error, row_name, rows_hash, ReactionView,
    FINAL_STATE_SCHEMA_VERSION,
};
use vstd::prelude::*;

verus! {

/// A summary as a stored final state.
pub open spec fn stored(summary: SummaryView) -> ReactionView {
    ReactionView {
        mode: summary.mode,
        sha256: summary.sha256,
        row_count: summary.row_count,
        change_count: summary.change_count,
        duplicate_count: summary.duplicate_count,
        missing_before_count: summary.missing_before_count,
        skipped_record_count: summary.skipped_record_count,
        normalization_error_count: summary.normalization_error_count,
        normalization_errors: summary.normalization_errors,
        query_ids: summary.query_ids,
        rows: summary.rows,
    }
}

/// The rows, in the order of their identities, are in the order of their texts.
pub open spec fn in_text_order(state: FinalStateView) -> bool {
    let list = listing::<(String, Vec<u8>), RowView>(state.rows);
    forall|i: int, j: int|
        0 <= i < j < list.len() ==> <(String, Vec<u8>) as OrderedKey>::before(
            text_key(#[trigger] list[i]),
            text_key(#[trigger] list[j]),
        )
}

/// The query of a row and its text.
pub open spec fn text_key(entry: ((Seq<char>, Seq<u8>), RowView)) -> (Seq<char>, Seq<u8>) {
    (entry.0.0, entry.1.canonical)
}

/// Rows that are identified by their whole text are in the order of their texts.
pub proof fn lemma_unkeyed_rows_are_in_text_order(state: FinalStateView)
    requires
        consistent(state),
        state.key_fields.len() == 0,
    ensures
        in_text_order(state),
{
    let list = listing::<(String, Vec<u8>), RowView>(state.rows);
    assert forall|i: int, j: int| 0 <= i < j < list.len() implies <(
        String,
        Vec<u8>,
    ) as OrderedKey>::before(text_key(#[trigger] list[i]), text_key(#[trigger] list[j])) by {
        lemma_ascending_lookup::<(String, Vec<u8>), RowView>(list, i);
        lemma_ascending_lookup::<(String, Vec<u8>), RowView>(list, j);
        assert(state.rows.contains_key(list[i].0));
        assert(state.rows.contains_key(list[j].0));
        assert(text_key(list[i]) == list[i].0);
        assert(text_key(list[j]) == list[j].0);
    }
}

/// What a logger summarizes is a valid stored final state, provided that every record was
/// normalized and the rows are in the order of their texts.
pub proof fn lemma_summaries_are_valid(
    state: FinalStateView,
    path: Seq<char>,
    reaction_id: Seq<char>,
)
    requires
        consistent(state),
        in_text_order(state),
        state.normalization_error_count == 0,
    ensures
        reaction_error(path, reaction_id, stored(summary_of(state))) is None,
{
    let list = listing::<(String, Vec<u8>), RowView>(state.rows);
    let rows = final_rows(list);
    lemma_entries_consistent(state);
    lemma_rows_valid(path, reaction_id, list);
    let entries = hash_entries(rows);
    assert forall|i: int, j: int| 0 <= i < j < entries.len() implies <(
        String,
        Vec<u8>,
    ) as OrderedKey>::before(#[trigger] entries[i].0, #[trigger] entries[j].0) by {
        assert(entries[i].0 == text_key(list[i]));
        assert(entries[j].0 == text_key(list[j]));
    }
    lemma_ascending_is_sorted::<(String, Vec<u8>), Seq<char>>(entries);
    lemma_same_message(list);
    assert(rows_hash(rows) == state_hash(state));
}

/// In the listing of a consistent state each entry is consistent.
proof fn lemma_entries_consistent(state: FinalStateView)
    requires
        consistent(state),
    ensures
        ({
            let list = listing::<(String, Vec<u8>), RowView>(state.rows);
            forall|i: int|
                0 <= i < list.len() ==> (#[trigger] list[i]).1.canonical == json_text(
                    canonical_value(list[i].1.value),
                )
        }),
{
    let list = listing::<(String, Vec<u8>), RowView>(state.rows);
    assert forall|i: int| 0 <= i < list.len() implies (#[trigger] list[i]).1.canonical == json_text(
        canonical_value(list[i].1.value),
    ) by {
        lemma_ascending_lookup::<(String, Vec<u8>), RowView>(list, i);
        assert(state.rows.contains_key(list[i].0));
    }
}

proof fn lemma_rows_valid(
    path: Seq<char>,
    reaction_id: Seq<char>,
    list: Seq<((Seq<char>, Seq<u8>), RowView)>,
)
    requires
        forall|i: int|
            0 <= i < list.len() ==> (#[trigger] list[i]).1.canonical == json_text(
                canonical_value(list[i].1.value),
            ),
    ensures
        row_error(path, reaction_id, final_rows(list)) is None,
    decreases list.len(),
{
    let rows = final_rows(list);
    if list.len() > 0 {
        let front = list.drop_last();
        assert forall|i: int| 0 <= i < front.len() implies (#[trigger] front[i]).1.canonical
            == json_text(canonical_value(front[i].1.value)) by {
            assert(front[i] == list[i]);
        }
        lemma_rows_valid(path, reaction_id, front);
        assert(rows.drop_last() =~= final_rows(front));
        assert(rows.last() == final_row_of(list[list.len() - 1]));
    }
}

/// The hashes of the rows make up the message that the state's hash is taken of.
proof fn lemma_same_message(list: Seq<((Seq<char>, Seq<u8>), RowView)>)
    ensures
        hash_message(hash_entries(final_rows(list))) == aggregate_message(list),
    decreases list.len(),
{
    let entries = hash_entries(final_rows(list));
    if list.len() > 0 {
        lemma_same_message(list.drop_last());
        assert(final_rows(list).drop_last() =~= final_rows(list.drop_last()));
        assert(entries.drop_last() =~= hash_entries(final_rows(list.drop_last())));
        assert(entries.last() == hash_entry(final_row_of(list[list.len() - 1])));
    }
}

/// The hash of a stored row is that of its canonical text.
pub open spec fn row_is_valid(row: FinalRowView) -> bool {
    row.sha256 == sha256_hex(json_text(canonical_value(row.value)))
}

/// A stored final state says of itself what is so: its mode, that every record was normalized,
/// the number of its rows, and the hashes of each row and of all.
pub open spec fn reaction_is_valid(reaction: ReactionView) -> bool {
    &&& reaction.mode == "final_state"@
    &&& reaction.normalization_error_count == 0
    &&& reaction.row_count == reaction.rows.len()
    &&& forall|i: int| 0 <= i < reaction.rows.len() ==> row_is_valid(#[trigger] reaction.rows[i])
    &&& reaction.sha256 == rows_hash(reaction.rows)
}

/// The rows are all valid exactly where no error is found among them.
pub proof fn lemma_rows_valid_iff(path: Seq<char>, reaction_id: Seq<char>, rows: Seq<FinalRowView>)
    ensures
        row_error(path, reaction_id, rows) is None <==> (forall|i: int|
            0 <= i < rows.len() ==> row_is_valid(#[trigger] rows[i])),
    decreases rows.len(),
{
    if rows.len() > 0 {
        let front = rows.drop_last();
        lemma_rows_valid_iff(path, reaction_id, front);
        if row_error(path, reaction_id, rows) is None {
            assert forall|i: int| 0 <= i < rows.len() implies row_is_valid(#[trigger] rows[i]) by {
                if i < front.len() {
                    assert(front[i] == rows[i]);
                }
            }
        }
        if forall|i: int| 0 <= i < rows.len() ==> row_is_valid(#[trigger] rows[i]) {
            assert forall|i: int| 0 <= i < front.len() implies row_is_valid(#[trigger] front[i]) by {
                assert(front[i] == rows[i]);
            }
            assert(row_is_valid(rows[rows.len() - 1]));
        }
    }
}

/// A stored final state is refused exactly where it says something of itself that is not so.
pub proof fn lemma_reaction_is_refused_iff_invalid(
    path: Seq<char>,
    reaction_id: Seq<char>,
    reaction: ReactionView,
)
    ensures
        reaction_error(path, reaction_id, reaction) is Some <==> !reaction_is_valid(reaction),
{
    lemma_rows_valid_iff(path, reaction_id, reaction.rows);
}

proof fn lemma_reactions_valid_iff(path: Seq<char>, reactions: Seq<(Seq<char>, ReactionView)>)
    ensures
        reactions_error(path, reactions) is None <==> (forall|i: int|
            0 <= i < reactions.len() ==> reaction_is_valid((#[trigger] reactions[i]).1)),
    decreases reactions.len(),
{
    if reactions.len() > 0 {
        let front = reactions.drop_last();
        lemma_reactions_valid_iff(path, front);
        let last = reactions[reactions.len() - 1];
        lemma_reaction_is_refused_iff_invalid(path, last.0, last.1);
        if reactions_error(path, reactions) is None {
            assert forall|i: int| 0 <= i < reactions.len() implies reaction_is_valid(
                (#[trigger] reactions[i]).1,
            ) by {
                if i < front.len() {
                    assert(front[i] == reactions[i]);
                }
            }
        }
        if forall|i: int|
            0 <= i < reactions.len() ==> reaction_is_valid((#[trigger] reactions[i]).1) {
            assert forall|i: int| 0 <= i < front.len() implies reaction_is_valid(
                (#[trigger] front[i]).1,
            ) by {
                assert(front[i] == reactions[i]);
            }
        }
    }
}

/// A manifest is accepted exactly where it is of the known version and every final state in it
/// is valid.
pub proof fn lemma_manifest_is_accepted_iff_valid(
    path: Seq<char>,
    schema_version: u32,
    reactions: Map<Seq<char>, ReactionView>,
)
    requires
        listable::<String, ReactionView>(reactions),
    ensures
        manifest_error(path, schema_version, reactions) is None <==> schema_version
            == FINAL_STATE_SCHEMA_VERSION && (forall|id: Seq<char>| #[trigger]
            reactions.contains_key(id) ==> reaction_is_valid(reactions[id])),
{
    let list = listing::<String, ReactionView>(reactions);
    lemma_reactions_valid_iff(path, list);
    lemma_to_map(list);
    assert forall|i: int| 0 <= i < list.len() implies reactions.contains_key((#[trigger] list[i]).0)
        && reactions[list[i].0] == list[i].1 by {
        lemma_ascending_lookup::<String, ReactionView>(list, i);
    }
    if forall|i: int| 0 <= i < list.len() ==> reaction_is_valid((#[trigger] list[i]).1) {
        assert forall|id: Seq<char>| #[trigger]
            reactions.contains_key(id) implies reaction_is_valid(reactions[id]) by {
            let i = choose|i: int| 0 <= i < list.len() && (#[trigger] list[i]).0 == id;
            assert(reaction_is_valid(list[i].1));
        }
    }
    if forall|id: Seq<char>| #[trigger]
        reactions.contains_key(id) ==> reaction_is_valid(reactions[id]) {
        assert forall|i: int| 0 <= i < list.len() implies reaction_is_valid(
            (#[trigger] list[i]).1,
        ) by {
            assert(reactions.contains_key(list[i].0));
        }
    }
}

/// A manifest in which something was altered is refused: its version, or of one of its final
/// states, valid before, the mode, the number of rows, the hash, the hash of a row, or the
/// count of errors. So is one in which a row has a value of another hash.
pub proof fn lemma_altered_manifests_are_refused(
    path: Seq<char>,
    schema_version: u32,
    reactions: Map<Seq<char>, ReactionView>,
    id: Seq<char>,
    i: int,
    altered: ReactionView,
)
    requires
        listable::<String, ReactionView>(reactions),
        reactions.contains_key(id),
        manifest_error(path, schema_version, reactions) is None,
        ({
            let valid = reactions[id];
            let row = valid.rows[i];
            ||| altered.mode != valid.mode && altered == (ReactionView {
                mode: altered.mode,
                ..valid
            })
            ||| altered.row_count != valid.row_count && altered == (ReactionView {
                row_count: altered.row_count,
                ..valid
            })
            ||| altered.sha256 != valid.sha256 && altered == (ReactionView {
                sha256: altered.sha256,
                ..valid
            })
            ||| altered.normalization_error_count > 0
            ||| 0 <= i < valid.rows.len() && altered.rows.len() == valid.rows.len()
                && altered.rows[i].value == row.value && altered.rows[i].sha256 != row.sha256
            ||| 0 <= i < valid.rows.len() && altered.rows.len() == valid.rows.len()
                && altered.rows[i].sha256 == row.sha256 && sha256_hex(
                json_text(canonical_value(altered.rows[i].value)),
            ) != sha256_hex(json_text(canonical_value(row.value)))
        }),
    ensures
        manifest_error(path, schema_version, reactions.insert(id, altered)) is Some,
        forall|other: u32|
            other != schema_version ==> #[trigger] manifest_error(path, other, reactions) is Some,
{
    lemma_manifest_is_accepted_iff_valid(path, schema_version, reactions);
    let valid = reactions[id];
    assert(reaction_is_valid(valid));
    if 0 <= i < valid.rows.len() {
        assert(row_is_valid(valid.rows[i]));
    }
    assert(!reaction_is_valid(altered)) by {
        if reaction_is_valid(altered) && 0 <= i < altered.rows.len() {
            assert(row_is_valid(altered.rows[i]));
        }
    }
    let next = reactions.insert(id, altered);
    lemma_listable::<String, ReactionView>(reactions, id, altered);
    lemma_manifest_is_accepted_iff_valid(path, schema_version, next);
    assert(next.contains_key(id) && next[id] == altered);
}

/// The order of its rows does not matter to whether a stored final state is valid.
pub proof fn lemma_row_order_keeps_validity(
    path: Seq<char>,
    reaction_id: Seq<char>,
    reaction: ReactionView,
    rows: Seq<FinalRowView>,
)
    requires
        reaction_error(path, reaction_id, reaction) is None,
        rows.to_multiset() == reaction.rows.to_multiset(),
    ensures
        reaction_error(path, reaction_id, ReactionView { rows, ..reaction }) is None,
{
    broadcast use vstd::seq_lib::group_to_multiset_ensures;

    lemma_reaction_is_refused_iff_invalid(path, reaction_id, reaction);
    let before = reaction.rows;
    assert(rows.len() == before.len()) by {
        assert(rows.to_multiset().len() == rows.len());
        assert(before.to_multiset().len() == before.len());
    }
    assert forall|i: int| 0 <= i < rows.len() implies row_is_valid(#[trigger] rows[i]) by {
        assert(rows.contains(rows[i]));
        assert(rows.to_multiset().count(rows[i]) > 0);
        assert(before.contains(rows[i]));
        let j = choose|j: int| 0 <= j < before.len() && before[j] == rows[i];
        assert(row_is_valid(before[j]));
    }
    let entry = |row: FinalRowView| hash_entry(row);
    assert(hash_entries(before) =~= before.map_values(entry));
    assert(hash_entries(rows) =~= rows.map_values(entry));
    lemma_mapping_keeps_sameness(before, rows, entry);
    let entries = hash_entries(before);
    assert forall|i: int, j: int|
        0 <= i < entries.len() && 0 <= j < entries.len() && (#[trigger] entries[i]).0 == (
        #[trigger] entries[j]).0 implies entries[i] == entries[j] by {
        assert(row_is_valid(before[i]) && row_is_valid(before[j]));
    }
    lemma_sorting_forgets_order::<(String, Vec<u8>), Seq<char>>(entries, hash_entries(rows));
    lemma_reaction_is_refused_iff_invalid(path, reaction_id, ReactionView { rows, ..reaction });
}

/// Lists of the same values have the same values under a function.
proof fn lemma_mapping_keeps_sameness<A, B>(s: Seq<A>, t: Seq<A>, f: spec_fn(A) -> B)
    requires
        s.to_multiset() == t.to_multiset(),
    ensures
        s.map_values(f).to_multiset() == t.map_values(f).to_multiset(),
    decreases s.len(),
{
    broadcast use vstd::seq_lib::group_to_multiset_ensures;

    assert(s.len() == t.len()) by {
        assert(s.to_multiset().len() == s.len());
        assert(t.to_multiset().len() == t.len());
    }
    if s.len() > 0 {
        let x = s.last();
        let a = s.drop_last();
        assert(s[s.len() - 1] == x);
        assert(s.contains(x));
        assert(s.to_multiset().count(x) > 0);
        assert(t.contains(x));
        let k = choose|k: int| 0 <= k < t.len() && t[k] == x;
        let b = t.remove(k);
        assert(a.push(x) =~= s);
        assert(a.to_multiset() =~= s.to_multiset().remove(x));
        assert(b.to_multiset() =~= t.to_multiset().remove(x));
        lemma_mapping_keeps_sameness(a, b, f);
        assert(s.map_values(f) =~= a.map_values(f).push(f(x)));
        assert(t.map_values(f).remove(k) =~= b.map_values(f));
        assert(t.map_values(f)[k] == f(x));
        assert(b.map_values(f).to_multiset() =~= t.map_values(f).to_multiset().remove(f(x)));
        assert(t.map_values(f).contains(f(x)));
        assert(t.map_values(f).to_multiset().count(f(x)) > 0);
        assert(t.map_values(f).to_multiset() =~= b.map_values(f).to_multiset().insert(f(x)));
        assert(s.map_values(f).to_multiset() =~= a.map_values(f).to_multiset().insert(f(x)));
    } else {
        assert(s =~= t);
    }
}

/// The rows that one map has and another lacks are none exactly where the other names all
/// of its rows.
proof fn lemma_only_in(
    entries: Seq<(Seq<char>, FinalRowView)>,
    other: Map<Seq<char>, FinalRowView>,
)
    ensures
        only_in(entries, other).len() == 0 <==> (forall|i: int|
            0 <= i < entries.len() ==> other.contains_key((#[trigger] entries[i]).0)),
    decreases entries.len(),
{
    if entries.len() > 0 {
        let front = entries.drop_last();
        lemma_only_in(front, other);
        if only_in(entries, other).len() == 0 {
            assert forall|i: int| 0 <= i < entries.len() implies other.contains_key(
                (#[trigger] entries[i]).0,
            ) by {
                if i < front.len() {
                    assert(front[i] == entries[i]);
                }
            }
        }
        if forall|i: int| 0 <= i < entries.len() ==> other.contains_key((#[trigger] entries[i]).0) {
            assert forall|i: int| 0 <= i < front.len() implies other.contains_key(
                (#[trigger] front[i]).0,
            ) by {
                assert(front[i] == entries[i]);
            }
            assert(other.contains_key(entries[entries.len() - 1].0));
        }
    }
}

/// Some row of a list has the name.
pub open spec fn has_row(rows: Seq<FinalRowView>, name: Seq<char>) -> bool {
    exists|i: int| 0 <= i < rows.len() && row_name(#[trigger] rows[i]) == name
}

/// A list's rows that another lacks are none exactly where the other has a row of every
/// name.
proof fn lemma_lacking(a: Seq<FinalRowView>, b: Seq<FinalRowView>)
    ensures
        lacking(to_map(named_rows(a)), to_map(named_rows(b))).len() == 0 <==> (forall|name: Seq<
            char,
        >| #[trigger] has_row(a, name) ==> has_row(b, name)),
{
    let ma = to_map(named_rows(a));
    let mb = to_map(named_rows(b));
    let list = listing::<String, FinalRowView>(ma);
    lemma_listing_of_list::<String, FinalRowView>(named_rows(a));
    lemma_only_in(list, mb);
    lemma_names(a);
    lemma_names(b);
    lemma_to_map(list);
    if lacking(ma, mb).len() == 0 {
        assert forall|name: Seq<char>| #[trigger] has_row(a, name) implies has_row(b, name) by {
            assert(ma.contains_key(name));
            let i = choose|i: int| 0 <= i < list.len() && (#[trigger] list[i]).0 == name;
            assert(mb.contains_key(list[i].0));
        }
    }
    if forall|name: Seq<char>| #[trigger] has_row(a, name) ==> has_row(b, name) {
        assert forall|i: int| 0 <= i < list.len() implies mb.contains_key((#[trigger] list[i]).0) by {
            assert(ma.contains_key(list[i].0));
            assert(has_row(a, list[i].0));
        }
    }
}

/// The names of a list's rows.
pub proof fn lemma_names(rows: Seq<FinalRowView>)
    ensures
        forall|name: Seq<char>| #[trigger]
            to_map(named_rows(rows)).contains_key(name) == has_row(rows, name),
{
    let list = named_rows(rows);
    lemma_to_map(list);
    assert forall|name: Seq<char>| #[trigger] to_map(list).contains_key(name) == has_row(rows, name) by {
        if to_map(list).contains_key(name) {
            let i = choose|i: int| 0 <= i < list.len() && (#[trigger] list[i]).0 == name;
            assert(row_name(rows[i]) == name);
        }
        if has_row(rows, name) {
            let i = choose|i: int| 0 <= i < rows.len() && row_name(#[trigger] rows[i]) == name;
            assert(list[i].0 == name);
            assert(to_map(list).contains_key(list[i].0));
        }
    }
}

/// A reaction passes exactly where both final states are there with one hash, one row count
/// and rows of the same names.
pub proof fn lemma_passes_iff_same_rows(expected: ReactionView, actual: ReactionView, limit: usize)
    ensures
        reaction_verdict(Some(expected), Some(actual), limit).passed <==> {
            &&& expected.sha256 == actual.sha256
            &&& expected.row_count == actual.row_count
            &&& forall|name: Seq<char>| #[trigger]
                has_row(expected.rows, name) == has_row(actual.rows, name)
        },
{
    lemma_lacking(expected.rows, actual.rows);
    lemma_lacking(actual.rows, expected.rows);
}

/// The order of rows does not matter to the comparison.
pub proof fn lemma_row_order_does_not_matter(
    expected: ReactionView,
    actual: ReactionView,
    limit: usize,
)
    requires
        expected.sha256 == actual.sha256,
        expected.row_count == actual.row_count,
        expected.rows.to_multiset() == actual.rows.to_multiset(),
    ensures
        reaction_verdict(Some(expected), Some(actual), limit).passed,
{
    lemma_passes_iff_same_rows(expected, actual, limit);
    lemma_same_names(expected.rows, actual.rows);
    lemma_same_names(actual.rows, expected.rows);
}

proof fn lemma_same_names(a: Seq<FinalRowView>, b: Seq<FinalRowView>)
    requires
        a.to_multiset() == b.to_multiset(),
    ensures
        forall|name: Seq<char>| #[trigger] has_row(a, name) ==> has_row(b, name),
{
    broadcast use vstd::seq_lib::group_to_multiset_ensures;

    assert forall|name: Seq<char>| #[trigger] has_row(a, name) implies has_row(b, name) by {
        let i = choose|i: int| 0 <= i < a.len() && row_name(#[trigger] a[i]) == name;
        assert(a.contains(a[i]));
        assert(a.to_multiset().count(a[i]) > 0);
        assert(b.contains(a[i]));
        let j = choose|j: int| 0 <= j < b.len() && b[j] == a[i];
        assert(row_name(b[j]) == name);
    }
}

/// A final state passes against itself.
pub proof fn lemma_same_state_passes(reaction: ReactionView, limit: usize)
    ensures
        reaction_verdict(Some(reaction), Some(reaction), limit).passed,
        reaction_verdict(Some(reaction), Some(reaction), limit).missing_row_count == 0,
        reaction_verdict(Some(reaction), Some(reaction), limit).unexpected_row_count == 0,
{
    lemma_passes_iff_same_rows(reaction, reaction, limit);
}

/// Runs that leave the same rows pass against each other, however they came by them.
pub proof fn lemma_same_rows_pass(expected: FinalStateView, actual: FinalStateView, limit: usize)
    requires
        expected.rows == actual.rows,
    ensures
        reaction_verdict(
            Some(stored(summary_of(expected))),
            Some(stored(summary_of(actual))),
            limit,
        ).passed,
{
    lemma_passes_iff_same_rows(stored(summary_of(expected)), stored(summary_of(actual)), limit);
}

/// A reaction that only one manifest names does not pass.
pub proof fn lemma_one_sided_reaction_fails(reaction: ReactionView, limit: usize)
    ensures
        !reaction_verdict(Some(reaction), None, limit).passed,
        !reaction_verdict(None, Some(reaction), limit).passed,
{
}

/// A verdict shows as many rows of each kind as there are, up to the limit.
pub proof fn lemma_diagnostics_are_bounded(
    expected: Option<ReactionView>,
    actual: Option<ReactionView>,
    limit: usize,
)
    ensures
        ({
            let v = reaction_verdict(expected, actual, limit);
            &&& v.missing_rows.len() <= limit
            &&& v.missing_rows.len() == if v.missing_row_count <= limit {
                v.missing_row_count
            } else {
                limit as nat
            }
            &&& v.unexpected_rows.len() <= limit
            &&& v.unexpected_rows.len() == if v.unexpected_row_count <= limit {
                v.unexpected_row_count
            } else {
                limit as nat
            }
        }),
{
}

} // verus!
