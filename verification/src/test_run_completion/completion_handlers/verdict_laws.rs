//! What the verdicts on a test run say of what was expected and what came.

use crate::hashing::sha256_hex;
use crate::json::{json_get, json_text, JsonView};
use crate::json_laws::lemma_fields_are_found;
use crate::ordered::{
    ascending, lemma_ascending_lookup, lemma_listing_of_list, lemma_to_map, listable, listing,
    stable_sorted, to_map, OrderedKey,
};
use crate::reactions::output_loggers::OutputLoggerResult;
use crate::reactions::output_loggers::final_state::{canonical_value, FinalRowView};
use crate::test_repo_storage::models::MissingBaselinePolicy;
use crate::test_run_completion::completion_handlers::final_state_check::{
    action_of, checked, verdict_result, CheckActionView, CheckEvent, CheckPhaseView, CheckView,
};
use crate::test_run_completion::completion_handlers::final_state_manifest::{
    failed_reactions, final_state_summary, hash_entries, hash_message, lacking, manifest_error,
    manifest_of, named_rows, only_in, reaction_error, reaction_verdict, reactions_error, row_error,
    row_name, rows_hash, rows_of, unnormalized, verdict_map, FinalStateManifest, FinalStateReaction,
    GoldenRead, ReactionVerdictView, ReactionView,
};
use crate::test_run_completion::completion_handlers::final_state_manifest_laws::{
    has_row, lemma_names, lemma_rows_valid_iff, row_is_valid,
};
use crate::test_run_completion::completion_handlers::sha256_determinism::{
    hash_summary, mismatch_message, ordered_body, ordered_outcome, outcome_of, reported_hash,
    verdict_json, verdict_of, verdicts_of, with_outcome, OrderedOutcome, OrderedVerdictView,
    ReactionOutputs,
};
use crate::text::{decimal, join, text_before};
use vstd::prelude::*;
use vstd::utf8::*;

verus! {

/// Rows that only one side has are entries of that side whose names the other side lacks, in
/// the order of their names, and every such entry is among them.
proof fn lemma_only_in_rows(
    entries: Seq<(Seq<char>, FinalRowView)>,
    other: Map<Seq<char>, FinalRowView>,
)
    requires
        ascending::<String, FinalRowView>(entries),
        forall|i: int| 0 <= i < entries.len() ==> (#[trigger] entries[i]).0 == row_name(entries[i].1),
    ensures
        forall|k: int|
            0 <= k < only_in(entries, other).len() ==> exists|i: int|
                0 <= i < entries.len() && (#[trigger] entries[i]).1 == #[trigger] only_in(
                    entries,
                    other,
                )[k] && !other.contains_key(entries[i].0),
        forall|k: int, l: int|
            0 <= k < l < only_in(entries, other).len() ==> text_before(
                row_name(#[trigger] only_in(entries, other)[k]),
                row_name(#[trigger] only_in(entries, other)[l]),
            ),
        forall|i: int|
            0 <= i < entries.len() && !other.contains_key((#[trigger] entries[i]).0) ==> only_in(
                entries,
                other,
            ).contains(entries[i].1),
    decreases entries.len(),
{
    if entries.len() > 0 {
        let front = entries.drop_last();
        let n = entries.len() - 1;
        let all = only_in(entries, other);
        let some = only_in(front, other);
        assert forall|i: int| 0 <= i < front.len() implies (#[trigger] front[i]).0 == row_name(
            front[i].1,
        ) by {
            assert(front[i] == entries[i]);
        }
        lemma_only_in_rows(front, other);
        assert(entries.last() == entries[n]);
        assert forall|k: int| 0 <= k < all.len() implies exists|i: int|
            0 <= i < entries.len() && (#[trigger] entries[i]).1 == #[trigger] all[k]
                && !other.contains_key(entries[i].0) by {
            if k < some.len() {
                let i = choose|i: int|
                    0 <= i < front.len() && (#[trigger] front[i]).1 == some[k]
                        && !other.contains_key(front[i].0);
                assert(entries[i] == front[i]);
                assert(all[k] == some[k]);
            } else {
                assert(all[k] == entries[n].1);
            }
        }
        assert forall|k: int, l: int| 0 <= k < l < all.len() implies text_before(
            row_name(#[trigger] all[k]),
            row_name(#[trigger] all[l]),
        ) by {
            assert(all[k] == some[k]);
            if l < some.len() {
                assert(all[l] == some[l]);
            } else {
                let i = choose|i: int|
                    0 <= i < front.len() && (#[trigger] front[i]).1 == some[k]
                        && !other.contains_key(front[i].0);
                assert(entries[i] == front[i]);
                assert(<String as OrderedKey>::before(entries[i].0, entries[n].0));
            }
        }
        assert forall|i: int|
            0 <= i < entries.len() && !other.contains_key(
                (#[trigger] entries[i]).0,
            ) implies all.contains(entries[i].1) by {
            if i < n {
                assert(front[i] == entries[i]);
                let k = choose|k: int| 0 <= k < some.len() && some[k] == entries[i].1;
                assert(all[k] == some[k]);
            } else {
                assert(all[all.len() - 1] == entries[n].1);
            }
        }
    }
}

/// The rows that the first list has and the second lacks.
proof fn lemma_lacking_rows(a: Seq<FinalRowView>, b: Seq<FinalRowView>)
    ensures
        ({
            let rows = lacking(to_map(named_rows(a)), to_map(named_rows(b)));
            &&& forall|k: int|
                0 <= k < rows.len() ==> a.contains(#[trigger] rows[k]) && !has_row(
                    b,
                    row_name(rows[k]),
                )
            &&& forall|k: int, l: int|
                0 <= k < l < rows.len() ==> text_before(
                    row_name(#[trigger] rows[k]),
                    row_name(#[trigger] rows[l]),
                )
            &&& forall|name: Seq<char>| #[trigger]
                has_row(a, name) && !has_row(b, name) ==> has_row(rows, name)
        }),
{
    let named = named_rows(a);
    let map = to_map(named);
    let other = to_map(named_rows(b));
    let entries = listing::<String, FinalRowView>(map);
    let rows = lacking(map, other);
    lemma_listing_of_list::<String, FinalRowView>(named);
    lemma_to_map(named);
    lemma_to_map(entries);
    lemma_names(a);
    lemma_names(b);
    assert forall|i: int| 0 <= i < entries.len() implies (#[trigger] entries[i]).0 == row_name(
        entries[i].1,
    ) && a.contains(entries[i].1) by {
        lemma_ascending_lookup::<String, FinalRowView>(entries, i);
        let key = entries[i].0;
        let j = choose|j: int|
            0 <= j < named.len() && (#[trigger] named[j]).0 == key && map[key] == named[j].1 && (
            forall|l: int| j < l < named.len() ==> (#[trigger] named[l]).0 != key);
        assert(a[j] == entries[i].1);
    }
    lemma_only_in_rows(entries, other);
    assert forall|k: int| 0 <= k < rows.len() implies a.contains(#[trigger] rows[k]) && !has_row(
        b,
        row_name(rows[k]),
    ) by {
        let i = choose|i: int|
            0 <= i < entries.len() && (#[trigger] entries[i]).1 == rows[k] && !other.contains_key(
                entries[i].0,
            );
        assert(a.contains(entries[i].1));
    }
    assert forall|name: Seq<char>| #[trigger] has_row(a, name) && !has_row(b, name) implies has_row(
        rows,
        name,
    ) by {
        assert(map.contains_key(name));
        let i = choose|i: int|
            0 <= i < entries.len() && (#[trigger] entries[i]).0 == name && to_map(entries)[name]
                == entries[i].1 && (forall|j: int|
                i < j < entries.len() ==> (#[trigger] entries[j]).0 != name);
        assert(rows.contains(entries[i].1));
        let k = choose|k: int| 0 <= k < rows.len() && rows[k] == entries[i].1;
        assert(row_name(rows[k]) == name);
    }
}

/// The rows of a state that may be missing.
pub open spec fn rows_in(reaction: Option<ReactionView>) -> Seq<FinalRowView> {
    match reaction {
        Some(reaction) => reaction.rows,
        None => Seq::empty(),
    }
}

/// A row that is reported missing was expected and did not come; one that is reported
/// unexpected came and was not expected. Both lists are in the order of the rows' names, and
/// where the limit leaves room, every such row is in its list.
pub proof fn lemma_reported_rows_are_the_differences(
    expected: Option<ReactionView>,
    actual: Option<ReactionView>,
    limit: usize,
)
    ensures
        ({
            let verdict = reaction_verdict(expected, actual, limit);
            let wanted = rows_in(expected);
            let came = rows_in(actual);
            &&& forall|k: int|
                0 <= k < verdict.missing_rows.len() ==> wanted.contains(
                    #[trigger] verdict.missing_rows[k],
                ) && !has_row(came, row_name(verdict.missing_rows[k]))
            &&& forall|k: int|
                0 <= k < verdict.unexpected_rows.len() ==> came.contains(
                    #[trigger] verdict.unexpected_rows[k],
                ) && !has_row(wanted, row_name(verdict.unexpected_rows[k]))
            &&& forall|k: int, l: int|
                0 <= k < l < verdict.missing_rows.len() ==> text_before(
                    row_name(#[trigger] verdict.missing_rows[k]),
                    row_name(#[trigger] verdict.missing_rows[l]),
                )
            &&& forall|k: int, l: int|
                0 <= k < l < verdict.unexpected_rows.len() ==> text_before(
                    row_name(#[trigger] verdict.unexpected_rows[k]),
                    row_name(#[trigger] verdict.unexpected_rows[l]),
                )
            &&& verdict.missing_row_count <= limit ==> forall|name: Seq<char>| #[trigger]
                has_row(wanted, name) && !has_row(came, name) ==> has_row(
                    verdict.missing_rows,
                    name,
                )
            &&& verdict.unexpected_row_count <= limit ==> forall|name: Seq<char>| #[trigger]
                has_row(came, name) && !has_row(wanted, name) ==> has_row(
                    verdict.unexpected_rows,
                    name,
                )
            &&& verdict.missing_row_count <= limit ==> verdict.missing_rows.len()
                == verdict.missing_row_count
            &&& verdict.unexpected_row_count <= limit ==> verdict.unexpected_rows.len()
                == verdict.unexpected_row_count
        }),
{
    let wanted = rows_in(expected);
    let came = rows_in(actual);
    assert(named_rows(Seq::<FinalRowView>::empty()) =~= Seq::empty());
    assert(rows_of(expected) == to_map(named_rows(wanted)));
    assert(rows_of(actual) == to_map(named_rows(came)));
    lemma_lacking_rows(wanted, came);
    lemma_lacking_rows(came, wanted);
}

/// Comparing the other way round exchanges what is missing and what is unexpected, and agrees
/// on whether the states are the same.
pub proof fn lemma_comparison_is_symmetric(
    expected: Option<ReactionView>,
    actual: Option<ReactionView>,
    limit: usize,
)
    ensures
        ({
            let one = reaction_verdict(expected, actual, limit);
            let other = reaction_verdict(actual, expected, limit);
            &&& one.passed == other.passed
            &&& one.missing_rows == other.unexpected_rows
            &&& one.unexpected_rows == other.missing_rows
            &&& one.missing_row_count == other.unexpected_row_count
            &&& one.unexpected_row_count == other.missing_row_count
            &&& one.expected_sha256 == other.actual_sha256
            &&& one.actual_sha256 == other.expected_sha256
            &&& one.expected_row_count == other.actual_row_count
            &&& one.actual_row_count == other.expected_row_count
        }),
{
}

/// A verdict tells the hash and the number of rows that were expected, and the hash, the
/// number of rows and the counts of what came.
pub proof fn lemma_verdicts_tell_both_sides(
    expected: Option<ReactionView>,
    actual: Option<ReactionView>,
    limit: usize,
)
    ensures
        ({
            let verdict = reaction_verdict(expected, actual, limit);
            &&& match expected {
                Some(e) => verdict.expected_sha256 == Some(e.sha256) && verdict.expected_row_count
                    == Some(e.row_count),
                None => verdict.expected_sha256 is None && verdict.expected_row_count is None,
            }
            &&& match actual {
                Some(a) => verdict.actual_sha256 == Some(a.sha256) && verdict.actual_row_count
                    == Some(a.row_count) && verdict.actual_duplicate_count == Some(
                    a.duplicate_count,
                ) && verdict.actual_missing_before_count == Some(a.missing_before_count),
                None => verdict.actual_sha256 is None && verdict.actual_row_count is None
                    && verdict.actual_duplicate_count is None
                    && verdict.actual_missing_before_count is None,
            }
        }),
{
}

/// There is one verdict for every reaction that either side has, and it compares that
/// reaction's two states.
pub proof fn lemma_every_reaction_has_its_verdict(
    expected: Map<Seq<char>, ReactionView>,
    actual: Map<Seq<char>, ReactionView>,
    limit: usize,
    id: Seq<char>,
)
    ensures
        ({
            let verdicts = verdict_map(expected, actual, limit);
            &&& verdicts.contains_key(id) <==> expected.contains_key(id) || actual.contains_key(id)
            &&& expected.contains_key(id) && actual.contains_key(id) ==> verdicts[id]
                == reaction_verdict(Some(expected[id]), Some(actual[id]), limit)
            &&& expected.contains_key(id) && !actual.contains_key(id) ==> verdicts[id]
                == reaction_verdict(Some(expected[id]), None, limit) && !verdicts[id].passed
            &&& !expected.contains_key(id) && actual.contains_key(id) ==> verdicts[id]
                == reaction_verdict(None, Some(actual[id]), limit) && !verdicts[id].passed
        }),
{
}

/// The reactions that failed are listed in the order of their names: those and no others.
pub proof fn lemma_failures_are_listed(results: Seq<(Seq<char>, ReactionVerdictView)>)
    ensures
        failed_reactions(results).len() <= results.len(),
        failed_reactions(results).len() == 0 <==> forall|i: int|
            0 <= i < results.len() ==> (#[trigger] results[i]).1.passed,
        forall|i: int|
            0 <= i < results.len() && !(#[trigger] results[i]).1.passed ==> failed_reactions(
                results,
            ).contains(results[i].0),
        forall|k: int|
            0 <= k < failed_reactions(results).len() ==> exists|i: int|
                0 <= i < results.len() && !(#[trigger] results[i]).1.passed && results[i].0
                    == #[trigger] failed_reactions(results)[k],
    decreases results.len(),
{
    if results.len() > 0 {
        let front = results.drop_last();
        let n = results.len() - 1;
        let all = failed_reactions(results);
        let some = failed_reactions(front);
        lemma_failures_are_listed(front);
        assert(results.last() == results[n]);
        assert forall|i: int| 0 <= i < results.len() && !(
        #[trigger] results[i]).1.passed implies all.contains(results[i].0) by {
            if i < n {
                assert(front[i] == results[i]);
                let k = choose|k: int| 0 <= k < some.len() && some[k] == results[i].0;
                assert(all[k] == some[k]);
            } else {
                assert(all[all.len() - 1] == results[n].0);
            }
        }
        assert forall|k: int| 0 <= k < all.len() implies exists|i: int|
            0 <= i < results.len() && !(#[trigger] results[i]).1.passed && results[i].0
                == #[trigger] all[k] by {
            if k < some.len() {
                let i = choose|i: int|
                    0 <= i < front.len() && !(#[trigger] front[i]).1.passed && front[i].0
                        == some[k];
                assert(results[i] == front[i]);
                assert(all[k] == some[k]);
            } else {
                assert(all[k] == results[n].0);
            }
        }
        if all.len() == 0 {
            assert forall|i: int| 0 <= i < results.len() implies (
            #[trigger] results[i]).1.passed by {
                if !results[i].1.passed {
                    assert(all.contains(results[i].0));
                }
            }
        } else {
            assert(all[0] == all[0]);
        }
    }
}

/// The comparison passes exactly where every reaction that either side has is there on both
/// sides and passes.
pub proof fn lemma_passing_means_every_reaction_passes(
    expected: Map<Seq<char>, ReactionView>,
    actual: Map<Seq<char>, ReactionView>,
    limit: usize,
)
    requires
        listable::<String, ReactionVerdictView>(verdict_map(expected, actual, limit)),
    ensures
        verdict_result(verdict_map(expected, actual, limit)) is Ok <==> forall|id: Seq<char>|
            #![trigger expected.contains_key(id)]
            #![trigger actual.contains_key(id)]
            expected.contains_key(id) || actual.contains_key(id) ==> expected.contains_key(id)
                && actual.contains_key(id) && reaction_verdict(
                Some(expected[id]),
                Some(actual[id]),
                limit,
            ).passed,
{
    let verdicts = verdict_map(expected, actual, limit);
    let list = listing::<String, ReactionVerdictView>(verdicts);
    lemma_failures_are_listed(list);
    lemma_to_map(list);
    if verdict_result(verdicts) is Ok {
        assert forall|id: Seq<char>|
            expected.contains_key(id) || actual.contains_key(id) implies expected.contains_key(id)
            && actual.contains_key(id) && reaction_verdict(
            Some(expected[id]),
            Some(actual[id]),
            limit,
        ).passed by {
            lemma_every_reaction_has_its_verdict(expected, actual, limit, id);
            let i = choose|i: int|
                0 <= i < list.len() && (#[trigger] list[i]).0 == id && to_map(list)[id]
                    == list[i].1 && (forall|j: int|
                    i < j < list.len() ==> (#[trigger] list[j]).0 != id);
            assert(list[i].1.passed);
        }
    }
    if forall|id: Seq<char>|
        #![trigger expected.contains_key(id)]
        #![trigger actual.contains_key(id)]
        expected.contains_key(id) || actual.contains_key(id) ==> expected.contains_key(id)
            && actual.contains_key(id) && reaction_verdict(
            Some(expected[id]),
            Some(actual[id]),
            limit,
        ).passed {
        assert forall|i: int| 0 <= i < list.len() implies (#[trigger] list[i]).1.passed by {
            lemma_ascending_lookup::<String, ReactionVerdictView>(list, i);
            let id = list[i].0;
            assert(verdicts.contains_key(id));
            assert(expected.contains_key(id) || actual.contains_key(id));
        }
    }
}

/// A stored state that is valid is compared as what was expected, the run's own state as what
/// came; the verdict is written before the check ends, and its result is the check's.
pub proof fn lemma_stored_states_are_what_is_expected(
    c: CheckView,
    manifest: FinalStateManifest,
    path: String,
    id: Seq<char>,
)
    requires
        c.phase == CheckPhaseView::ReadingGolden,
        manifest_error(path@, manifest.schema_version, manifest.reactions@) is None,
    ensures
        ({
            let golden = GoldenRead::Manifest(manifest);
            let next = checked(c, CheckEvent::GoldenRead { golden, path });
            let done = checked(next, CheckEvent::VerdictWritten(Ok(())));
            &&& action_of(next) == CheckActionView::WriteVerdict
            &&& next.phase matches CheckPhaseView::WritingVerdict(verdicts) && {
                &&& verdicts.contains_key(id) <==> manifest.reactions@.contains_key(id)
                    || c.candidate.contains_key(id)
                &&& manifest.reactions@.contains_key(id) ==> verdicts[id].expected_sha256 == Some(
                    manifest.reactions@[id].sha256,
                )
                &&& c.candidate.contains_key(id) ==> verdicts[id].actual_sha256 == Some(
                    c.candidate[id].sha256,
                )
                &&& action_of(done) == CheckActionView::Finish(verdict_result(verdicts))
            }
        }),
{
}

/// A stored state that is not valid ends the check with what is wrong with it; one that cannot
/// be read or is no manifest ends it too.
pub proof fn lemma_unusable_stored_states_fail(c: CheckView, golden: GoldenRead, path: String)
    requires
        c.phase == CheckPhaseView::ReadingGolden,
        match golden {
            GoldenRead::Unreadable(_) => true,
            GoldenRead::Malformed(_) => true,
            GoldenRead::Manifest(manifest) => manifest_error(
                path@,
                manifest.schema_version,
                manifest.reactions@,
            ) is Some,
            GoldenRead::NotFound(_) => false,
        },
    ensures
        ({
            let next = checked(c, CheckEvent::GoldenRead { golden, path });
            &&& action_of(next) matches CheckActionView::Finish(result) && result is Err
            &&& golden matches GoldenRead::Manifest(manifest) ==> action_of(next)
                == CheckActionView::Finish(
                Err(manifest_error(path@, manifest.schema_version, manifest.reactions@)->Some_0),
            )
        }),
{
}

/// A candidate or a verdict that cannot be written ends the check with that error.
pub proof fn lemma_unwritten_results_fail(c: CheckView, error: String)
    ensures
        c.phase is WritingCandidate ==> action_of(
            checked(c, CheckEvent::CandidateWritten(Err(error))),
        ) == CheckActionView::Finish(Err(error@)),
        c.phase is WritingVerdict ==> action_of(
            checked(c, CheckEvent::VerdictWritten(Err(error))),
        ) == CheckActionView::Finish(Err(error@)),
        c.phase is ReadingGolden ==> action_of(checked(c, CheckEvent::GoldenNotLocated(error)))
            == CheckActionView::Finish(Err(error@)),
{
}

/// A reaction that could not normalize every record is listed; if there is none, nothing is.
pub proof fn lemma_unnormalized_reactions_are_listed(reactions: Seq<(Seq<char>, ReactionView)>)
    ensures
        unnormalized(reactions).len() == 0 <==> forall|i: int|
            0 <= i < reactions.len() ==> (#[trigger] reactions[i]).1.normalization_error_count == 0,
    decreases reactions.len(),
{
    if reactions.len() > 0 {
        let front = reactions.drop_last();
        let n = reactions.len() - 1;
        lemma_unnormalized_reactions_are_listed(front);
        assert(reactions.last() == reactions[n]);
        if unnormalized(reactions).len() == 0 {
            assert forall|i: int| 0 <= i < reactions.len() implies (
            #[trigger] reactions[i]).1.normalization_error_count == 0 by {
                if i < n {
                    assert(front[i] == reactions[i]);
                }
            }
        }
        if forall|i: int|
            0 <= i < reactions.len() ==> (#[trigger] reactions[i]).1.normalization_error_count
                == 0 {
            assert forall|i: int| 0 <= i < front.len() implies (
            #[trigger] front[i]).1.normalization_error_count == 0 by {
                assert(front[i] == reactions[i]);
            }
        }
    }
}

/// The manifest of a run has each reaction under its name with what was read of it, as long as
/// each has a final state that can be read; it is an error otherwise.
pub proof fn lemma_manifests_hold_every_reaction(
    outputs: Seq<ReactionOutputs>,
    readings: Seq<Result<FinalStateReaction, String>>,
)
    requires
        readings.len() == outputs.len(),
        forall|i: int, j: int|
            0 <= i < j < outputs.len() ==> (#[trigger] outputs[i]).reaction_id@ != (
            #[trigger] outputs[j]).reaction_id@,
    ensures
        manifest_of(outputs, readings) is Ok <==> forall|i: int|
            0 <= i < outputs.len() ==> final_state_summary(#[trigger] outputs[i]) is Some
                && readings[i] is Ok,
        manifest_of(outputs, readings) matches Ok(reactions) ==> {
            &&& forall|i: int|
                0 <= i < outputs.len() ==> reactions.contains_key(
                    (#[trigger] outputs[i]).reaction_id@,
                ) && reactions[outputs[i].reaction_id@] == readings[i]->Ok_0@
            &&& forall|id: Seq<char>| #[trigger]
                reactions.contains_key(id) ==> exists|i: int|
                    0 <= i < outputs.len() && (#[trigger] outputs[i]).reaction_id@ == id
        },
    decreases outputs.len(),
{
    if outputs.len() > 0 {
        let front = outputs.drop_last();
        let before = readings.drop_last();
        let n = outputs.len() - 1;
        assert forall|i: int, j: int| 0 <= i < j < front.len() implies (
        #[trigger] front[i]).reaction_id@ != (#[trigger] front[j]).reaction_id@ by {
            assert(front[i] == outputs[i] && front[j] == outputs[j]);
        }
        lemma_manifests_hold_every_reaction(front, before);
        assert(outputs.last() == outputs[n]);
        if manifest_of(outputs, readings) is Ok {
            let reactions = manifest_of(outputs, readings)->Ok_0;
            let some = manifest_of(front, before)->Ok_0;
            assert forall|i: int| 0 <= i < outputs.len() implies final_state_summary(
                #[trigger] outputs[i],
            ) is Some && readings[i] is Ok && reactions.contains_key(outputs[i].reaction_id@)
                && reactions[outputs[i].reaction_id@] == readings[i]->Ok_0@ by {
                if i < n {
                    assert(front[i] == outputs[i]);
                    assert(before[i] == readings[i]);
                    assert(outputs[i].reaction_id@ != outputs[n].reaction_id@);
                }
            }
            assert forall|id: Seq<char>| #[trigger] reactions.contains_key(id) implies exists|i: int|
                0 <= i < outputs.len() && (#[trigger] outputs[i]).reaction_id@ == id by {
                if id == outputs[n].reaction_id@ {
                } else {
                    assert(some.contains_key(id));
                    let i = choose|i: int|
                        0 <= i < front.len() && (#[trigger] front[i]).reaction_id@ == id;
                    assert(outputs[i] == front[i]);
                }
            }
        }
        if forall|i: int|
            0 <= i < outputs.len() ==> final_state_summary(#[trigger] outputs[i]) is Some
                && readings[i] is Ok {
            assert forall|i: int| 0 <= i < front.len() implies final_state_summary(
                #[trigger] front[i],
            ) is Some && before[i] is Ok by {
                assert(front[i] == outputs[i]);
                assert(before[i] == readings[i]);
            }
            assert(final_state_summary(outputs[n]) is Some);
        }
    }
}

/// The hash of a reaction is reported by the first of its loggers that hashes.
pub proof fn lemma_the_first_hash_counts(results: Seq<OutputLoggerResult>, k: int)
    requires
        0 <= k < results.len(),
        results[k].logger_name@ == "DeterminismHash"@,
        forall|i: int|
            0 <= i < k ==> (#[trigger] results[i]).logger_name@ != "DeterminismHash"@,
    ensures
        hash_summary(results) == (match results[k].summary {
            Some(summary) => Some(summary@),
            None => None,
        }),
        reported_hash(results) == (match results[k].summary {
            Some(summary) => match json_get(summary@, "sha256"@) {
                Some(JsonView::Text(hash)) => Some(hash),
                _ => None,
            },
            None => None,
        }),
    decreases results.len(),
{
    if k > 0 {
        let rest = results.skip(1);
        assert(results[0].logger_name@ != "DeterminismHash"@);
        assert(rest[k - 1] == results[k]);
        assert forall|i: int| 0 <= i < k - 1 implies (#[trigger] rest[i]).logger_name@
            != "DeterminismHash"@ by {
            assert(rest[i] == results[i + 1]);
        }
        lemma_the_first_hash_counts(rest, k - 1);
    }
}

/// Without a logger that hashes no hash is reported.
pub proof fn lemma_no_hash_without_its_logger(results: Seq<OutputLoggerResult>)
    requires
        forall|i: int|
            0 <= i < results.len() ==> (#[trigger] results[i]).logger_name@ != "DeterminismHash"@,
    ensures
        hash_summary(results) is None,
        reported_hash(results) is None,
    decreases results.len(),
{
    if results.len() > 0 {
        let rest = results.skip(1);
        assert forall|i: int| 0 <= i < rest.len() implies (#[trigger] rest[i]).logger_name@
            != "DeterminismHash"@ by {
            assert(rest[i] == results[i + 1]);
        }
        lemma_no_hash_without_its_logger(rest);
        assert(results[0].logger_name@ != "DeterminismHash"@);
    }
}

/// A reaction passes exactly where it reports the hash that is expected of it or, where none
/// is expected, where that is only warned of. The verdict tells both hashes.
pub proof fn lemma_reactions_pass_on_their_hash(
    expected: Map<Seq<char>, Seq<char>>,
    policy: MissingBaselinePolicy,
    output: ReactionOutputs,
)
    ensures
        ({
            let (name, verdict) = verdict_of(expected, policy, output);
            let id = output.reaction_id@;
            &&& name == id
            &&& verdict.reaction_id == id
            &&& verdict.actual == reported_hash(output.results@)
            &&& expected.contains_key(id) ==> verdict.expected == Some(expected[id])
                && verdict.passed == (reported_hash(output.results@) == Some(expected[id]))
            &&& !expected.contains_key(id) ==> verdict.expected is None && verdict.passed == (policy
                == MissingBaselinePolicy::Warn)
        }),
{
}

/// A reaction without an expected hash lacks its baseline; one with another hash, or without
/// any, does not match.
pub proof fn lemma_outcomes_of_hashes(
    actual: Option<Seq<char>>,
    expected: Option<Seq<char>>,
    policy: MissingBaselinePolicy,
)
    ensures
        ordered_outcome(actual, expected, policy) == OrderedOutcome::MissingBaseline
            <==> expected is None && policy == MissingBaselinePolicy::Fail,
        ordered_outcome(actual, expected, policy) == OrderedOutcome::Mismatched <==> expected
            is Some && actual != expected,
{
}

/// The reactions with one outcome are listed in the order in which they come: those of two
/// lists put together are those of the first, followed by those of the second.
pub proof fn lemma_outcomes_keep_their_order(
    expected: Map<Seq<char>, Seq<char>>,
    policy: MissingBaselinePolicy,
    a: Seq<ReactionOutputs>,
    b: Seq<ReactionOutputs>,
    output: ReactionOutputs,
    outcome: OrderedOutcome,
)
    ensures
        with_outcome(expected, policy, a + b, outcome) == with_outcome(
            expected,
            policy,
            a,
            outcome,
        ) + with_outcome(expected, policy, b, outcome),
        with_outcome(expected, policy, seq![output], outcome) == if outcome_of(
            expected,
            policy,
            output,
        ) == outcome {
            seq![output.reaction_id@]
        } else {
            Seq::empty()
        },
    decreases b.len(),
{
    reveal_with_fuel(with_outcome, 2);
    assert(seq![output].drop_last() =~= Seq::<ReactionOutputs>::empty());
    if outcome_of(expected, policy, output) == outcome {
        assert(with_outcome(expected, policy, seq![output], outcome) =~= seq![output.reaction_id@]);
    }
    let first = with_outcome(expected, policy, a, outcome);
    if b.len() == 0 {
        assert(a + b =~= a);
        assert(first + with_outcome(expected, policy, b, outcome) =~= first);
    } else {
        lemma_outcomes_keep_their_order(expected, policy, a, b.drop_last(), output, outcome);
        assert((a + b).drop_last() =~= a + b.drop_last());
        assert((a + b).last() == b.last());
        assert(with_outcome(expected, policy, a + b, outcome) =~= first + with_outcome(
            expected,
            policy,
            b,
            outcome,
        ));
    }
}

/// There is one verdict for each reaction.
pub proof fn lemma_one_verdict_for_each_reaction(
    expected: Map<Seq<char>, Seq<char>>,
    policy: MissingBaselinePolicy,
    outputs: Seq<ReactionOutputs>,
)
    ensures
        verdicts_of(expected, policy, outputs).len() == outputs.len(),
        forall|i: int|
            0 <= i < outputs.len() ==> (#[trigger] verdicts_of(expected, policy, outputs)[i]).0
                == outputs[i].reaction_id@ && verdicts_of(expected, policy, outputs)[i].1
                == verdict_of(expected, policy, outputs[i]).1,
{
}

/// A verdict is written down with the hash that came, the hash that was expected, and whether
/// it passed.
pub proof fn lemma_verdicts_are_written_down(verdict: OrderedVerdictView)
    ensures
        ({
            let written = verdict_json(verdict);
            &&& json_get(written, "actual"@) == Some(
                match verdict.actual {
                    Some(hash) => JsonView::Text(hash),
                    None => JsonView::Null,
                },
            )
            &&& json_get(written, "expected"@) == Some(
                match verdict.expected {
                    Some(hash) => JsonView::Text(hash),
                    None => JsonView::Null,
                },
            )
            &&& json_get(written, "passed"@) == Some(JsonView::Bool(verdict.passed))
        }),
{
    reveal_strlit("actual");
    reveal_strlit("expected");
    reveal_strlit("passed");
    let fields = verdict_json(verdict)->Object_0;
    assert(fields.len() == 3);
    assert(fields[0].0 == "actual"@ && fields[0].0[0] == 'a');
    assert(fields[1].0 == "expected"@);
    assert(fields[2].0 == "passed"@ && fields[2].0[0] == 'p');
    lemma_fields_are_found(fields, "actual"@);
    lemma_fields_are_found(fields, "expected"@);
    lemma_fields_are_found(fields, "passed"@);
}

/// The body of the verdicts tells the test run, and has under each reaction's name its verdict.
pub proof fn lemma_bodies_tell_every_verdict(
    test_run_id: Seq<char>,
    verdicts: Seq<(Seq<char>, OrderedVerdictView)>,
    i: int,
)
    requires
        0 <= i < verdicts.len(),
        forall|j: int, k: int|
            0 <= j < k < verdicts.len() ==> (#[trigger] verdicts[j]).1.reaction_id != (
            #[trigger] verdicts[k]).1.reaction_id,
    ensures
        ({
            let body = ordered_body(test_run_id, verdicts);
            &&& json_get(body, "mode"@) == Some(JsonView::Text("ordered_stream"@))
            &&& json_get(body, "test_run_id"@) == Some(JsonView::Text(test_run_id))
            &&& json_get(body, "results"@) matches Some(results) && json_get(
                results,
                verdicts[i].1.reaction_id,
            ) == Some(verdict_json(verdicts[i].1))
        }),
{
    reveal_strlit("mode");
    reveal_strlit("test_run_id");
    reveal_strlit("results");
    let fields = ordered_body(test_run_id, verdicts)->Object_0;
    assert(fields.len() == 3);
    assert(fields[0].0 == "mode"@);
    assert(fields[1].0 == "test_run_id"@);
    assert(fields[2].0 == "results"@);
    lemma_fields_are_found(fields, "mode"@);
    lemma_fields_are_found(fields, "test_run_id"@);
    lemma_fields_are_found(fields, "results"@);
    let results = fields[2].1->Object_0;
    let id = verdicts[i].1.reaction_id;
    lemma_fields_are_found(results, id);
    assert(results[i].0 == id);
    assert forall|j: int| i < j < results.len() implies (#[trigger] results[j]).0 != id by {
        assert(verdicts[i].1.reaction_id != verdicts[j].1.reaction_id);
    }
}

/// The message of a failure first lists the reactions that do not match and then, where there
/// are any, those that lack their baseline.
pub proof fn lemma_messages_list_the_reactions(
    mismatched: Seq<Seq<char>>,
    missing: Seq<Seq<char>>,
)
    ensures
        ({
            let first = "Determinism mismatch for reactions: ["@ + join(mismatched, ", "@) + "]"@;
            let second = "; missing baseline (policy=Fail) for: ["@ + join(missing, ", "@) + "]"@;
            let message = mismatch_message(mismatched, missing);
            &&& message.take(first.len() as int) == first
            &&& message.skip(first.len() as int) == if missing.len() > 0 {
                second
            } else {
                Seq::empty()
            }
        }),
{
    let first = "Determinism mismatch for reactions: ["@ + join(mismatched, ", "@) + "]"@;
    let second = "; missing baseline (policy=Fail) for: ["@ + join(missing, ", "@) + "]"@;
    let message = mismatch_message(mismatched, missing);
    assert(message.take(first.len() as int) =~= first);
    if missing.len() > 0 {
        assert(message.skip(first.len() as int) =~= second);
    } else {
        assert(message.skip(first.len() as int) =~= Seq::<char>::empty());
    }
}

/// The rows reported under a smaller limit are the first of those reported under a larger one.
pub proof fn lemma_limits_cut_off_the_end(
    expected: Option<ReactionView>,
    actual: Option<ReactionView>,
    small: usize,
    large: usize,
)
    requires
        small <= large,
    ensures
        ({
            let few = reaction_verdict(expected, actual, small);
            let many = reaction_verdict(expected, actual, large);
            &&& few.missing_rows == many.missing_rows.take(few.missing_rows.len() as int)
            &&& few.unexpected_rows == many.unexpected_rows.take(few.unexpected_rows.len() as int)
            &&& few.missing_row_count == many.missing_row_count
            &&& few.unexpected_row_count == many.unexpected_row_count
            &&& few.passed == many.passed
        }),
{
    let few = reaction_verdict(expected, actual, small);
    let many = reaction_verdict(expected, actual, large);
    assert(few.missing_rows =~= many.missing_rows.take(few.missing_rows.len() as int));
    assert(few.unexpected_rows =~= many.unexpected_rows.take(few.unexpected_rows.len() as int));
}

/// The failed reactions keep the order in which they come: those of two lists put together are
/// those of the first, followed by those of the second. Each is listed by its name.
pub proof fn lemma_listed_reactions_keep_their_order(
    a: Seq<(Seq<char>, ReactionVerdictView)>,
    b: Seq<(Seq<char>, ReactionVerdictView)>,
    result: (Seq<char>, ReactionVerdictView),
)
    ensures
        failed_reactions(a + b) == failed_reactions(a) + failed_reactions(b),
        failed_reactions(seq![result]) == if result.1.passed {
            Seq::empty()
        } else {
            seq![result.0]
        },
    decreases b.len(),
{
    reveal_with_fuel(failed_reactions, 2);
    assert(seq![result].drop_last() =~= Seq::<(Seq<char>, ReactionVerdictView)>::empty());
    if !result.1.passed {
        assert(failed_reactions(seq![result]) =~= seq![result.0]);
    }
    if b.len() == 0 {
        assert(a + b =~= a);
        assert(failed_reactions(a) + failed_reactions(b) =~= failed_reactions(a));
    } else {
        lemma_listed_reactions_keep_their_order(a, b.drop_last(), result);
        assert((a + b).drop_last() =~= a + b.drop_last());
        assert((a + b).last() == b.last());
        assert(failed_reactions(a + b) =~= failed_reactions(a) + failed_reactions(b));
    }
}

/// The reactions that could not normalize every record keep the order in which they come, each
/// with its name and the number of its errors.
pub proof fn lemma_unnormalized_reactions_keep_their_order(
    a: Seq<(Seq<char>, ReactionView)>,
    b: Seq<(Seq<char>, ReactionView)>,
    reaction: (Seq<char>, ReactionView),
)
    ensures
        unnormalized(a + b) == unnormalized(a) + unnormalized(b),
        reaction.1.normalization_error_count > 0 ==> unnormalized(seq![reaction]) == seq![
            reaction.0 + " ("@ + decimal(reaction.1.normalization_error_count) + ")"@,
        ],
    decreases b.len(),
{
    reveal_with_fuel(unnormalized, 2);
    assert(seq![reaction].drop_last() =~= Seq::<(Seq<char>, ReactionView)>::empty());
    if reaction.1.normalization_error_count > 0 {
        assert(unnormalized(seq![reaction]) =~= seq![
            reaction.0 + " ("@ + decimal(reaction.1.normalization_error_count) + ")"@,
        ]);
    }
    if b.len() == 0 {
        assert(a + b =~= a);
        assert(unnormalized(a) + unnormalized(b) =~= unnormalized(a));
    } else {
        lemma_unnormalized_reactions_keep_their_order(a, b.drop_last(), reaction);
        assert((a + b).drop_last() =~= a + b.drop_last());
        assert((a + b).last() == b.last());
        assert(unnormalized(a + b) =~= unnormalized(a) + unnormalized(b));
    }
}

/// What is hashed of stored rows is one line for each, in their order: the query, a zero byte
/// and the row's hash.
pub proof fn lemma_stored_rows_are_hashed_one_by_one(
    a: Seq<((Seq<char>, Seq<u8>), Seq<char>)>,
    b: Seq<((Seq<char>, Seq<u8>), Seq<char>)>,
    entry: ((Seq<char>, Seq<u8>), Seq<char>),
)
    ensures
        hash_message(a + b) == hash_message(a) + hash_message(b),
        hash_message(seq![entry]) == encode_utf8(entry.0.0) + seq![0u8] + encode_utf8(entry.1)
            + seq![10u8],
    decreases b.len(),
{
    reveal_with_fuel(hash_message, 2);
    assert(seq![entry].drop_last() =~= Seq::<((Seq<char>, Seq<u8>), Seq<char>)>::empty());
    assert(hash_message(seq![entry]) =~= encode_utf8(entry.0.0) + seq![0u8] + encode_utf8(entry.1)
        + seq![10u8]);
    if b.len() == 0 {
        assert(a + b =~= a);
        assert(hash_message(a) + hash_message(b) =~= hash_message(a));
    } else {
        lemma_stored_rows_are_hashed_one_by_one(a, b.drop_last(), entry);
        assert((a + b).drop_last() =~= a + b.drop_last());
        assert((a + b).last() == b.last());
        assert(hash_message(a + b) =~= hash_message(a) + hash_message(b));
    }
}

/// Of several bad rows the first is named, with the hash that it has and the one that it should
/// have.
pub proof fn lemma_the_first_bad_row_is_named(
    path: Seq<char>,
    reaction_id: Seq<char>,
    rows: Seq<FinalRowView>,
    k: int,
)
    requires
        0 <= k < rows.len(),
        !row_is_valid(rows[k]),
        forall|i: int| 0 <= i < k ==> row_is_valid(#[trigger] rows[i]),
    ensures
        row_error(path, reaction_id, rows) == Some(
            "final-state golden '"@ + path + "' reaction '"@ + reaction_id
                + "' contains an invalid row hash: expected "@ + rows[k].sha256 + ", calculated "@
                + sha256_hex(json_text(canonical_value(rows[k].value))),
        ),
    decreases rows.len(),
{
    let front = rows.drop_last();
    let n = rows.len() - 1;
    if k < n {
        assert(front[k] == rows[k]);
        assert forall|i: int| 0 <= i < k implies row_is_valid(#[trigger] front[i]) by {
            assert(front[i] == rows[i]);
        }
        lemma_the_first_bad_row_is_named(path, reaction_id, front, k);
    } else {
        assert forall|i: int| 0 <= i < front.len() implies row_is_valid(#[trigger] front[i]) by {
            assert(front[i] == rows[i]);
        }
        lemma_rows_valid_iff(path, reaction_id, front);
    }
}

/// Of several bad reactions the first is named.
pub proof fn lemma_the_first_bad_reaction_is_named(
    path: Seq<char>,
    reactions: Seq<(Seq<char>, ReactionView)>,
    k: int,
)
    requires
        0 <= k < reactions.len(),
        reaction_error(path, reactions[k].0, reactions[k].1) is Some,
        forall|i: int|
            0 <= i < k ==> reaction_error(path, (#[trigger] reactions[i]).0, reactions[i].1) is None,
    ensures
        reactions_error(path, reactions) == reaction_error(path, reactions[k].0, reactions[k].1),
    decreases reactions.len(),
{
    let front = reactions.drop_last();
    let n = reactions.len() - 1;
    assert(reactions.last() == reactions[n]);
    if k < n {
        assert(front[k] == reactions[k]);
        assert forall|i: int| 0 <= i < k implies reaction_error(
            path,
            (#[trigger] front[i]).0,
            front[i].1,
        ) is None by {
            assert(front[i] == reactions[i]);
        }
        lemma_the_first_bad_reaction_is_named(path, front, k);
    } else {
        assert forall|i: int| 0 <= i < front.len() implies reaction_error(
            path,
            (#[trigger] front[i]).0,
            front[i].1,
        ) is None by {
            assert(front[i] == reactions[i]);
        }
        lemma_no_bad_reaction(path, front);
    }
}

/// Without a bad reaction there is no error.
proof fn lemma_no_bad_reaction(path: Seq<char>, reactions: Seq<(Seq<char>, ReactionView)>)
    requires
        forall|i: int|
            0 <= i < reactions.len() ==> reaction_error(
                path,
                (#[trigger] reactions[i]).0,
                reactions[i].1,
            ) is None,
    ensures
        reactions_error(path, reactions) is None,
    decreases reactions.len(),
{
    if reactions.len() > 0 {
        let front = reactions.drop_last();
        let n = reactions.len() - 1;
        assert forall|i: int| 0 <= i < front.len() implies reaction_error(
            path,
            (#[trigger] front[i]).0,
            front[i].1,
        ) is None by {
            assert(front[i] == reactions[i]);
        }
        lemma_no_bad_reaction(path, front);
        assert(reaction_error(path, reactions[n].0, reactions[n].1) is None);
    }
}

/// What is wrong with a stored reaction is told with its file and its name: its mode first, then
/// its errors, then its number of rows, then its rows, then its hash.
pub proof fn lemma_what_is_wrong_is_told(
    path: Seq<char>,
    id: Seq<char>,
    reaction: ReactionView,
)
    ensures
        ({
            let start = "final-state golden '"@ + path + "' reaction '"@ + id;
            let error = reaction_error(path, id, reaction);
            let known = reaction.mode == "final_state"@;
            let normal = known && reaction.normalization_error_count == 0;
            let counted = normal && reaction.row_count == reaction.rows.len();
            let sound = counted && row_error(path, id, reaction.rows) is None;
            &&& !known ==> error == Some(
                start + "' has unsupported mode '"@ + reaction.mode + "'"@,
            )
            &&& known && !normal ==> error == Some(
                start + "' was captured with "@ + decimal(reaction.normalization_error_count)
                    + " normalization errors"@,
            )
            &&& normal && !counted ==> error == Some(
                start + "' declares row_count="@ + decimal(reaction.row_count)
                    + " but contains "@ + decimal(reaction.rows.len()) + " rows"@,
            )
            &&& counted && !sound ==> error == row_error(path, id, reaction.rows)
            &&& sound && reaction.sha256 != rows_hash(reaction.rows) ==> error == Some(
                start + "' contains an invalid aggregate hash: expected "@ + reaction.sha256
                    + ", calculated "@ + rows_hash(reaction.rows),
            )
        }),
{
}

/// Rows are told by their query and their hash: rows with one name have both in common, as long
/// as their hashes are of one length.
pub proof fn lemma_rows_are_told_by_query_and_hash(a: FinalRowView, b: FinalRowView)
    ensures
        a.query_id == b.query_id && a.sha256 == b.sha256 ==> row_name(a) == row_name(b),
        row_name(a) == row_name(b) && a.sha256.len() == b.sha256.len() ==> a.query_id == b.query_id
            && a.sha256 == b.sha256,
{
    reveal_strlit("\0");
    if row_name(a) == row_name(b) && a.sha256.len() == b.sha256.len() {
        let n = a.query_id.len() as int;
        assert(row_name(a).len() == n + 1 + a.sha256.len());
        assert(row_name(b).len() == b.query_id.len() + 1 + b.sha256.len());
        assert(row_name(a).take(n) =~= a.query_id);
        assert(row_name(b).take(n) =~= b.query_id);
        assert(row_name(a).skip(n + 1) =~= a.sha256);
        assert(row_name(b).skip(n + 1) =~= b.sha256);
    }
}

/// The entries that are hashed of stored rows: each by its query and its canonical text, with
/// its hash.
pub proof fn lemma_hashed_entries(rows: Seq<FinalRowView>)
    ensures
        hash_entries(rows).len() == rows.len(),
        forall|i: int|
            0 <= i < rows.len() ==> #[trigger] hash_entries(rows)[i] == (
                (rows[i].query_id, json_text(canonical_value(rows[i].value))),
                rows[i].sha256,
            ),
        rows_hash(rows) == sha256_hex(
            hash_message(stable_sorted::<(String, Vec<u8>), Seq<char>>(hash_entries(rows))),
        ),
{
}

/// A reaction has a final state exactly where its first logger that hashes reports one.
pub proof fn lemma_where_final_states_come_from(output: ReactionOutputs)
    ensures
        final_state_summary(output) is Some <==> (hash_summary(output.results@) matches Some(
            summary,
        ) && json_get(summary, "mode"@) == Some(JsonView::Text("final_state"@))),
        final_state_summary(output) is Some ==> final_state_summary(output) == hash_summary(
            output.results@,
        ),
{
}

/// A reaction that is read later replaces an earlier one of its name; one that has no final
/// state, or none that can be read, is an error that names it, unless there was one before.
pub proof fn lemma_manifests_grow_by_reactions(
    outputs: Seq<ReactionOutputs>,
    readings: Seq<Result<FinalStateReaction, String>>,
    output: ReactionOutputs,
    reading: Result<FinalStateReaction, String>,
)
    requires
        readings.len() == outputs.len(),
    ensures
        ({
            let before = manifest_of(outputs, readings);
            let after = manifest_of(outputs.push(output), readings.push(reading));
            let id = output.reaction_id@;
            let there = final_state_summary(output) is Some;
            &&& manifest_of(Seq::empty(), Seq::empty()) == Ok::<
                Map<Seq<char>, ReactionView>,
                Seq<char>,
            >(Map::empty())
            &&& before is Err ==> after == before
            &&& before is Ok && !there ==> after == Err::<
                Map<Seq<char>, ReactionView>,
                Seq<char>,
            >("reaction '"@ + id + "' has no final-state DeterminismHash output"@)
            &&& before is Ok && there && reading is Err ==> after == Err::<
                Map<Seq<char>, ReactionView>,
                Seq<char>,
            >("invalid final-state output for reaction '"@ + id + "': "@ + reading->Err_0@)
            &&& before is Ok && there && reading is Ok ==> after == Ok::<
                Map<Seq<char>, ReactionView>,
                Seq<char>,
            >(before->Ok_0.insert(id, reading->Ok_0@))
        }),
{
    assert(outputs.push(output).drop_last() =~= outputs);
    assert(readings.push(reading).drop_last() =~= readings);
}

/// A stored state that is missing where it must not be, or that cannot be read, is reported with
/// its file and the reason; so is one that is no manifest.
pub proof fn lemma_unusable_files_are_reported(c: CheckView, error: String, path: String)
    requires
        c.phase == CheckPhaseView::ReadingGolden,
    ensures
        ({
            let missing = GoldenRead::NotFound(error);
            let unreadable = GoldenRead::Unreadable(error);
            let malformed = GoldenRead::Malformed(error);
            let read = "failed to read final-state golden '"@ + path@ + "': "@ + error@;
            let parse = "failed to parse final-state golden '"@ + path@ + "': "@ + error@;
            &&& c.missing_baseline == MissingBaselinePolicy::Fail ==> action_of(
                checked(c, CheckEvent::GoldenRead { golden: missing, path }),
            ) == CheckActionView::Finish(Err(read))
            &&& action_of(checked(c, CheckEvent::GoldenRead { golden: unreadable, path }))
                == CheckActionView::Finish(Err(read))
            &&& action_of(checked(c, CheckEvent::GoldenRead { golden: malformed, path }))
                == CheckActionView::Finish(Err(parse))
        }),
{
    reveal_strlit("failed to ");
    reveal_strlit("read");
    reveal_strlit("parse");
    reveal_strlit(" final-state golden '");
    reveal_strlit("failed to read final-state golden '");
    reveal_strlit("failed to parse final-state golden '");
    assert("failed to "@ + "read"@ + " final-state golden '"@
        =~= "failed to read final-state golden '"@);
    assert("failed to "@ + "parse"@ + " final-state golden '"@
        =~= "failed to parse final-state golden '"@);
}

} // verus!
