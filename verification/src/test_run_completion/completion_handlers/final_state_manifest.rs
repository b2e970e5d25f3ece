//! Final states of reactions: reading them off a completed test run, validating a stored
//! one, and comparing the two row by row.

use crate::hashing::{absorbed, sha256_hex, sha256_hex_of, Sha256Stream};
use crate::json::{json_get_str, json_text, Json, JsonView};
use crate::ordered::{
    entry_views, lemma_to_map, listing, stable_sort, stable_sorted, to_map, OrderedMap,
};
use crate::reactions::output_loggers::final_state::{
    canonical_row, canonical_value, FinalRowView, FinalStateRow,
};
use crate::test_repo_storage::models::MissingBaselinePolicy;
use crate::test_run_completion::completion_handlers::sha256_determinism::{
    find_hash_summary, hash_summary, ReactionOutputs,
};
use crate::text::{decimal, join, join_texts, option_text, str_equal, texts, u64_text};
use vstd::prelude::*;
use vstd::string::*;
use vstd::utf8::*;

verus! {

/// The version of the manifest format.
pub const FINAL_STATE_SCHEMA_VERSION: u32 = 1;

/// The final state of one reaction.
#[derive(Debug)]
pub struct FinalStateReaction {
    pub mode: String,
    pub sha256: String,
    pub row_count: usize,
    pub change_count: u64,
    pub duplicate_count: u64,
    pub missing_before_count: u64,
    pub skipped_record_count: u64,
    pub normalization_error_count: usize,
    pub normalization_errors: Vec<String>,
    pub query_ids: Vec<String>,
    pub rows: Vec<FinalStateRow>,
}

/// What the final state of one reaction says.
pub struct ReactionView {
    pub mode: Seq<char>,
    pub sha256: Seq<char>,
    pub row_count: nat,
    pub change_count: nat,
    pub duplicate_count: nat,
    pub missing_before_count: nat,
    pub skipped_record_count: nat,
    pub normalization_error_count: nat,
    pub normalization_errors: Seq<Seq<char>>,
    pub query_ids: Seq<Seq<char>>,
    pub rows: Seq<FinalRowView>,
}

/// The views of a list of rows.
pub open spec fn row_views(rows: Seq<FinalStateRow>) -> Seq<FinalRowView> {
    Seq::new(rows.len(), |i: int| rows[i]@)
}

impl View for FinalStateReaction {
    type V = ReactionView;

    open spec fn view(&self) -> ReactionView {
        ReactionView {
            mode: self.mode@,
            sha256: self.sha256@,
            row_count: self.row_count as nat,
            change_count: self.change_count as nat,
            duplicate_count: self.duplicate_count as nat,
            missing_before_count: self.missing_before_count as nat,
            skipped_record_count: self.skipped_record_count as nat,
            normalization_error_count: self.normalization_error_count as nat,
            normalization_errors: texts(self.normalization_errors@),
            query_ids: texts(self.query_ids@),
            rows: row_views(self.rows@),
        }
    }
}

/// The final states of a test run's reactions.
#[derive(Debug)]
pub struct FinalStateManifest {
    pub schema_version: u32,
    pub reactions: OrderedMap<String, FinalStateReaction>,
}

/// The message that a reaction has no final state.
pub open spec fn no_output_message(reaction_id: Seq<char>) -> Seq<char> {
    "reaction '"@ + reaction_id + "' has no final-state DeterminismHash output"@
}

/// The message that a reaction's final state cannot be read.
pub open spec fn invalid_output_message(reaction_id: Seq<char>, error: Seq<char>) -> Seq<char> {
    "invalid final-state output for reaction '"@ + reaction_id + "': "@ + error
}

/// The summary that a reaction's loggers give of its final state.
pub open spec fn final_state_summary(output: ReactionOutputs) -> Option<JsonView> {
    match hash_summary(output.results@) {
        Some(summary) => if json_get_str(summary, "mode"@) == Some("final_state"@) {
            Some(summary)
        } else {
            None
        },
        None => None,
    }
}

/// The final states read off the outputs, or the first error. The reading of each summary
/// is given.
pub open spec fn manifest_of(
    outputs: Seq<ReactionOutputs>,
    readings: Seq<Result<FinalStateReaction, String>>,
) -> Result<Map<Seq<char>, ReactionView>, Seq<char>>
    decreases outputs.len(),
{
    if outputs.len() == 0 || readings.len() != outputs.len() {
        Ok(Map::empty())
    } else {
        let output = outputs.last();
        match manifest_of(outputs.drop_last(), readings.drop_last()) {
            Ok(reactions) => if final_state_summary(output) is None {
                Err(no_output_message(output.reaction_id@))
            } else {
                match readings.last() {
                    Ok(reaction) => Ok(reactions.insert(output.reaction_id@, reaction@)),
                    Err(error) => Err(invalid_output_message(output.reaction_id@, error@)),
                }
            },
            Err(error) => Err(error),
        }
    }
}

/// An error in a prefix is the error of the whole.
proof fn lemma_first_manifest_error(
    outputs: Seq<ReactionOutputs>,
    readings: Seq<Result<FinalStateReaction, String>>,
    n: int,
)
    requires
        readings.len() == outputs.len(),
        0 <= n <= outputs.len(),
        manifest_of(outputs.take(n), readings.take(n)) is Err,
    ensures
        manifest_of(outputs, readings) == manifest_of(outputs.take(n), readings.take(n)),
    decreases outputs.len(),
{
    if n < outputs.len() {
        assert(outputs.drop_last().take(n) =~= outputs.take(n));
        assert(readings.drop_last().take(n) =~= readings.take(n));
        lemma_first_manifest_error(outputs.drop_last(), readings.drop_last(), n);
    } else {
        assert(outputs.take(n) =~= outputs);
        assert(readings.take(n) =~= readings);
    }
}

/// The summary that a reaction's loggers give of its final state, or the message that
/// there is none.
pub fn final_state_output(output: &ReactionOutputs) -> (r: Result<&Json, String>)
    ensures
        match r {
            Ok(summary) => final_state_summary(*output) == Some(summary@),
            Err(error) => final_state_summary(*output) is None && error@ == no_output_message(
                output.reaction_id@,
            ),
        },
{
    match find_hash_summary(&output.results) {
        Some(summary) => {
            match summary.get_str("mode") {
                Some(mode) => {
                    if str_equal(mode, "final_state") {
                        return Ok(summary);
                    }
                },
                None => {},
            }
        },
        None => {},
    }
    let mut message = "reaction '".to_owned();
    message.append(output.reaction_id.as_str());
    message.append("' has no final-state DeterminismHash output");
    Err(message)
}

/// What makes a stored row invalid: a hash that is not the row's.
pub open spec fn row_error(
    path: Seq<char>,
    reaction_id: Seq<char>,
    rows: Seq<FinalRowView>,
) -> Option<Seq<char>>
    decreases rows.len(),
{
    if rows.len() == 0 {
        None
    } else {
        match row_error(path, reaction_id, rows.drop_last()) {
            Some(error) => Some(error),
            None => {
                let row = rows.last();
                let calculated = sha256_hex(json_text(canonical_value(row.value)));
                if row.sha256 == calculated {
                    None
                } else {
                    Some(
                        "final-state golden '"@ + path + "' reaction '"@ + reaction_id
                            + "' contains an invalid row hash: expected "@ + row.sha256
                            + ", calculated "@ + calculated,
                    )
                }
            },
        }
    }
}

/// A row under its query and canonical text, with its hash.
pub open spec fn hash_entry(row: FinalRowView) -> ((Seq<char>, Seq<u8>), Seq<char>) {
    ((row.query_id, json_text(canonical_value(row.value))), row.sha256)
}

/// The rows under their queries and canonical texts, with their hashes.
pub open spec fn hash_entries(rows: Seq<FinalRowView>) -> Seq<((Seq<char>, Seq<u8>), Seq<char>)> {
    Seq::new(rows.len(), |i: int| hash_entry(rows[i]))
}

/// The message whose digest is the hash of a list of row hashes: for each the query, a zero
/// byte, the row's hash and a newline.
pub open spec fn hash_message(entries: Seq<((Seq<char>, Seq<u8>), Seq<char>)>) -> Seq<u8>
    decreases entries.len(),
{
    if entries.len() == 0 {
        Seq::empty()
    } else {
        hash_message(entries.drop_last()) + encode_utf8(entries.last().0.0) + seq![0u8] + encode_utf8(
            entries.last().1,
        ) + seq![10u8]
    }
}

/// The hash of rows: they are taken in order of query and canonical text.
pub open spec fn rows_hash(rows: Seq<FinalRowView>) -> Seq<char> {
    sha256_hex(hash_message(stable_sorted::<(String, Vec<u8>), Seq<char>>(hash_entries(rows))))
}

/// What makes the stored final state of a reaction invalid, if anything.
pub open spec fn reaction_error(
    path: Seq<char>,
    reaction_id: Seq<char>,
    reaction: ReactionView,
) -> Option<Seq<char>> {
    let start = "final-state golden '"@ + path + "' reaction '"@ + reaction_id;
    if reaction.mode != "final_state"@ {
        Some(start + "' has unsupported mode '"@ + reaction.mode + "'"@)
    } else if reaction.normalization_error_count > 0 {
        Some(
            start + "' was captured with "@ + decimal(reaction.normalization_error_count)
                + " normalization errors"@,
        )
    } else if reaction.row_count != reaction.rows.len() {
        Some(
            start + "' declares row_count="@ + decimal(reaction.row_count) + " but contains "@
                + decimal(reaction.rows.len()) + " rows"@,
        )
    } else if row_error(path, reaction_id, reaction.rows) is Some {
        row_error(path, reaction_id, reaction.rows)
    } else if reaction.sha256 != rows_hash(reaction.rows) {
        Some(
            start + "' contains an invalid aggregate hash: expected "@ + reaction.sha256
                + ", calculated "@ + rows_hash(reaction.rows),
        )
    } else {
        None
    }
}

/// The first error among a list of final states.
pub open spec fn reactions_error(
    path: Seq<char>,
    reactions: Seq<(Seq<char>, ReactionView)>,
) -> Option<Seq<char>>
    decreases reactions.len(),
{
    if reactions.len() == 0 {
        None
    } else {
        match reactions_error(path, reactions.drop_last()) {
            Some(error) => Some(error),
            None => reaction_error(path, reactions.last().0, reactions.last().1),
        }
    }
}

/// What makes a stored manifest invalid, if anything: another version, or the first error
/// in order of the reactions' names.
pub open spec fn manifest_error(
    path: Seq<char>,
    schema_version: u32,
    reactions: Map<Seq<char>, ReactionView>,
) -> Option<Seq<char>> {
    if schema_version != FINAL_STATE_SCHEMA_VERSION {
        Some(
            "unsupported final-state golden schema_version "@ + decimal(schema_version as nat)
                + " in '"@ + path + "' (expected "@ + decimal(FINAL_STATE_SCHEMA_VERSION as nat) + ")"@,
        )
    } else {
        reactions_error(path, listing::<String, ReactionView>(reactions))
    }
}

/// An error of a prefix is the error of the whole list.
proof fn lemma_first_row_error(
    path: Seq<char>,
    reaction_id: Seq<char>,
    rows: Seq<FinalRowView>,
    n: int,
)
    requires
        0 <= n <= rows.len(),
        row_error(path, reaction_id, rows.take(n)) is Some,
    ensures
        row_error(path, reaction_id, rows) == row_error(path, reaction_id, rows.take(n)),
    decreases rows.len(),
{
    if n < rows.len() {
        assert(rows.drop_last().take(n) =~= rows.take(n));
        lemma_first_row_error(path, reaction_id, rows.drop_last(), n);
    } else {
        assert(rows.take(n) =~= rows);
    }
}

/// An error of a prefix is the error of the whole list.
proof fn lemma_first_reaction_error(
    path: Seq<char>,
    reactions: Seq<(Seq<char>, ReactionView)>,
    n: int,
)
    requires
        0 <= n <= reactions.len(),
        reactions_error(path, reactions.take(n)) is Some,
    ensures
        reactions_error(path, reactions) == reactions_error(path, reactions.take(n)),
    decreases reactions.len(),
{
    if n < reactions.len() {
        assert(reactions.drop_last().take(n) =~= reactions.take(n));
        lemma_first_reaction_error(path, reactions.drop_last(), n);
    } else {
        assert(reactions.take(n) =~= reactions);
    }
}

/// The hash of rows, in order of query and canonical text.
pub fn aggregate_row_hash(rows: &Vec<FinalStateRow>) -> (r: String)
    ensures
        r@ == rows_hash(row_views(rows@)),
{
    let ghost views = row_views(rows@);
    let mut entries: Vec<((String, Vec<u8>), String)> = Vec::new();
    let mut i: usize = 0;
    while i < rows.len()
        invariant
            0 <= i <= rows@.len(),
            views == row_views(rows@),
            entries@.len() == i,
            forall|j: int|
                0 <= j < i ==> ((#[trigger] entries@[j]).0@, entries@[j].1@) == hash_entry(views[j]),
        decreases rows@.len() - i,
    {
        let (canonical, _) = canonical_row(rows[i].value.copy());
        entries.push(((rows[i].query_id.clone(), canonical), rows[i].sha256.clone()));
        i = i + 1;
    }
    assert(entry_views(entries@) =~= hash_entries(views));
    let entries = stable_sort(entries);
    let ghost list = entry_views(entries@);
    let mut aggregate = Sha256Stream::new();
    let zero: Vec<u8> = vec![0u8];
    let newline: Vec<u8> = vec![10u8];
    proof {
        assert(zero@ =~= seq![0u8]);
        assert(newline@ =~= seq![10u8]);
        assert(list.take(0) =~= Seq::empty());
    }
    let mut k: usize = 0;
    while k < entries.len()
        invariant
            0 <= k <= entries@.len(),
            list == entry_views(entries@),
            zero@ == seq![0u8],
            newline@ == seq![10u8],
            absorbed(aggregate) == hash_message(list.take(k as int)),
        decreases entries@.len() - k,
    {
        proof {
            assert(list.take(k + 1).drop_last() =~= list.take(k as int));
            assert(list[k as int] == (entries@[k as int].0@, entries@[k as int].1@));
        }
        aggregate.update(entries[k].0.0.as_str().as_bytes());
        aggregate.update(zero.as_slice());
        aggregate.update(entries[k].1.as_str().as_bytes());
        aggregate.update(newline.as_slice());
        k = k + 1;
    }
    assert(list.take(list.len() as int) =~= list);
    aggregate.finish_hex()
}

/// The start of a message about a stored reaction.
fn message_start(path: &str, reaction_id: &str) -> (r: String)
    ensures
        r@ == "final-state golden '"@ + path@ + "' reaction '"@ + reaction_id@,
{
    let mut message = "final-state golden '".to_owned();
    message.append(path);
    message.append("' reaction '");
    message.append(reaction_id);
    message
}

impl FinalStateReaction {
    /// Checks the hash of every row.
    fn validate_rows(&self, path: &str, reaction_id: &str) -> (r: Result<(), String>)
        ensures
            match r {
                Ok(_) => row_error(path@, reaction_id@, self@.rows) is None,
                Err(error) => row_error(path@, reaction_id@, self@.rows) == Some(error@),
            },
    {
        let ghost views = self@.rows;
        let mut i: usize = 0;
        assert(views.take(0) =~= Seq::<FinalRowView>::empty());
        while i < self.rows.len()
            invariant
                0 <= i <= self.rows@.len(),
                views == row_views(self.rows@),
                views == self@.rows,
                row_error(path@, reaction_id@, views.take(i as int)) is None,
            decreases self.rows@.len() - i,
        {
            proof {
                assert(views.take(i + 1).drop_last() =~= views.take(i as int));
                assert(views.take(i + 1).last() == self.rows@[i as int]@);
            }
            let (canonical, _) = canonical_row(self.rows[i].value.copy());
            let calculated = sha256_hex_of(&canonical);
            if !str_equal(self.rows[i].sha256.as_str(), calculated.as_str()) {
                let mut message = message_start(path, reaction_id);
                message.append("' contains an invalid row hash: expected ");
                message.append(self.rows[i].sha256.as_str());
                message.append(", calculated ");
                message.append(calculated.as_str());
                proof {
                    lemma_first_row_error(path@, reaction_id@, views, i + 1);
                }
                return Err(message);
            }
            i = i + 1;
        }
        assert(views.take(views.len() as int) =~= views);
        Ok(())
    }

    /// Checks that a stored final state is one that verification can rest on.
    pub fn validate(&self, path: &str, reaction_id: &str) -> (r: Result<(), String>)
        ensures
            match r {
                Ok(_) => reaction_error(path@, reaction_id@, self@) is None,
                Err(error) => reaction_error(path@, reaction_id@, self@) == Some(error@),
            },
    {
        if !str_equal(self.mode.as_str(), "final_state") {
            let mut message = message_start(path, reaction_id);
            message.append("' has unsupported mode '");
            message.append(self.mode.as_str());
            message.append("'");
            return Err(message);
        }
        if self.normalization_error_count > 0 {
            let mut message = message_start(path, reaction_id);
            message.append("' was captured with ");
            message.append(u64_text(self.normalization_error_count as u64).as_str());
            message.append(" normalization errors");
            return Err(message);
        }
        if self.row_count != self.rows.len() {
            let mut message = message_start(path, reaction_id);
            message.append("' declares row_count=");
            message.append(u64_text(self.row_count as u64).as_str());
            message.append(" but contains ");
            message.append(u64_text(self.rows.len() as u64).as_str());
            message.append(" rows");
            return Err(message);
        }
        match self.validate_rows(path, reaction_id) {
            Ok(_) => {},
            Err(error) => {
                return Err(error);
            },
        }
        let calculated = aggregate_row_hash(&self.rows);
        if !str_equal(self.sha256.as_str(), calculated.as_str()) {
            let mut message = message_start(path, reaction_id);
            message.append("' contains an invalid aggregate hash: expected ");
            message.append(self.sha256.as_str());
            message.append(", calculated ");
            message.append(calculated.as_str());
            return Err(message);
        }
        Ok(())
    }
}

impl FinalStateManifest {
    /// The reactions are well formed.
    pub open spec fn wf(self) -> bool {
        self.reactions.wf()
    }

    /// Reads the final states off the outputs of a completed test run. `readings` holds,
    /// for each output, what reading its final-state summary gave.
    pub fn from_completion_summary(
        outputs: &Vec<ReactionOutputs>,
        readings: Vec<Result<FinalStateReaction, String>>,
    ) -> (r: Result<FinalStateManifest, String>)
        requires
            readings@.len() == outputs@.len(),
        ensures
            match r {
                Ok(manifest) => {
                    &&& manifest.wf()
                    &&& manifest.schema_version == FINAL_STATE_SCHEMA_VERSION
                    &&& manifest_of(outputs@, readings@) == Ok::<
                        Map<Seq<char>, ReactionView>,
                        Seq<char>,
                    >(manifest.reactions@)
                },
                Err(error) => manifest_of(outputs@, readings@) == Err::<
                    Map<Seq<char>, ReactionView>,
                    Seq<char>,
                >(error@),
            },
    {
        let mut reactions: OrderedMap<String, FinalStateReaction> = OrderedMap::new();
        let mut k: usize = 0;
        proof {
            assert(outputs@.take(0) =~= Seq::<ReactionOutputs>::empty());
        }
        for reading in it: readings
            invariant
                it.seq() == readings@,
                k == it.index(),
                readings@.len() == outputs@.len(),
                reactions.wf(),
                manifest_of(outputs@.take(it.index()), readings@.take(it.index())) == Ok::<
                    Map<Seq<char>, ReactionView>,
                    Seq<char>,
                >(reactions@),
        {
            let output = &outputs[k];
            proof {
                assert(outputs@.take(k + 1).drop_last() =~= outputs@.take(k as int));
                assert(readings@.take(k + 1).drop_last() =~= readings@.take(k as int));
                assert(outputs@.take(k + 1).last() == *output);
                assert(readings@.take(k + 1).last() == reading);
            }
            match final_state_output(output) {
                Ok(_) => {},
                Err(error) => {
                    proof {
                        lemma_first_manifest_error(outputs@, readings@, k + 1);
                    }
                    return Err(error);
                },
            }
            match reading {
                Ok(reaction) => {
                    reactions.insert(output.reaction_id.clone(), reaction);
                },
                Err(error) => {
                    let mut message = "invalid final-state output for reaction '".to_owned();
                    message.append(output.reaction_id.as_str());
                    message.append("': ");
                    message.append(error.as_str());
                    proof {
                        lemma_first_manifest_error(outputs@, readings@, k + 1);
                    }
                    return Err(message);
                },
            }
            assert(k < outputs.len());
            k = k + 1;
        }
        proof {
            assert(outputs@.take(outputs@.len() as int) =~= outputs@);
            assert(readings@.take(readings@.len() as int) =~= readings@);
        }
        Ok(FinalStateManifest { schema_version: FINAL_STATE_SCHEMA_VERSION, reactions })
    }

    /// Checks that a stored manifest is one that verification can rest on.
    pub fn validate(&self, path: &str) -> (r: Result<(), String>)
        requires
            self.wf(),
        ensures
            match r {
                Ok(_) => manifest_error(path@, self.schema_version, self.reactions@) is None,
                Err(error) => manifest_error(path@, self.schema_version, self.reactions@) == Some(
                    error@,
                ),
            },
    {
        if self.schema_version != FINAL_STATE_SCHEMA_VERSION {
            let mut message = "unsupported final-state golden schema_version ".to_owned();
            message.append(u64_text(self.schema_version as u64).as_str());
            message.append(" in '");
            message.append(path);
            message.append("' (expected ");
            message.append(u64_text(FINAL_STATE_SCHEMA_VERSION as u64).as_str());
            message.append(")");
            return Err(message);
        }
        let entries = self.reactions.entries();
        let ghost list = entry_views(entries@);
        let mut i: usize = 0;
        assert(list.take(0) =~= Seq::empty());
        while i < entries.len()
            invariant
                0 <= i <= entries@.len(),
                list == entry_views(entries@),
                list == listing::<String, ReactionView>(self.reactions@),
                self.schema_version == FINAL_STATE_SCHEMA_VERSION,
                reactions_error(path@, list.take(i as int)) is None,
            decreases entries@.len() - i,
        {
            proof {
                assert(list.take(i + 1).drop_last() =~= list.take(i as int));
                assert(list.take(i + 1).last() == (entries@[i as int].0@, entries@[i as int].1@));
            }
            match entries[i].1.validate(path, entries[i].0.as_str()) {
                Ok(_) => {},
                Err(error) => {
                    proof {
                        lemma_first_reaction_error(path@, list, i + 1);
                    }
                    return Err(error);
                },
            }
            i = i + 1;
        }
        assert(list.take(list.len() as int) =~= list);
        Ok(())
    }

    /// Fails where records of some reaction could not be normalized.
    pub fn check_normalization(&self) -> (r: Result<(), String>)
        requires
            self.wf(),
        ensures
            match r {
                Ok(_) => unnormalized(listing::<String, ReactionView>(self.reactions@)).len() == 0,
                Err(error) => {
                    let list = unnormalized(listing::<String, ReactionView>(self.reactions@));
                    &&& list.len() > 0
                    &&& error@
                        == "final-state materialization failed to normalize records for reactions: ["@
                        + join(list, ", "@) + "]"@
                },
            },
    {
        let entries = self.reactions.entries();
        let ghost list = entry_views(entries@);
        let mut failures: Vec<String> = Vec::new();
        let mut i: usize = 0;
        proof {
            assert(list.take(0) =~= Seq::empty());
            assert(texts(failures@) =~= Seq::<Seq<char>>::empty());
        }
        while i < entries.len()
            invariant
                0 <= i <= entries@.len(),
                list == entry_views(entries@),
                texts(failures@) == unnormalized(list.take(i as int)),
            decreases entries@.len() - i,
        {
            proof {
                assert(list.take(i + 1).drop_last() =~= list.take(i as int));
                assert(list.take(i + 1).last() == (entries@[i as int].0@, entries@[i as int].1@));
            }
            let count = entries[i].1.normalization_error_count;
            if count > 0 {
                let mut text = entries[i].0.clone();
                text.append(" (");
                text.append(u64_text(count as u64).as_str());
                text.append(")");
                let ghost before = texts(failures@);
                let ghost added = text@;
                failures.push(text);
                assert(texts(failures@) =~= before.push(added));
            }
            i = i + 1;
        }
        assert(list.take(list.len() as int) =~= list);
        if failures.len() == 0 {
            return Ok(());
        }
        let mut message =
            "final-state materialization failed to normalize records for reactions: [".to_owned();
        message.append(join_texts(&failures, ", ").as_str());
        message.append("]");
        Err(message)
    }
}

/// The reactions with records that could not be normalized, each with their number.
pub open spec fn unnormalized(reactions: Seq<(Seq<char>, ReactionView)>) -> Seq<Seq<char>>
    decreases reactions.len(),
{
    if reactions.len() == 0 {
        Seq::empty()
    } else {
        let front = unnormalized(reactions.drop_last());
        let (id, reaction) = reactions.last();
        if reaction.normalization_error_count > 0 {
            front.push(id + " ("@ + decimal(reaction.normalization_error_count) + ")"@)
        } else {
            front
        }
    }
}

/// What names a row in a comparison: its query and its hash.
pub open spec fn row_name(row: FinalRowView) -> Seq<char> {
    row.query_id + "\0"@ + row.sha256
}

/// The rows under their names.
pub open spec fn named_rows(rows: Seq<FinalRowView>) -> Seq<(Seq<char>, FinalRowView)> {
    Seq::new(rows.len(), |i: int| (row_name(rows[i]), rows[i]))
}

/// The rows of a reaction by name; none where there is no reaction.
pub open spec fn rows_of(reaction: Option<ReactionView>) -> Map<Seq<char>, FinalRowView> {
    match reaction {
        Some(reaction) => to_map(named_rows(reaction.rows)),
        None => Map::empty(),
    }
}

/// The rows of a list that a map does not name.
pub open spec fn only_in(
    entries: Seq<(Seq<char>, FinalRowView)>,
    other: Map<Seq<char>, FinalRowView>,
) -> Seq<FinalRowView>
    decreases entries.len(),
{
    if entries.len() == 0 {
        Seq::empty()
    } else {
        let front = only_in(entries.drop_last(), other);
        if other.contains_key(entries.last().0) {
            front
        } else {
            front.push(entries.last().1)
        }
    }
}

/// The rows of `a`, in order of their names, that `b` lacks.
pub open spec fn lacking(
    a: Map<Seq<char>, FinalRowView>,
    b: Map<Seq<char>, FinalRowView>,
) -> Seq<FinalRowView> {
    only_in(listing::<String, FinalRowView>(a), b)
}

/// The first `limit` rows.
pub open spec fn at_most(rows: Seq<FinalRowView>, limit: usize) -> Seq<FinalRowView> {
    if rows.len() <= limit {
        rows
    } else {
        rows.take(limit as int)
    }
}

/// How the final state of one reaction compares.
#[derive(Debug)]
pub struct FinalStateReactionVerdict {
    pub passed: bool,
    pub expected_sha256: Option<String>,
    pub actual_sha256: Option<String>,
    pub expected_row_count: Option<usize>,
    pub actual_row_count: Option<usize>,
    pub missing_rows: Vec<FinalStateRow>,
    pub unexpected_rows: Vec<FinalStateRow>,
    pub missing_row_count: usize,
    pub unexpected_row_count: usize,
    pub actual_duplicate_count: Option<u64>,
    pub actual_missing_before_count: Option<u64>,
}

/// What a verdict on one reaction says.
pub struct ReactionVerdictView {
    pub passed: bool,
    pub expected_sha256: Option<Seq<char>>,
    pub actual_sha256: Option<Seq<char>>,
    pub expected_row_count: Option<nat>,
    pub actual_row_count: Option<nat>,
    pub missing_rows: Seq<FinalRowView>,
    pub unexpected_rows: Seq<FinalRowView>,
    pub missing_row_count: nat,
    pub unexpected_row_count: nat,
    pub actual_duplicate_count: Option<nat>,
    pub actual_missing_before_count: Option<nat>,
}

/// An optional count as a number.
pub open spec fn usize_option(n: Option<usize>) -> Option<nat> {
    match n {
        Some(n) => Some(n as nat),
        None => None,
    }
}

/// An optional count as a number.
pub open spec fn u64_option(n: Option<u64>) -> Option<nat> {
    match n {
        Some(n) => Some(n as nat),
        None => None,
    }
}

impl View for FinalStateReactionVerdict {
    type V = ReactionVerdictView;

    open spec fn view(&self) -> ReactionVerdictView {
        ReactionVerdictView {
            passed: self.passed,
            expected_sha256: option_text(self.expected_sha256),
            actual_sha256: option_text(self.actual_sha256),
            expected_row_count: usize_option(self.expected_row_count),
            actual_row_count: usize_option(self.actual_row_count),
            missing_rows: row_views(self.missing_rows@),
            unexpected_rows: row_views(self.unexpected_rows@),
            missing_row_count: self.missing_row_count as nat,
            unexpected_row_count: self.unexpected_row_count as nat,
            actual_duplicate_count: u64_option(self.actual_duplicate_count),
            actual_missing_before_count: u64_option(self.actual_missing_before_count),
        }
    }
}

/// The two final states agree: both are there, with one hash, one row count and the same
/// rows.
pub open spec fn states_agree(expected: Option<ReactionView>, actual: Option<ReactionView>) -> bool {
    &&& expected matches Some(e) && actual matches Some(a) && e.sha256 == a.sha256 && e.row_count
        == a.row_count
    &&& lacking(rows_of(expected), rows_of(actual)).len() == 0
    &&& lacking(rows_of(actual), rows_of(expected)).len() == 0
}

/// The verdict on one reaction.
pub open spec fn reaction_verdict(
    expected: Option<ReactionView>,
    actual: Option<ReactionView>,
    limit: usize,
) -> ReactionVerdictView {
    let missing = lacking(rows_of(expected), rows_of(actual));
    let unexpected = lacking(rows_of(actual), rows_of(expected));
    ReactionVerdictView {
        passed: states_agree(expected, actual),
        expected_sha256: match expected {
            Some(r) => Some(r.sha256),
            None => None,
        },
        actual_sha256: match actual {
            Some(r) => Some(r.sha256),
            None => None,
        },
        expected_row_count: match expected {
            Some(r) => Some(r.row_count),
            None => None,
        },
        actual_row_count: match actual {
            Some(r) => Some(r.row_count),
            None => None,
        },
        missing_rows: at_most(missing, limit),
        unexpected_rows: at_most(unexpected, limit),
        missing_row_count: missing.len(),
        unexpected_row_count: unexpected.len(),
        actual_duplicate_count: match actual {
            Some(r) => Some(r.duplicate_count),
            None => None,
        },
        actual_missing_before_count: match actual {
            Some(r) => Some(r.missing_before_count),
            None => None,
        },
    }
}

/// The reaction of that name, where there is one.
pub open spec fn reaction_in(
    reactions: Map<Seq<char>, ReactionView>,
    id: Seq<char>,
) -> Option<ReactionView> {
    if reactions.contains_key(id) {
        Some(reactions[id])
    } else {
        None
    }
}

/// How two manifests compare.
#[derive(Debug)]
pub struct FinalStateVerdict {
    pub mode: &'static str,
    pub schema_version: u32,
    pub test_run_id: String,
    pub diagnostic_limit: usize,
    pub results: OrderedMap<String, FinalStateReactionVerdict>,
}

impl FinalStateRow {
    /// A copy.
    pub fn copy(&self) -> (r: FinalStateRow)
        ensures
            r@ == self@,
    {
        FinalStateRow {
            query_id: self.query_id.clone(),
            sha256: self.sha256.clone(),
            value: self.value.copy(),
        }
    }
}

/// The rows of a reaction by name.
fn rows_by_identity(reaction: Option<&FinalStateReaction>) -> (r: OrderedMap<String, FinalStateRow>)
    ensures
        r.wf(),
        r@ == rows_of(
            match reaction {
                Some(reaction) => Some(reaction@),
                None => None,
            },
        ),
{
    let mut map: OrderedMap<String, FinalStateRow> = OrderedMap::new();
    match reaction {
        Some(reaction) => {
            let ghost list = named_rows(reaction@.rows);
            let mut i: usize = 0;
            assert(list.take(0) =~= Seq::empty());
            while i < reaction.rows.len()
                invariant
                    0 <= i <= reaction.rows@.len(),
                    list == named_rows(row_views(reaction.rows@)),
                    map.wf(),
                    map@ == to_map(list.take(i as int)),
                decreases reaction.rows@.len() - i,
            {
                let row = &reaction.rows[i];
                proof {
                    assert(list.take(i + 1).drop_last() =~= list.take(i as int));
                    assert(list.take(i + 1).last() == (row_name(row@), row@));
                }
                let mut name = row.query_id.clone();
                name.append("\0");
                name.append(row.sha256.as_str());
                map.insert(name, row.copy());
                i = i + 1;
            }
            assert(list.take(list.len() as int) =~= list);
        },
        None => {},
    }
    map
}

/// The number of rows of `a` that `b` lacks, and the first `limit` of them.
fn rows_lacking(
    a: &OrderedMap<String, FinalStateRow>,
    b: &OrderedMap<String, FinalStateRow>,
    limit: usize,
) -> (r: (usize, Vec<FinalStateRow>))
    requires
        a.wf(),
        b.wf(),
    ensures
        r.0 == lacking(a@, b@).len(),
        row_views(r.1@) == at_most(lacking(a@, b@), limit),
{
    let entries = a.entries();
    let ghost list = entry_views(entries@);
    let mut count: usize = 0;
    let mut rows: Vec<FinalStateRow> = Vec::new();
    let mut i: usize = 0;
    proof {
        assert(list.take(0) =~= Seq::empty());
        assert(row_views(rows@) =~= Seq::<FinalRowView>::empty());
    }
    while i < entries.len()
        invariant
            0 <= i <= entries@.len(),
            list == entry_views(entries@),
            b.wf(),
            count <= i,
            count == only_in(list.take(i as int), b@).len(),
            row_views(rows@) == at_most(only_in(list.take(i as int), b@), limit),
        decreases entries@.len() - i,
    {
        let ghost before = only_in(list.take(i as int), b@);
        proof {
            assert(list.take(i + 1).drop_last() =~= list.take(i as int));
            assert(list.take(i + 1).last() == (entries@[i as int].0@, entries@[i as int].1@));
        }
        if !b.contains_key(&entries[i].0) {
            let ghost shown = row_views(rows@);
            count = count + 1;
            if rows.len() < limit {
                rows.push(entries[i].1.copy());
                assert(row_views(rows@) =~= shown.push(entries@[i as int].1@));
            } else {
                assert(before.push(entries@[i as int].1@).take(limit as int) =~= before.take(
                    limit as int,
                ));
                assert(before.len() == limit ==> before.take(limit as int) =~= before);
            }
        }
        i = i + 1;
    }
    assert(list.take(list.len() as int) =~= list);
    (count, rows)
}

/// Compares the final states of one reaction.
fn compare_reaction(
    expected: Option<&FinalStateReaction>,
    actual: Option<&FinalStateReaction>,
    limit: usize,
) -> (r: FinalStateReactionVerdict)
    ensures
        r@ == reaction_verdict(
            match expected {
                Some(reaction) => Some(reaction@),
                None => None,
            },
            match actual {
                Some(reaction) => Some(reaction@),
                None => None,
            },
            limit,
        ),
{
    let expected_rows = rows_by_identity(expected);
    let actual_rows = rows_by_identity(actual);
    let (missing_row_count, missing_rows) = rows_lacking(&expected_rows, &actual_rows, limit);
    let (unexpected_row_count, unexpected_rows) = rows_lacking(&actual_rows, &expected_rows, limit);
    let passed = match (expected, actual) {
        (Some(e), Some(a)) => str_equal(e.sha256.as_str(), a.sha256.as_str()) && e.row_count
            == a.row_count && missing_row_count == 0 && unexpected_row_count == 0,
        _ => false,
    };
    FinalStateReactionVerdict {
        passed,
        expected_sha256: match expected {
            Some(r) => Some(r.sha256.clone()),
            None => None,
        },
        actual_sha256: match actual {
            Some(r) => Some(r.sha256.clone()),
            None => None,
        },
        expected_row_count: match expected {
            Some(r) => Some(r.row_count),
            None => None,
        },
        actual_row_count: match actual {
            Some(r) => Some(r.row_count),
            None => None,
        },
        missing_rows,
        unexpected_rows,
        missing_row_count,
        unexpected_row_count,
        actual_duplicate_count: match actual {
            Some(r) => Some(r.duplicate_count),
            None => None,
        },
        actual_missing_before_count: match actual {
            Some(r) => Some(r.missing_before_count),
            None => None,
        },
    }
}

/// The verdicts on the reactions that either manifest names.
pub open spec fn verdict_map(
    expected: Map<Seq<char>, ReactionView>,
    actual: Map<Seq<char>, ReactionView>,
    limit: usize,
) -> Map<Seq<char>, ReactionVerdictView> {
    Map::new(
        |id: Seq<char>| expected.contains_key(id) || actual.contains_key(id),
        |id: Seq<char>| reaction_verdict(reaction_in(expected, id), reaction_in(actual, id), limit),
    )
}

/// Puts the verdicts on the reactions that `named` names among the results.
fn compare_named(
    named: &FinalStateManifest,
    expected: &FinalStateManifest,
    actual: &FinalStateManifest,
    limit: usize,
    results: &mut OrderedMap<String, FinalStateReactionVerdict>,
)
    requires
        named.wf(),
        expected.wf(),
        actual.wf(),
        old(results).wf(),
    ensures
        final(results).wf(),
        forall|id: Seq<char>| #[trigger]
            final(results)@.contains_key(id) == (old(results)@.contains_key(id)
                || named.reactions@.contains_key(id)),
        forall|id: Seq<char>| #[trigger]
            final(results)@.contains_key(id) ==> final(results)@[id] == if named.reactions@.contains_key(
                id,
            ) {
                reaction_verdict(
                    reaction_in(expected.reactions@, id),
                    reaction_in(actual.reactions@, id),
                    limit,
                )
            } else {
                old(results)@[id]
            },
{
    let entries = named.reactions.entries();
    let ghost list = entry_views(entries@);
    let ghost start = results@;
    let mut i: usize = 0;
    while i < entries.len()
        invariant
            0 <= i <= entries@.len(),
            list == entry_views(entries@),
            expected.wf(),
            actual.wf(),
            results.wf(),
            forall|id: Seq<char>| #[trigger]
                results@.contains_key(id) == (start.contains_key(id) || named_within(list, i as int, id)),
            forall|id: Seq<char>| #[trigger]
                results@.contains_key(id) ==> results@[id] == if named_within(list, i as int, id) {
                    reaction_verdict(
                        reaction_in(expected.reactions@, id),
                        reaction_in(actual.reactions@, id),
                        limit,
                    )
                } else {
                    start[id]
                },
        decreases entries@.len() - i,
    {
        let id = &entries[i].0;
        let verdict = compare_reaction(
            expected.reactions.get(id),
            actual.reactions.get(id),
            limit,
        );
        let ghost before = results@;
        results.insert(id.clone(), verdict);
        proof {
            assert(list[i as int].0 == id@);
            assert forall|k: Seq<char>| #[trigger] named_within(list, i + 1, k) == (k == id@
                || named_within(list, i as int, k)) by {
                if named_within(list, i + 1, k) {
                    let j = choose|j: int| 0 <= j < i + 1 && (#[trigger] list[j]).0 == k;
                    if j < i {
                        assert(list[j].0 == k);
                    }
                }
                if named_within(list, i as int, k) {
                    let j = choose|j: int| 0 <= j < i && (#[trigger] list[j]).0 == k;
                    assert(list[j].0 == k);
                }
                if k == id@ {
                    assert(list[i as int].0 == k);
                }
            }
        }
        i = i + 1;
    }
    proof {
        lemma_to_map(list);
        assert forall|id: Seq<char>| #[trigger] named.reactions@.contains_key(id) == named_within(
            list,
            list.len() as int,
            id,
        ) by {
            if named_within(list, list.len() as int, id) {
                let j = choose|j: int| 0 <= j < list.len() && (#[trigger] list[j]).0 == id;
                assert(to_map(list).contains_key(list[j].0));
            }
        }
    }
}

/// One of the first `n` entries has the key.
spec fn named_within(list: Seq<(Seq<char>, ReactionView)>, n: int, id: Seq<char>) -> bool {
    exists|j: int| 0 <= j < n && (#[trigger] list[j]).0 == id
}

/// Compares two manifests reaction by reaction.
pub fn compare_final_state(
    expected: &FinalStateManifest,
    actual: &FinalStateManifest,
    diagnostic_limit: usize,
    test_run_id: &str,
) -> (r: FinalStateVerdict)
    requires
        expected.wf(),
        actual.wf(),
    ensures
        r.mode@ == "final_state"@,
        r.schema_version == FINAL_STATE_SCHEMA_VERSION,
        r.test_run_id@ == test_run_id@,
        r.diagnostic_limit == diagnostic_limit,
        r.results.wf(),
        r.results@ == verdict_map(expected.reactions@, actual.reactions@, diagnostic_limit),
{
    let mut results: OrderedMap<String, FinalStateReactionVerdict> = OrderedMap::new();
    compare_named(expected, expected, actual, diagnostic_limit, &mut results);
    let ghost first = results@;
    compare_named(actual, expected, actual, diagnostic_limit, &mut results);
    proof {
        let goal = verdict_map(expected.reactions@, actual.reactions@, diagnostic_limit);
        assert forall|id: Seq<char>| results@.contains_key(id) == goal.contains_key(id) by {
            assert(first.contains_key(id) == expected.reactions@.contains_key(id));
        }
        assert forall|id: Seq<char>| results@.contains_key(id) implies results@[id] == goal[id] by {
            assert(first.contains_key(id) == expected.reactions@.contains_key(id));
        }
        assert(results@ =~= goal);
    }
    FinalStateVerdict {
        mode: "final_state",
        schema_version: FINAL_STATE_SCHEMA_VERSION,
        test_run_id: test_run_id.to_owned(),
        diagnostic_limit,
        results,
    }
}

/// What became of reading a stored final state.
#[derive(Debug)]
pub enum GoldenRead {
    /// There is none; with the message of the error.
    NotFound(String),
    /// It could not be read; with the message of the error.
    Unreadable(String),
    /// It is no manifest; with the message of the error.
    Malformed(String),
    Manifest(FinalStateManifest),
}

/// What a stored final state comes to: a failure, a verdict, or nothing to compare with.
pub enum GoldenJudgement {
    Failure(Seq<char>),
    NothingToCompare,
    Verdict(Map<Seq<char>, ReactionVerdictView>),
}

/// The message that a stored final state could not be used.
pub open spec fn golden_message(what: Seq<char>, path: Seq<char>, error: Seq<char>) -> Seq<char> {
    "failed to "@ + what + " final-state golden '"@ + path + "': "@ + error
}

/// What a stored final state comes to. One that is missing is accepted where the policy
/// only warns of it.
pub open spec fn golden_judgement(
    golden: GoldenRead,
    actual: Map<Seq<char>, ReactionView>,
    policy: MissingBaselinePolicy,
    limit: usize,
    path: Seq<char>,
) -> GoldenJudgement {
    match golden {
        GoldenRead::NotFound(error) => match policy {
            MissingBaselinePolicy::Warn => GoldenJudgement::NothingToCompare,
            MissingBaselinePolicy::Fail => GoldenJudgement::Failure(
                golden_message("read"@, path, error@),
            ),
        },
        GoldenRead::Unreadable(error) => GoldenJudgement::Failure(
            golden_message("read"@, path, error@),
        ),
        GoldenRead::Malformed(error) => GoldenJudgement::Failure(
            golden_message("parse"@, path, error@),
        ),
        GoldenRead::Manifest(manifest) => match manifest_error(
            path,
            manifest.schema_version,
            manifest.reactions@,
        ) {
            Some(error) => GoldenJudgement::Failure(error),
            None => GoldenJudgement::Verdict(verdict_map(manifest.reactions@, actual, limit)),
        },
    }
}

fn golden_text(what: &str, path: &str, error: &str) -> (r: String)
    ensures
        r@ == golden_message(what@, path@, error@),
{
    let mut message = "failed to ".to_owned();
    message.append(what);
    message.append(" final-state golden '");
    message.append(path);
    message.append("': ");
    message.append(error);
    message
}

/// Judges the actual final state by a stored one: an error, a verdict, or none where there
/// is nothing to compare with.
pub fn judge_final_state(
    golden: GoldenRead,
    actual: &FinalStateManifest,
    policy: MissingBaselinePolicy,
    diagnostic_limit: usize,
    path: &str,
    test_run_id: &str,
) -> (r: Result<Option<FinalStateVerdict>, String>)
    requires
        actual.wf(),
        golden matches GoldenRead::Manifest(manifest) ==> manifest.wf(),
    ensures
        match golden_judgement(golden, actual.reactions@, policy, diagnostic_limit, path@) {
            GoldenJudgement::Failure(error) => r matches Err(e) && e@ == error,
            GoldenJudgement::NothingToCompare => r matches Ok(verdict) && verdict is None,
            GoldenJudgement::Verdict(results) => r matches Ok(Some(verdict)) && verdict.results.wf()
                && verdict.results@ == results && verdict.mode@ == "final_state"@
                && verdict.schema_version == FINAL_STATE_SCHEMA_VERSION && verdict.test_run_id@
                == test_run_id@ && verdict.diagnostic_limit == diagnostic_limit,
        },
{
    match golden {
        GoldenRead::NotFound(error) => match policy {
            MissingBaselinePolicy::Warn => Ok(None),
            MissingBaselinePolicy::Fail => Err(golden_text("read", path, error.as_str())),
        },
        GoldenRead::Unreadable(error) => Err(golden_text("read", path, error.as_str())),
        GoldenRead::Malformed(error) => Err(golden_text("parse", path, error.as_str())),
        GoldenRead::Manifest(manifest) => {
            match manifest.validate(path) {
                Ok(_) => {},
                Err(error) => {
                    return Err(error);
                },
            }
            Ok(Some(compare_final_state(&manifest, actual, diagnostic_limit, test_run_id)))
        },
    }
}

/// The reactions that did not pass, in order of their names.
pub open spec fn failed_reactions(results: Seq<(Seq<char>, ReactionVerdictView)>) -> Seq<Seq<char>>
    decreases results.len(),
{
    if results.len() == 0 {
        Seq::empty()
    } else {
        let front = failed_reactions(results.drop_last());
        if results.last().1.passed {
            front
        } else {
            front.push(results.last().0)
        }
    }
}

impl FinalStateVerdict {
    /// Fails where some reaction did not pass.
    pub fn outcome(&self) -> (r: Result<(), String>)
        requires
            self.results.wf(),
        ensures
            match r {
                Ok(_) => failed_reactions(
                    listing::<String, ReactionVerdictView>(self.results@),
                ).len() == 0,
                Err(error) => {
                    let failed = failed_reactions(
                        listing::<String, ReactionVerdictView>(self.results@),
                    );
                    &&& failed.len() > 0
                    &&& error@ == "Final-state mismatch for reactions: ["@ + join(failed, ", "@)
                        + "]; see determinism_verdict.json"@
                },
            },
    {
        let entries = self.results.entries();
        let ghost list = entry_views(entries@);
        let mut failed: Vec<String> = Vec::new();
        let mut i: usize = 0;
        proof {
            assert(list.take(0) =~= Seq::empty());
            assert(texts(failed@) =~= Seq::<Seq<char>>::empty());
        }
        while i < entries.len()
            invariant
                0 <= i <= entries@.len(),
                list == entry_views(entries@),
                texts(failed@) == failed_reactions(list.take(i as int)),
            decreases entries@.len() - i,
        {
            proof {
                assert(list.take(i + 1).drop_last() =~= list.take(i as int));
                assert(list.take(i + 1).last() == (entries@[i as int].0@, entries@[i as int].1@));
            }
            if !entries[i].1.passed {
                let ghost before = texts(failed@);
                failed.push(entries[i].0.clone());
                assert(texts(failed@) =~= before.push(entries@[i as int].0@));
            }
            i = i + 1;
        }
        assert(list.take(list.len() as int) =~= list);
        if failed.len() == 0 {
            return Ok(());
        }
        let mut message = "Final-state mismatch for reactions: [".to_owned();
        message.append(join_texts(&failed, ", ").as_str());
        message.append("]; see determinism_verdict.json");
        Err(message)
    }
}

} // verus!
