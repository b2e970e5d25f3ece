//! SHA-256 verification data over reaction output.
//!
//! The default `OrderedStream` mode keeps an order-sensitive hash of the records.
//! `FinalState` materializes add, update and delete changes and hashes the sorted set of
//! rows that remain when the reaction stops.

use crate::common::{HandlerPayload, HandlerRecord};
use crate::hashing::{absorbed, is_hash_text, sha256_hex, Sha256Stream};
use crate::ids::TestRunReactionId;
use crate::json::{
    is_line, json_get, json_get_str, json_text, json_views, lemma_array_view, lemma_object_view,
    to_bytes, Json, JsonView,
};
use crate::ordered::entry_views;
use crate::reactions::output_loggers::canonical_json::{
    empty_results_heartbeat, is_empty_results_heartbeat, is_volatile,
    lemma_heartbeats_forget_field_order, lemma_sorting_forgets_field_order, lemma_sorting_sorts,
    lemma_stripped_items_len, lemma_stripped_lookup, lemma_stripping_keeps_sameness,
    lemma_stripping_strips, same_value, sort_json_keys, sorted, strip_volatile_keys, stripped,
};
use crate::reactions::output_loggers::final_state::{
    after_payload, has_room, initial_state, outcome_matches, record_payload, summary_of,
    FinalRowView, FinalStateMaterializer, FinalStateRow, FinalStateSummary, FinalStateView,
    SummaryView,
};
use crate::reactions::output_loggers::OutputLoggerResult;
use crate::text::texts;
use vstd::prelude::*;

verus! {

/// What is hashed: the records in their order, or the rows that remain.
#[derive(Clone, Copy, Debug, PartialEq, Eq, Structural)]
pub enum DeterminismHashMode {
    OrderedStream,
    FinalState,
}

impl Default for DeterminismHashMode {
    fn default() -> (r: DeterminismHashMode)
        ensures
            r == DeterminismHashMode::OrderedStream,
    {
        DeterminismHashMode::OrderedStream
    }
}

/// How a determinism hash logger is set up.
#[derive(Clone, Copy, Debug)]
pub struct DeterminismHashOutputLoggerConfig {
    pub mode: DeterminismHashMode,
}

impl Default for DeterminismHashOutputLoggerConfig {
    fn default() -> (r: DeterminismHashOutputLoggerConfig)
        ensures
            r.mode == DeterminismHashMode::OrderedStream,
    {
        DeterminismHashOutputLoggerConfig { mode: DeterminismHashMode::OrderedStream }
    }
}

/// The part of a record that takes part in the ordered hash: the body of a request, the
/// output of a reaction, or the whole payload of anything else.
pub open spec fn projected(record: HandlerRecord) -> JsonView {
    match record.payload {
        HandlerPayload::ReactionInvocation { request_body, .. } => request_body@,
        HandlerPayload::ReactionOutput { reaction_output } => reaction_output@,
        HandlerPayload::ResultStream { stored_form, .. } => stored_form@,
    }
}

/// The bytes by which a payload takes part in the ordered hash: its compact text with
/// sorted keys and without volatile ones. A re-evaluation without rows takes no part.
pub open spec fn canonical_payload(payload: JsonView) -> Option<Seq<u8>> {
    if empty_results_heartbeat(payload) {
        None
    } else {
        Some(json_text(sorted(stripped(payload))))
    }
}

/// The bytes by which a record takes part in the ordered hash.
pub fn canonical_payload_bytes(record: &HandlerRecord) -> (r: Option<Vec<u8>>)
    ensures
        match r {
            Some(bytes) => canonical_payload(projected(*record)) == Some(bytes@) && is_line(bytes@),
            None => canonical_payload(projected(*record)) is None,
        },
{
    let projection = match &record.payload {
        HandlerPayload::ReactionInvocation { request_body, .. } => request_body.copy(),
        HandlerPayload::ReactionOutput { reaction_output } => reaction_output.copy(),
        HandlerPayload::ResultStream { stored_form, .. } => stored_form.copy(),
    };
    if is_empty_results_heartbeat(&projection) {
        return None;
    }
    let canonical = sort_json_keys(strip_volatile_keys(projection));
    proof {
        lemma_sorting_sorts(stripped(projected(*record)));
    }
    Some(to_bytes(&canonical))
}

/// Hashes the output of a reaction.
pub struct DeterminismHashOutputLogger {
    test_run_reaction_id: TestRunReactionId,
    hasher: Sha256Stream,
    mode: DeterminismHashMode,
    final_state: FinalStateMaterializer,
    record_count: u64,
}

/// Whom a logger works for and what it has seen.
pub struct LoggerView {
    pub test_run_reaction_id: TestRunReactionId,
    pub mode: DeterminismHashMode,
    pub stream: Seq<u8>,
    pub final_state: FinalStateView,
    pub record_count: nat,
}

impl View for DeterminismHashOutputLogger {
    type V = LoggerView;

    closed spec fn view(&self) -> LoggerView {
        LoggerView {
            test_run_reaction_id: self.test_run_reaction_id,
            mode: self.mode,
            stream: absorbed(self.hasher),
            final_state: self.final_state@,
            record_count: self.record_count as nat,
        }
    }
}

/// What a logger has seen after one more record.
pub open spec fn after_record(log: LoggerView, record: HandlerRecord) -> (
    LoggerView,
    Result<(), Seq<char>>,
) {
    match log.mode {
        DeterminismHashMode::FinalState => {
            let (query_id, payload) = record_payload(record);
            let (state, r) = after_payload(log.final_state, query_id, payload);
            let record_count = if r is Ok {
                log.record_count + 1
            } else {
                log.record_count
            };
            (LoggerView { final_state: state, record_count, ..log }, r)
        },
        DeterminismHashMode::OrderedStream => match canonical_payload(projected(record)) {
            Some(bytes) => (
                LoggerView {
                    stream: log.stream + bytes + seq![10u8],
                    record_count: log.record_count + 1,
                    ..log
                },
                Ok(()),
            ),
            None => (log, Ok(())),
        },
    }
}

/// The summary of an ordered stream.
pub open spec fn ordered_summary(stream: Seq<u8>, record_count: nat) -> JsonView {
    JsonView::Object(
        seq![
            ("mode"@, JsonView::Text("ordered_stream"@)),
            ("sha256"@, JsonView::Text(sha256_hex(stream))),
            ("record_count"@, JsonView::Integer(record_count as int)),
        ],
    )
}

/// A list of texts as a value.
pub open spec fn texts_json(list: Seq<Seq<char>>) -> JsonView {
    JsonView::Array(Seq::new(list.len(), |i: int| JsonView::Text(list[i])))
}

/// A row of a summary as a value.
pub open spec fn row_json(row: FinalRowView) -> JsonView {
    JsonView::Object(
        seq![
            ("query_id"@, JsonView::Text(row.query_id)),
            ("sha256"@, JsonView::Text(row.sha256)),
            ("value"@, row.value),
        ],
    )
}

/// The summary of a final state as a value.
pub open spec fn summary_json(summary: SummaryView) -> JsonView {
    JsonView::Object(
        seq![
            ("mode"@, JsonView::Text(summary.mode)),
            ("sha256"@, JsonView::Text(summary.sha256)),
            ("row_count"@, JsonView::Integer(summary.row_count as int)),
            ("change_count"@, JsonView::Integer(summary.change_count as int)),
            ("duplicate_count"@, JsonView::Integer(summary.duplicate_count as int)),
            ("upsert_count"@, JsonView::Integer(summary.upsert_count as int)),
            ("missing_before_count"@, JsonView::Integer(summary.missing_before_count as int)),
            ("skipped_record_count"@, JsonView::Integer(summary.skipped_record_count as int)),
            (
                "normalization_error_count"@,
                JsonView::Integer(summary.normalization_error_count as int),
            ),
            ("normalization_errors"@, texts_json(summary.normalization_errors)),
            ("key_fields"@, texts_json(summary.key_fields)),
            ("query_ids"@, texts_json(summary.query_ids)),
            (
                "rows"@,
                JsonView::Array(Seq::new(summary.rows.len(), |i: int| row_json(summary.rows[i]))),
            ),
        ],
    )
}

/// A text as a value.
fn text_value(text: &str) -> (r: Json)
    ensures
        r@ == JsonView::Text(text@),
{
    Json::Text(text.to_owned())
}

/// A list of texts as a value.
fn texts_value(list: &Vec<String>) -> (r: Json)
    ensures
        r@ == texts_json(texts(list@)),
{
    broadcast use lemma_array_view;

    let mut items: Vec<Json> = Vec::new();
    let mut i: usize = 0;
    while i < list.len()
        invariant
            0 <= i <= list@.len(),
            items@.len() == i,
            forall|j: int| 0 <= j < i ==> (#[trigger] items@[j])@ == JsonView::Text(list@[j]@),
        decreases list@.len() - i,
    {
        items.push(text_value(list[i].as_str()));
        i = i + 1;
    }
    assert(json_views(items@) =~= texts_json(texts(list@))->Array_0);
    Json::Array(items)
}

impl FinalStateRow {
    /// The row as a value.
    pub fn to_json(&self) -> (r: Json)
        ensures
            r@ == row_json(self@),
    {
        broadcast use lemma_object_view;

        let fields = vec![
            ("query_id".to_owned(), text_value(self.query_id.as_str())),
            ("sha256".to_owned(), text_value(self.sha256.as_str())),
            ("value".to_owned(), self.value.copy()),
        ];
        assert(entry_views(fields@) =~= row_json(self@)->Object_0);
        Json::Object(fields)
    }
}

impl FinalStateSummary {
    /// The summary as a value.
    pub fn to_json(&self) -> (r: Json)
        ensures
            r@ == summary_json(self@),
    {
        broadcast use {lemma_array_view, lemma_object_view};

        let mut rows: Vec<Json> = Vec::new();
        let mut i: usize = 0;
        while i < self.rows.len()
            invariant
                0 <= i <= self.rows@.len(),
                rows@.len() == i,
                forall|j: int| 0 <= j < i ==> (#[trigger] rows@[j])@ == row_json(self.rows@[j]@),
            decreases self.rows@.len() - i,
        {
            rows.push(self.rows[i].to_json());
            i = i + 1;
        }
        let fields = vec![
            ("mode".to_owned(), text_value(self.mode)),
            ("sha256".to_owned(), text_value(self.sha256.as_str())),
            ("row_count".to_owned(), Json::Unsigned(self.row_count as u64)),
            ("change_count".to_owned(), Json::Unsigned(self.change_count)),
            ("duplicate_count".to_owned(), Json::Unsigned(self.duplicate_count)),
            ("upsert_count".to_owned(), Json::Unsigned(self.upsert_count)),
            ("missing_before_count".to_owned(), Json::Unsigned(self.missing_before_count)),
            ("skipped_record_count".to_owned(), Json::Unsigned(self.skipped_record_count)),
            (
                "normalization_error_count".to_owned(),
                Json::Unsigned(self.normalization_error_count as u64),
            ),
            ("normalization_errors".to_owned(), texts_value(&self.normalization_errors)),
            ("key_fields".to_owned(), texts_value(&self.key_fields)),
            ("query_ids".to_owned(), texts_value(&self.query_ids)),
            ("rows".to_owned(), Json::Array(rows)),
        ];
        assert(json_views(rows@) =~= Seq::new(
            self@.rows.len(),
            |i: int| row_json(self@.rows[i]),
        ));
        assert(entry_views(fields@) =~= summary_json(self@)->Object_0);
        Json::Object(fields)
    }
}

impl DeterminismHashOutputLogger {
    /// The final state is well formed.
    pub closed spec fn wf(self) -> bool {
        self.final_state.wf()
    }

    /// A logger that has seen nothing.
    pub fn new(
        test_run_reaction_id: TestRunReactionId,
        config: &DeterminismHashOutputLoggerConfig,
    ) -> (r: DeterminismHashOutputLogger)
        ensures
            r.wf(),
            r@ == (LoggerView {
                test_run_reaction_id,
                mode: config.mode,
                stream: Seq::empty(),
                final_state: initial_state(Seq::empty()),
                record_count: 0,
            }),
    {
        DeterminismHashOutputLogger {
            test_run_reaction_id,
            hasher: Sha256Stream::new(),
            mode: config.mode,
            final_state: FinalStateMaterializer::default(),
            record_count: 0,
        }
    }

    /// Whether the counters can still count a record.
    pub fn has_room_for(&self, record: &HandlerRecord) -> (r: bool)
        ensures
            r == record_fits(self@, *record),
    {
        if self.record_count == u64::MAX {
            return false;
        }
        if self.mode == DeterminismHashMode::OrderedStream {
            return true;
        }
        match &record.payload {
            HandlerPayload::ReactionInvocation { request_body, .. } => self.final_state.has_room_for(
                request_body,
            ),
            HandlerPayload::ReactionOutput { reaction_output } => self.final_state.has_room_for(
                reaction_output,
            ),
            HandlerPayload::ResultStream { query_result, .. } => self.final_state.has_room_for(
                query_result,
            ),
        }
    }

    /// Takes a record into the hash.
    pub fn log_handler_record(&mut self, record: &HandlerRecord) -> (r: Result<(), String>)
        requires
            old(self).wf(),
            record_fits(old(self)@, *record),
        ensures
            final(self).wf(),
            final(self)@ == after_record(old(self)@, *record).0,
            outcome_matches(r, after_record(old(self)@, *record).1),
    {
        if self.mode == DeterminismHashMode::FinalState {
            match self.final_state.apply_record(record) {
                Ok(_) => {},
                Err(error) => {
                    return Err(error);
                },
            }
            self.record_count = self.record_count + 1;
            return Ok(());
        }
        match canonical_payload_bytes(record) {
            Some(canonical) => {
                let newline: Vec<u8> = vec![10u8];
                assert(newline@ =~= seq![10u8]);
                self.hasher.update(canonical.as_slice());
                self.hasher.update(newline.as_slice());
                self.record_count = self.record_count + 1;
            },
            None => {},
        }
        Ok(())
    }

    /// The summary of what was seen. An ordered hash starts anew.
    pub fn end_test_run(&mut self) -> (r: OutputLoggerResult)
        requires
            old(self).wf(),
        ensures
            final(self).wf(),
            final(self)@ == (match old(self)@.mode {
                DeterminismHashMode::FinalState => old(self)@,
                DeterminismHashMode::OrderedStream => LoggerView {
                    stream: Seq::empty(),
                    ..old(self)@
                },
            }),
            r.has_output,
            r.logger_name@ == "DeterminismHash"@,
            r.output_folder_path is None,
            r.summary is Some,
            r.summary->Some_0@ == logger_summary(old(self)@),
            json_get_str(logger_summary(old(self)@), "sha256"@) is Some,
            is_hash_text(json_get_str(logger_summary(old(self)@), "sha256"@)->Some_0),
    {
        broadcast use lemma_object_view;

        if self.mode == DeterminismHashMode::FinalState {
            let summary = self.final_state.summary();
            proof {
                lemma_summary_hash(summary@);
            }
            return OutputLoggerResult {
                has_output: true,
                logger_name: "DeterminismHash".to_owned(),
                output_folder_path: None,
                summary: Some(summary.to_json()),
            };
        }
        let mut hasher = Sha256Stream::new();
        std::mem::swap(&mut self.hasher, &mut hasher);
        let hex_sha = hasher.finish_hex();
        proof {
            lemma_ordered_hash(old(self)@.stream, old(self)@.record_count);
        }
        let fields = vec![
            ("mode".to_owned(), text_value("ordered_stream")),
            ("sha256".to_owned(), text_value(hex_sha.as_str())),
            ("record_count".to_owned(), Json::Unsigned(self.record_count)),
        ];
        assert(entry_views(fields@) =~= logger_summary(old(self)@)->Object_0);
        OutputLoggerResult {
            has_output: true,
            logger_name: "DeterminismHash".to_owned(),
            output_folder_path: None,
            summary: Some(Json::Object(fields)),
        }
    }
}

/// The second of several fields with names of their own.
proof fn lemma_second_field(fields: Seq<(Seq<char>, JsonView)>)
    requires
        fields.len() > 1,
        forall|j: int| 1 < j < fields.len() ==> (#[trigger] fields[j]).0 != fields[1].0,
    ensures
        json_get(JsonView::Object(fields), fields[1].0) == Some(fields[1].1),
    decreases fields.len(),
{
    if fields.len() > 2 {
        let front = fields.drop_last();
        assert(fields[fields.len() - 1].0 != fields[1].0);
        assert forall|j: int| 1 < j < front.len() implies (#[trigger] front[j]).0 != front[1].0 by {
            assert(front[j] == fields[j]);
        }
        lemma_second_field(front);
        assert(front[1] == fields[1]);
    }
}

/// The hash of an ordered summary.
proof fn lemma_ordered_hash(stream: Seq<u8>, record_count: nat)
    ensures
        json_get_str(ordered_summary(stream, record_count), "sha256"@) == Some(sha256_hex(stream)),
{
    reveal_strlit("sha256");
    reveal_strlit("record_count");
    assert("sha256"@.len() == 6 && "record_count"@.len() == 12);
    lemma_second_field(ordered_summary(stream, record_count)->Object_0);
}

/// The hash of the summary of a final state.
proof fn lemma_summary_hash(summary: SummaryView)
    ensures
        json_get_str(summary_json(summary), "sha256"@) == Some(summary.sha256),
{
    reveal_strlit("sha256");
    reveal_strlit("row_count");
    reveal_strlit("change_count");
    reveal_strlit("duplicate_count");
    reveal_strlit("upsert_count");
    reveal_strlit("missing_before_count");
    reveal_strlit("skipped_record_count");
    reveal_strlit("normalization_error_count");
    reveal_strlit("normalization_errors");
    reveal_strlit("key_fields");
    reveal_strlit("query_ids");
    reveal_strlit("rows");
    assert("sha256"@.len() == 6);
    assert("row_count"@.len() == 9 && "change_count"@.len() == 12);
    assert("duplicate_count"@.len() == 15 && "upsert_count"@.len() == 12);
    assert("missing_before_count"@.len() == 20 && "skipped_record_count"@.len() == 20);
    assert("normalization_error_count"@.len() == 25 && "normalization_errors"@.len() == 20);
    assert("key_fields"@.len() == 10 && "query_ids"@.len() == 9 && "rows"@.len() == 4);
    let fields = summary_json(summary)->Object_0;
    assert forall|j: int| 1 < j < fields.len() implies (#[trigger] fields[j]).0 != fields[1].0 by {
        assert(fields[j].0.len() != 6);
    }
    lemma_second_field(fields);
}

/// The counters can still count a record.
pub open spec fn record_fits(log: LoggerView, record: HandlerRecord) -> bool {
    &&& log.record_count < u64::MAX
    &&& log.mode == DeterminismHashMode::FinalState ==> has_room(
        log.final_state,
        record_payload(record).1,
    )
}

/// The summary of what a logger has seen.
pub open spec fn logger_summary(log: LoggerView) -> JsonView {
    match log.mode {
        DeterminismHashMode::FinalState => summary_json(summary_of(log.final_state)),
        DeterminismHashMode::OrderedStream => ordered_summary(log.stream, log.record_count),
    }
}

/// Volatile keys take no part in the ordered hash: a payload and the payload without them
/// are hashed alike.
pub proof fn lemma_volatile_keys_do_not_count(payload: JsonView)
    ensures
        canonical_payload(stripped(payload)) == canonical_payload(payload),
{
    lemma_stripping_strips(payload);
    lemma_stripping_strips(stripped(payload));
    match payload {
        JsonView::Object(fields) => {
            reveal_strlit("results");
            reveal_strlit("timestamp");
            reveal_strlit("sequenceId");
            assert("results"@.len() == 7);
            assert(!is_volatile("results"@));
            lemma_stripped_lookup(fields, "results"@);
            if let Some(v) = json_get(payload, "results"@) {
                lemma_stripped_emptiness(v);
            }
        },
        _ => {},
    }
}

/// Stripping keeps an array an array of the same length.
proof fn lemma_stripped_emptiness(json: JsonView)
    ensures
        stripped(json) is Array == json is Array,
        json matches JsonView::Array(items) ==> stripped(json)->Array_0.len() == items.len(),
{
    if let JsonView::Array(items) = json {
        lemma_stripped_items_len(items);
    }
}

/// Records without rows leave an ordered hash and its count as they are.
pub proof fn lemma_heartbeats_do_not_count(log: LoggerView, record: HandlerRecord)
    requires
        log.mode == DeterminismHashMode::OrderedStream,
        empty_results_heartbeat(projected(record)),
    ensures
        after_record(log, record) == (log, Ok::<(), Seq<char>>(())),
{
}

/// What a logger has seen after more records.
pub open spec fn after_records(log: LoggerView, records: Seq<HandlerRecord>) -> LoggerView
    decreases records.len(),
{
    if records.len() == 0 {
        log
    } else {
        after_record(after_records(log, records.drop_last()), records.last()).0
    }
}

/// Records without rows, wherever they stand between others, leave what is hashed and counted
/// as it is without them.
pub proof fn lemma_interleaved_heartbeats_do_not_count(log: LoggerView, records: Seq<HandlerRecord>)
    requires
        log.mode == DeterminismHashMode::OrderedStream,
    ensures
        ({
            let kept = records.filter(|record: HandlerRecord| !empty_results_heartbeat(projected(record)));
            &&& after_records(log, records) == after_records(log, kept)
            &&& logger_summary(after_records(log, records)) == logger_summary(
                after_records(log, kept),
            )
        }),
    decreases records.len(),
{
    reveal(Seq::filter);
    if records.len() > 0 {
        let counts = |record: HandlerRecord| !empty_results_heartbeat(projected(record));
        let earlier = records.drop_last();
        lemma_interleaved_heartbeats_do_not_count(log, earlier);
        lemma_mode_stays(log, earlier);
        let kept = records.filter(counts);
        if counts(records.last()) {
            assert(kept.drop_last() =~= earlier.filter(counts));
            assert(kept.last() == records.last());
        } else {
            lemma_heartbeats_do_not_count(after_records(log, earlier), records.last());
        }
    }
}

/// Records do not change what is hashed.
proof fn lemma_mode_stays(log: LoggerView, records: Seq<HandlerRecord>)
    ensures
        after_records(log, records).mode == log.mode,
    decreases records.len(),
{
    if records.len() > 0 {
        lemma_mode_stays(log, records.drop_last());
    }
}

/// Texts one after another, each ended by a newline.
pub open spec fn lines(texts: Seq<Seq<u8>>) -> Seq<u8>
    decreases texts.len(),
{
    if texts.len() == 0 {
        Seq::empty()
    } else {
        lines(texts.drop_last()) + texts.last() + seq![10u8]
    }
}

/// The texts by which records take part in the ordered hash.
pub open spec fn hashed_texts(records: Seq<HandlerRecord>) -> Seq<Seq<u8>>
    decreases records.len(),
{
    if records.len() == 0 {
        Seq::empty()
    } else {
        match canonical_payload(projected(records.last())) {
            Some(bytes) => hashed_texts(records.drop_last()).push(bytes),
            None => hashed_texts(records.drop_last()),
        }
    }
}

/// An ordered hash is taken of the texts of the records that count, in their order and each on
/// a line, and their number is counted.
pub proof fn lemma_stream_is_made_of_lines(log: LoggerView, records: Seq<HandlerRecord>)
    requires
        log.mode == DeterminismHashMode::OrderedStream,
    ensures
        after_records(log, records).stream == log.stream + lines(hashed_texts(records)),
        after_records(log, records).record_count == log.record_count + hashed_texts(records).len(),
    decreases records.len(),
{
    if records.len() == 0 {
        assert(log.stream + lines(hashed_texts(records)) =~= log.stream);
    } else {
        let earlier = records.drop_last();
        lemma_stream_is_made_of_lines(log, earlier);
        lemma_mode_stays(log, earlier);
        let texts = hashed_texts(earlier);
        if let Some(bytes) = canonical_payload(projected(records.last())) {
            assert(texts.push(bytes).drop_last() =~= texts);
            assert(log.stream + lines(texts.push(bytes)) =~= log.stream + lines(texts) + bytes + seq![
                10u8,
            ]);
        }
    }
}

/// Lines tell their texts and the order of them apart.
proof fn lemma_lines_are_unambiguous(a: Seq<Seq<u8>>, b: Seq<Seq<u8>>)
    requires
        forall|i: int| 0 <= i < a.len() ==> is_line(#[trigger] a[i]),
        forall|i: int| 0 <= i < b.len() ==> is_line(#[trigger] b[i]),
        lines(a) == lines(b),
    ensures
        a == b,
    decreases a.len(),
{
    if a.len() == 0 || b.len() == 0 {
        assert(a.len() == 0 ==> lines(a).len() == 0);
        assert(b.len() == 0 ==> lines(b).len() == 0);
        assert(a =~= b);
    } else {
        let all = lines(a);
        let n = all.len() as int;
        lemma_last_line(a);
        lemma_last_line(b);
        let s = a.last();
        let t = b.last();
        assert(a[a.len() - 1] == s && b[b.len() - 1] == t);
        if s.len() < t.len() {
            let k = n - 2 - s.len();
            assert(all[k] == 10);
            let m = k - lines(b.drop_last()).len();
            assert(all[k] == t[m]);
        }
        if t.len() < s.len() {
            let k = n - 2 - t.len();
            assert(all[k] == 10);
            let m = k - lines(a.drop_last()).len();
            assert(all[k] == s[m]);
        }
        let front = lines(a.drop_last());
        assert(front.len() == lines(b.drop_last()).len());
        assert(front =~= all.take(front.len() as int));
        assert(lines(b.drop_last()) =~= all.take(front.len() as int));
        assert(s =~= all.subrange(front.len() as int, n - 1));
        assert(t =~= all.subrange(front.len() as int, n - 1));
        assert forall|i: int| 0 <= i < a.drop_last().len() implies is_line(
            #[trigger] a.drop_last()[i],
        ) by {
            assert(a.drop_last()[i] == a[i]);
        }
        assert forall|i: int| 0 <= i < b.drop_last().len() implies is_line(
            #[trigger] b.drop_last()[i],
        ) by {
            assert(b.drop_last()[i] == b[i]);
        }
        lemma_lines_are_unambiguous(a.drop_last(), b.drop_last());
        assert(a =~= a.drop_last().push(s));
        assert(b =~= b.drop_last().push(t));
    }
}

/// What stands before the last line is nothing, or ends in a newline.
proof fn lemma_last_line(texts: Seq<Seq<u8>>)
    requires
        texts.len() > 0,
    ensures
        ({
            let front = lines(texts.drop_last());
            &&& lines(texts) == front + texts.last() + seq![10u8]
            &&& front.len() > 0 ==> front.last() == 10
        }),
{
}

/// Records that differ in what is hashed of them, or in its order, give different streams: each
/// text that is hashed is a line. Whether their hashes differ as well is a matter of SHA-256.
pub proof fn lemma_record_order_counts(
    log: LoggerView,
    a: Seq<HandlerRecord>,
    b: Seq<HandlerRecord>,
)
    requires
        log.mode == DeterminismHashMode::OrderedStream,
        forall|i: int| 0 <= i < hashed_texts(a).len() ==> is_line(#[trigger] hashed_texts(a)[i]),
        forall|i: int| 0 <= i < hashed_texts(b).len() ==> is_line(#[trigger] hashed_texts(b)[i]),
        hashed_texts(a) != hashed_texts(b),
    ensures
        after_records(log, a).stream != after_records(log, b).stream,
{
    lemma_stream_is_made_of_lines(log, a);
    lemma_stream_is_made_of_lines(log, b);
    let x = lines(hashed_texts(a));
    let y = lines(hashed_texts(b));
    if log.stream + x == log.stream + y {
        let n = log.stream.len() as int;
        assert(x =~= (log.stream + x).skip(n));
        assert(y =~= (log.stream + y).skip(n));
        lemma_lines_are_unambiguous(hashed_texts(a), hashed_texts(b));
    }
}

/// Payloads that differ only in the order of fields are hashed alike.
pub proof fn lemma_field_order_does_not_count(a: JsonView, b: JsonView)
    requires
        same_value(a, b),
    ensures
        canonical_payload(a) == canonical_payload(b),
{
    lemma_heartbeats_forget_field_order(a, b);
    lemma_stripping_keeps_sameness(a, b);
    lemma_sorting_forgets_field_order(stripped(a), stripped(b));
}

} // verus!
