//! Verifies ordered-stream hashes against stored baselines, and says what to make of a
//! stored final state.

use crate::ids::TestRunId;
use crate::json::{json_get_str, lemma_object_view, Json, JsonView};
use crate::ordered::{entry_views, stable_sort, stable_sorted, to_map, OrderedMap};
use crate::reactions::output_loggers::OutputLoggerResult;
use crate::test_repo_storage::models::{MissingBaselinePolicy, Sha256DeterminismHandlerConfig};
use crate::text::{join, join_texts, option_text, str_equal, texts};
use vstd::prelude::*;
use vstd::string::*;

verus! {

/// The loggers' results of one reaction.
#[derive(Debug)]
pub struct ReactionOutputs {
    pub reaction_id: String,
    pub results: Vec<OutputLoggerResult>,
}

/// The summary of the first determinism hash logger among the results.
pub open spec fn hash_summary(results: Seq<OutputLoggerResult>) -> Option<JsonView>
    decreases results.len(),
{
    if results.len() == 0 {
        None
    } else if results[0].logger_name@ == "DeterminismHash"@ {
        match results[0].summary {
            Some(summary) => Some(summary@),
            None => None,
        }
    } else {
        hash_summary(results.skip(1))
    }
}

/// The summary of the first determinism hash logger among the results.
pub fn find_hash_summary(results: &Vec<OutputLoggerResult>) -> (r: Option<&Json>)
    ensures
        match r {
            Some(summary) => hash_summary(results@) == Some(summary@),
            None => hash_summary(results@) is None,
        },
{
    let mut i: usize = 0;
    assert(results@.skip(0) =~= results@);
    while i < results.len()
        invariant
            0 <= i <= results@.len(),
            hash_summary(results@) == hash_summary(results@.skip(i as int)),
        decreases results@.len() - i,
    {
        if str_equal(results[i].logger_name.as_str(), "DeterminismHash") {
            return match &results[i].summary {
                Some(summary) => Some(summary),
                None => None,
            };
        }
        assert(results@.skip(i as int).skip(1) =~= results@.skip(i + 1));
        i = i + 1;
    }
    None
}

/// The hash that a reaction's loggers report.
pub open spec fn reported_hash(results: Seq<OutputLoggerResult>) -> Option<Seq<char>> {
    match hash_summary(results) {
        Some(summary) => json_get_str(summary, "sha256"@),
        None => None,
    }
}

/// How a reported hash stands against its baseline.
#[derive(Clone, Copy, Debug, PartialEq, Eq, Structural)]
pub enum OrderedOutcome {
    Passed,
    Mismatched,
    MissingBaseline,
}

/// How a reported hash stands against its baseline: it has to be there and equal where
/// there is one; where there is none, the policy decides, whether a hash is there or not.
pub open spec fn ordered_outcome(
    actual: Option<Seq<char>>,
    expected: Option<Seq<char>>,
    policy: MissingBaselinePolicy,
) -> OrderedOutcome {
    match (actual, expected) {
        (Some(a), Some(e)) => if a == e {
            OrderedOutcome::Passed
        } else {
            OrderedOutcome::Mismatched
        },
        (None, Some(_)) => OrderedOutcome::Mismatched,
        (_, None) => match policy {
            MissingBaselinePolicy::Warn => OrderedOutcome::Passed,
            MissingBaselinePolicy::Fail => OrderedOutcome::MissingBaseline,
        },
    }
}

/// How the hash of one reaction stands against its baseline.
#[derive(Debug)]
pub struct OrderedReactionVerdict {
    pub reaction_id: String,
    pub actual: Option<String>,
    pub expected: Option<String>,
    pub passed: bool,
}

/// What a verdict on one reaction says.
pub struct OrderedVerdictView {
    pub reaction_id: Seq<char>,
    pub actual: Option<Seq<char>>,
    pub expected: Option<Seq<char>>,
    pub passed: bool,
}

impl View for OrderedReactionVerdict {
    type V = OrderedVerdictView;

    open spec fn view(&self) -> OrderedVerdictView {
        OrderedVerdictView {
            reaction_id: self.reaction_id@,
            actual: option_text(self.actual),
            expected: option_text(self.expected),
            passed: self.passed,
        }
    }
}

/// The value of a key, where there is one.
pub open spec fn lookup(map: Map<Seq<char>, Seq<char>>, key: Seq<char>) -> Option<Seq<char>> {
    if map.contains_key(key) {
        Some(map[key])
    } else {
        None
    }
}

/// The outcome for a reaction's results.
pub open spec fn outcome_of(
    expected: Map<Seq<char>, Seq<char>>,
    policy: MissingBaselinePolicy,
    output: ReactionOutputs,
) -> OrderedOutcome {
    ordered_outcome(
        reported_hash(output.results@),
        lookup(expected, output.reaction_id@),
        policy,
    )
}

/// The verdict on a reaction's results, under the reaction's name.
pub open spec fn verdict_of(
    expected: Map<Seq<char>, Seq<char>>,
    policy: MissingBaselinePolicy,
    output: ReactionOutputs,
) -> (Seq<char>, OrderedVerdictView) {
    (
        output.reaction_id@,
        OrderedVerdictView {
            reaction_id: output.reaction_id@,
            actual: reported_hash(output.results@),
            expected: lookup(expected, output.reaction_id@),
            passed: outcome_of(expected, policy, output) == OrderedOutcome::Passed,
        },
    )
}

/// The verdicts on all reactions, in the order in which they come.
pub open spec fn verdicts_of(
    expected: Map<Seq<char>, Seq<char>>,
    policy: MissingBaselinePolicy,
    outputs: Seq<ReactionOutputs>,
) -> Seq<(Seq<char>, OrderedVerdictView)> {
    Seq::new(outputs.len(), |i: int| verdict_of(expected, policy, outputs[i]))
}

/// The reactions with a given outcome, in the order in which they come.
pub open spec fn with_outcome(
    expected: Map<Seq<char>, Seq<char>>,
    policy: MissingBaselinePolicy,
    outputs: Seq<ReactionOutputs>,
    outcome: OrderedOutcome,
) -> Seq<Seq<char>>
    decreases outputs.len(),
{
    if outputs.len() == 0 {
        Seq::empty()
    } else {
        let front = with_outcome(expected, policy, outputs.drop_last(), outcome);
        if outcome_of(expected, policy, outputs.last()) == outcome {
            front.push(outputs.last().reaction_id@)
        } else {
            front
        }
    }
}

/// The message of a failed verification.
pub open spec fn mismatch_message(mismatched: Seq<Seq<char>>, missing: Seq<Seq<char>>) -> Seq<char> {
    let first = "Determinism mismatch for reactions: ["@ + join(mismatched, ", "@) + "]"@;
    if missing.len() == 0 {
        first
    } else {
        first + "; missing baseline (policy=Fail) for: ["@ + join(missing, ", "@) + "]"@
    }
}

/// The failure that the reactions' results amount to, if any.
pub open spec fn ordered_failure(
    expected: Map<Seq<char>, Seq<char>>,
    policy: MissingBaselinePolicy,
    outputs: Seq<ReactionOutputs>,
) -> Option<Seq<char>> {
    let mismatched = with_outcome(expected, policy, outputs, OrderedOutcome::Mismatched);
    let missing = with_outcome(expected, policy, outputs, OrderedOutcome::MissingBaseline);
    if mismatched.len() == 0 && missing.len() == 0 {
        None
    } else {
        Some(mismatch_message(mismatched, missing))
    }
}

/// The verdict on every reaction, and the failure they amount to.
#[derive(Debug)]
pub struct OrderedStreamJudgement {
    /// The verdicts under the reactions' names, in order of the names.
    pub verdicts: Vec<(String, OrderedReactionVerdict)>,
    pub failure: Option<String>,
}

/// The message of a failed verification.
fn mismatch_text(mismatched: &Vec<String>, missing: &Vec<String>) -> (r: String)
    ensures
        r@ == mismatch_message(texts(mismatched@), texts(missing@)),
{
    let mut message = "Determinism mismatch for reactions: [".to_owned();
    message.append(join_texts(mismatched, ", ").as_str());
    message.append("]");
    if missing.len() > 0 {
        message.append("; missing baseline (policy=Fail) for: [");
        message.append(join_texts(missing, ", ").as_str());
        message.append("]");
    }
    message
}

/// The hash that a reaction's loggers report.
fn find_reported_hash(results: &Vec<OutputLoggerResult>) -> (r: Option<&str>)
    ensures
        match r {
            Some(hash) => reported_hash(results@) == Some(hash@),
            None => reported_hash(results@) is None,
        },
{
    match find_hash_summary(results) {
        Some(summary) => summary.get_str("sha256"),
        None => None,
    }
}

/// Judges a reported hash.
pub fn judge_hash(actual: Option<&str>, expected: Option<&String>, policy: MissingBaselinePolicy) -> (r:
    OrderedOutcome)
    ensures
        r == ordered_outcome(
            match actual {
                Some(a) => Some(a@),
                None => None,
            },
            match expected {
                Some(e) => Some(e@),
                None => None,
            },
            policy,
        ),
{
    match (actual, expected) {
        (Some(a), Some(e)) => if str_equal(a, e.as_str()) {
            OrderedOutcome::Passed
        } else {
            OrderedOutcome::Mismatched
        },
        (None, Some(_)) => OrderedOutcome::Mismatched,
        (_, None) => match policy {
            MissingBaselinePolicy::Warn => OrderedOutcome::Passed,
            MissingBaselinePolicy::Fail => OrderedOutcome::MissingBaseline,
        },
    }
}

/// Verifies the output of a test run's reactions.
pub struct Sha256DeterminismCompletionHandler {
    config: Sha256DeterminismHandlerConfig,
    test_run_id: TestRunId,
}

impl Sha256DeterminismCompletionHandler {
    /// The baselines are well formed.
    pub closed spec fn wf(self) -> bool {
        self.config.expected.wf()
    }

    /// The baselines by reaction.
    pub closed spec fn expected(self) -> Map<Seq<char>, Seq<char>> {
        self.config.expected@
    }

    /// What becomes of a reaction without a baseline.
    pub closed spec fn policy(self) -> MissingBaselinePolicy {
        self.config.missing_baseline
    }

    /// The stored final state, where one is configured.
    pub closed spec fn golden_file(self) -> Option<Seq<char>> {
        option_text(self.config.golden_file)
    }

    /// The bound on the rows of each kind that a verdict shows.
    pub closed spec fn diagnostic_limit(self) -> usize {
        self.config.diagnostic_limit
    }

    /// The test run that is verified.
    pub closed spec fn test_run_id(self) -> TestRunId {
        self.test_run_id
    }

    /// A handler for a test run.
    pub fn new(config: &Sha256DeterminismHandlerConfig, test_run_id: TestRunId) -> (r:
        Sha256DeterminismCompletionHandler)
        requires
            config.expected.wf(),
        ensures
            r.wf(),
            r.expected() == config.expected@,
            r.policy() == config.missing_baseline,
            r.golden_file() == option_text(config.golden_file),
            r.diagnostic_limit() == config.diagnostic_limit,
            r.test_run_id() == test_run_id,
    {
        let golden_file = match &config.golden_file {
            Some(path) => Some(path.clone()),
            None => None,
        };
        let config = Sha256DeterminismHandlerConfig {
            expected: copy_text_map(&config.expected),
            missing_baseline: config.missing_baseline,
            golden_file,
            diagnostic_limit: config.diagnostic_limit,
        };
        Sha256DeterminismCompletionHandler { config, test_run_id }
    }

    /// Whether the final state is verified, rather than ordered streams.
    pub fn verifies_final_state(&self) -> (r: bool)
        ensures
            r == self.golden_file() is Some,
    {
        self.config.golden_file.is_some()
    }

    /// Judges the ordered streams of all reactions.
    pub fn judge_ordered_stream(&self, outputs: &Vec<ReactionOutputs>) -> (r: OrderedStreamJudgement)
        requires
            self.wf(),
        ensures
            entry_views(r.verdicts@) == stable_sorted::<String, OrderedVerdictView>(
                verdicts_of(self.expected(), self.policy(), outputs@),
            ),
            option_text(r.failure) == ordered_failure(self.expected(), self.policy(), outputs@),
    {
        let ghost expected = self.expected();
        let ghost policy = self.policy();
        let mut verdicts: Vec<(String, OrderedReactionVerdict)> = Vec::new();
        let mut mismatched: Vec<String> = Vec::new();
        let mut missing: Vec<String> = Vec::new();
        let mut i: usize = 0;
        proof {
            assert(outputs@.take(0) =~= Seq::<ReactionOutputs>::empty());
            assert(texts(mismatched@) =~= Seq::<Seq<char>>::empty());
            assert(texts(missing@) =~= Seq::<Seq<char>>::empty());
        }
        while i < outputs.len()
            invariant
                0 <= i <= outputs@.len(),
                self.wf(),
                expected == self.expected(),
                policy == self.policy(),
                verdicts@.len() == i,
                forall|j: int|
                    0 <= j < i ==> ((#[trigger] verdicts@[j]).0@, verdicts@[j].1@) == verdict_of(
                        expected,
                        policy,
                        outputs@[j],
                    ),
                texts(mismatched@) == with_outcome(
                    expected,
                    policy,
                    outputs@.take(i as int),
                    OrderedOutcome::Mismatched,
                ),
                texts(missing@) == with_outcome(
                    expected,
                    policy,
                    outputs@.take(i as int),
                    OrderedOutcome::MissingBaseline,
                ),
            decreases outputs@.len() - i,
        {
            let output = &outputs[i];
            proof {
                assert(outputs@.take(i + 1).drop_last() =~= outputs@.take(i as int));
                assert(outputs@.take(i + 1).last() == *output);
            }
            let actual = find_reported_hash(&output.results);
            let baseline = self.config.expected.get(&output.reaction_id);
            let outcome = judge_hash(actual, baseline, self.config.missing_baseline);
            assert(outcome == outcome_of(expected, policy, *output));
            let ghost old_mismatched = texts(mismatched@);
            let ghost old_missing = texts(missing@);
            if outcome == OrderedOutcome::Mismatched {
                mismatched.push(output.reaction_id.clone());
                assert(texts(mismatched@) =~= old_mismatched.push(output.reaction_id@));
            }
            if outcome == OrderedOutcome::MissingBaseline {
                missing.push(output.reaction_id.clone());
                assert(texts(missing@) =~= old_missing.push(output.reaction_id@));
            }
            let verdict = OrderedReactionVerdict {
                reaction_id: output.reaction_id.clone(),
                actual: match actual {
                    Some(hash) => Some(hash.to_owned()),
                    None => None,
                },
                expected: match baseline {
                    Some(hash) => Some(hash.clone()),
                    None => None,
                },
                passed: outcome == OrderedOutcome::Passed,
            };
            verdicts.push((output.reaction_id.clone(), verdict));
            i = i + 1;
        }
        proof {
            assert(outputs@.take(outputs@.len() as int) =~= outputs@);
            assert(entry_views(verdicts@) =~= verdicts_of(expected, policy, outputs@));
        }
        let verdicts = stable_sort(verdicts);
        let failure = if mismatched.len() > 0 || missing.len() > 0 {
            Some(mismatch_text(&mismatched, &missing))
        } else {
            None
        };
        OrderedStreamJudgement { verdicts, failure }
    }

    /// The configured path of the stored final state, which has to be a relative one.
    /// Whether it is absolute is for the caller's platform to say.
    pub fn relative_golden_file(&self, is_absolute: bool) -> (r: Result<&str, String>)
        ensures
            match r {
                Ok(path) => self.golden_file() == Some(path@) && !is_absolute,
                Err(error) => {
                    ||| self.golden_file() is None && error@
                        == "final-state golden file is not configured"@
                    ||| self.golden_file() is Some && is_absolute && error@
                        == "final-state golden_file must be relative to the test data folder"@
                },
            },
    {
        match &self.config.golden_file {
            Some(path) => if is_absolute {
                Err(
                    "final-state golden_file must be relative to the test data folder".to_owned(),
                )
            } else {
                Ok(path.as_str())
            },
            None => Err("final-state golden file is not configured".to_owned()),
        }
    }

    /// The policy on missing baselines.
    pub fn missing_baseline(&self) -> (r: MissingBaselinePolicy)
        ensures
            r == self.policy(),
    {
        self.config.missing_baseline
    }

    /// The bound on the rows of each kind that a verdict shows.
    pub fn limit(&self) -> (r: usize)
        ensures
            r == self.diagnostic_limit(),
    {
        self.config.diagnostic_limit
    }
}

/// A copy of a map of texts.
fn copy_text_map(map: &OrderedMap<String, String>) -> (r: OrderedMap<String, String>)
    requires
        map.wf(),
    ensures
        r.wf(),
        r@ == map@,
{
    let entries = map.entries();
    let ghost views = entry_views(entries@);
    let mut r: OrderedMap<String, String> = OrderedMap::new();
    let mut i: usize = 0;
    assert(views.take(0) =~= Seq::empty());
    while i < entries.len()
        invariant
            0 <= i <= entries@.len(),
            views == entry_views(entries@),
            r.wf(),
            r@ == to_map(views.take(i as int)),
        decreases entries@.len() - i,
    {
        proof {
            assert(views.take(i + 1).drop_last() =~= views.take(i as int));
            assert(views.take(i + 1).last() == (entries@[i as int].0@, entries@[i as int].1@));
        }
        r.insert(entries[i].0.clone(), entries[i].1.clone());
        i = i + 1;
    }
    assert(views.take(views.len() as int) =~= views);
    r
}

/// An optional text as a value.
pub open spec fn optional_text(text: Option<Seq<char>>) -> JsonView {
    match text {
        Some(text) => JsonView::Text(text),
        None => JsonView::Null,
    }
}

/// A verdict on one reaction as it is written down.
pub open spec fn verdict_json(verdict: OrderedVerdictView) -> JsonView {
    JsonView::Object(
        seq![
            ("actual"@, optional_text(verdict.actual)),
            ("expected"@, optional_text(verdict.expected)),
            ("passed"@, JsonView::Bool(verdict.passed)),
        ],
    )
}

/// A verdict on one reaction as a field under the reaction's name.
pub open spec fn verdict_field(entry: (Seq<char>, OrderedVerdictView)) -> (Seq<char>, JsonView) {
    (entry.1.reaction_id, verdict_json(entry.1))
}

/// The verdicts on ordered streams as they are written down.
pub open spec fn ordered_body(
    test_run_id: Seq<char>,
    verdicts: Seq<(Seq<char>, OrderedVerdictView)>,
) -> JsonView {
    JsonView::Object(
        seq![
            ("mode"@, JsonView::Text("ordered_stream"@)),
            ("test_run_id"@, JsonView::Text(test_run_id)),
            (
                "results"@,
                JsonView::Object(Seq::new(verdicts.len(), |i: int| verdict_field(verdicts[i]))),
            ),
        ],
    )
}

fn optional_text_value(text: &Option<String>) -> (r: Json)
    ensures
        r@ == optional_text(option_text(*text)),
{
    match text {
        Some(text) => Json::Text(text.clone()),
        None => Json::Null,
    }
}

impl OrderedReactionVerdict {
    /// The verdict as it is written down.
    pub fn to_json(&self) -> (r: Json)
        ensures
            r@ == verdict_json(self@),
    {
        broadcast use lemma_object_view;

        let fields = vec![
            ("actual".to_owned(), optional_text_value(&self.actual)),
            ("expected".to_owned(), optional_text_value(&self.expected)),
            ("passed".to_owned(), Json::Bool(self.passed)),
        ];
        assert(entry_views(fields@) =~= verdict_json(self@)->Object_0);
        Json::Object(fields)
    }
}

/// The verdicts on ordered streams as they are written down.
pub fn ordered_verdict_body(
    test_run_id: &str,
    verdicts: &Vec<(String, OrderedReactionVerdict)>,
) -> (r: Json)
    ensures
        r@ == ordered_body(test_run_id@, entry_views(verdicts@)),
{
    broadcast use lemma_object_view;

    let mut results: Vec<(String, Json)> = Vec::new();
    let mut i: usize = 0;
    while i < verdicts.len()
        invariant
            0 <= i <= verdicts@.len(),
            results@.len() == i,
            forall|j: int|
                0 <= j < i ==> ((#[trigger] results@[j]).0@, results@[j].1@) == verdict_field(
                    (verdicts@[j].0@, verdicts@[j].1@),
                ),
        decreases verdicts@.len() - i,
    {
        let verdict = &verdicts[i].1;
        results.push((verdict.reaction_id.clone(), verdict.to_json()));
        i = i + 1;
    }
    let ghost views = entry_views(verdicts@);
    assert(entry_views(results@) =~= Seq::new(views.len(), |i: int| verdict_field(views[i])));
    let fields = vec![
        ("mode".to_owned(), Json::Text("ordered_stream".to_owned())),
        ("test_run_id".to_owned(), Json::Text(test_run_id.to_owned())),
        ("results".to_owned(), Json::Object(results)),
    ];
    assert(entry_views(fields@) =~= ordered_body(test_run_id@, views)->Object_0);
    Json::Object(fields)
}

/// A reaction without a baseline is treated as the policy says, whatever it reports: it passes,
/// or the verification fails.
pub proof fn lemma_absent_reactions_follow_the_policy(
    expected: Map<Seq<char>, Seq<char>>,
    policy: MissingBaselinePolicy,
    outputs: Seq<ReactionOutputs>,
    i: int,
)
    requires
        0 <= i < outputs.len(),
        !expected.contains_key(outputs[i].reaction_id@),
    ensures
        policy == MissingBaselinePolicy::Warn ==> verdict_of(expected, policy, outputs[i]).1.passed,
        policy == MissingBaselinePolicy::Fail ==> !verdict_of(
            expected,
            policy,
            outputs[i],
        ).1.passed && ordered_failure(expected, policy, outputs) is Some,
{
    lemma_failure_iff_some_reaction_fails(expected, policy, outputs);
    if policy == MissingBaselinePolicy::Fail {
        assert(outcome_of(expected, policy, outputs[i]) != OrderedOutcome::Passed);
    }
}

/// A verification fails exactly where some reaction did not pass.
pub proof fn lemma_failure_iff_some_reaction_fails(
    expected: Map<Seq<char>, Seq<char>>,
    policy: MissingBaselinePolicy,
    outputs: Seq<ReactionOutputs>,
)
    ensures
        ordered_failure(expected, policy, outputs) is Some <==> exists|i: int|
            0 <= i < outputs.len() && outcome_of(expected, policy, #[trigger] outputs[i])
                != OrderedOutcome::Passed,
    decreases outputs.len(),
{
    if outputs.len() > 0 {
        let front = outputs.drop_last();
        lemma_failure_iff_some_reaction_fails(expected, policy, front);
        if ordered_failure(expected, policy, front) is Some {
            let i = choose|i: int|
                0 <= i < front.len() && outcome_of(expected, policy, #[trigger] front[i])
                    != OrderedOutcome::Passed;
            assert(outputs[i] == front[i]);
        }
        if exists|i: int|
            0 <= i < outputs.len() && outcome_of(expected, policy, #[trigger] outputs[i])
                != OrderedOutcome::Passed {
            let i = choose|i: int|
                0 <= i < outputs.len() && outcome_of(expected, policy, #[trigger] outputs[i])
                    != OrderedOutcome::Passed;
            if i < front.len() {
                assert(front[i] == outputs[i]);
            }
        }
        assert(outputs.last() == outputs[outputs.len() - 1]);
    }
}

} // verus!
