//! What the operations on test runs hand back, in terms of what they are handed.

use crate::ids::TestRunId;
use crate::ordered::{
    entry_views, in_order, lemma_ascending_lookup, lemma_stable_sorted, lemma_to_map, listable,
    listing, stable_sorted, to_map,
};
use crate::sequence::{NextStep, Sequence};
use crate::sources::source_change_generators::SourceChangeGeneratorStatus;
use crate::test_repo_storage::models::{
    MissingBaselinePolicy, ParseQueryIdError, QueryId, SpacingMode,
};
use crate::test_repo_storage::storage::{
    path_views, BootstrapScriptFile, ChangeScriptFile, TestSourceScriptSet, TestSourceStorage,
};
use crate::test_repo_storage::storage_laws::lemma_rates_are_read;
use crate::test_run_completion::completion_handlers::final_state_check::{
    CheckAction, CheckEvent, CheckPhaseView, FinalStateCheck,
};
use crate::test_run_completion::completion_handlers::final_state_manifest::{
    compare_final_state, manifest_error, FinalStateManifest, FinalStateVerdict, GoldenRead,
    ReactionVerdictView,
};
use crate::test_run_completion::completion_handlers::sha256_determinism::{
    judge_hash, lemma_failure_iff_some_reaction_fails, outcome_of, verdict_of, verdicts_of,
    OrderedOutcome, OrderedStreamJudgement, OrderedVerdictView, ReactionOutputs,
    Sha256DeterminismCompletionHandler,
};
use crate::test_run_completion::completion_handlers::verdict_laws::lemma_failures_are_listed;
use crate::test_run_completion::completion_monitor::{
    CompletionMonitor, MonitorAction, MonitorEvent, MonitorPhase,
};
use crate::test_run_host::{
    components_of, config_views, kind_views, step_views, ComponentKind, HostError, RunChange,
    RunChangeEnd, RunGoal, RunStep, SourceEvent, SourceStatusTracker, TestRun,
    TestRunComponentConfig, TestRunConfig, TestRunHost, TestRunPlan, TestRunStatus,
};
use crate::test_run_host_laws::{
    lemma_added_components_are_there, lemma_components_are_created_in_order,
    lemma_reactions_listen_before_sources_start, lemma_runs_start_from_the_ground_up,
    lemma_runs_stop_from_the_top_down, lists_components, setup_rank, start_rank, stop_rank,
};
use crate::text::decimal;
use vstd::prelude::*;

verus! {

/// A run is started from the ground up: no step comes before one that others build on.
pub proof fn lemma_start_plans_are_ordered(run: &TestRun, r: Vec<RunStep>, i: int, j: int)
    requires
        call_ensures(TestRun::plan_start, (run,), r),
        lists_components(run@),
        0 <= i < j < r@.len(),
    ensures
        start_rank(r@[i]@) <= start_rank(r@[j]@),
{
    lemma_runs_start_from_the_ground_up(run@, Seq::empty());
    assert(step_views(r@).len() == r@.len());
    assert(step_views(r@)[i] == r@[i]@);
    assert(step_views(r@)[j] == r@[j]@);
}

/// A run is stopped from the top down.
pub proof fn lemma_stop_plans_are_ordered(run: &TestRun, r: Vec<RunStep>, i: int, j: int)
    requires
        call_ensures(TestRun::plan_stop, (run,), r),
        lists_components(run@),
        0 <= i < j < r@.len(),
    ensures
        stop_rank(r@[i]@) <= stop_rank(r@[j]@),
{
    lemma_runs_stop_from_the_top_down(run@, Seq::empty());
    assert(step_views(r@).len() == r@.len());
    assert(step_views(r@)[i] == r@[i]@);
    assert(step_views(r@)[j] == r@[j]@);
}

/// A run is set up so that reactions listen before sources start.
pub proof fn lemma_setup_plans_are_ordered(run: &TestRun, r: Vec<RunStep>, i: int, j: int)
    requires
        call_ensures(TestRun::plan_initialize, (run,), r),
        lists_components(run@),
        0 <= i < j < r@.len(),
    ensures
        setup_rank(r@[i]@) <= setup_rank(r@[j]@),
        r@[i]@ is StartSource ==> !(r@[j]@ is StartReaction),
{
    lemma_reactions_listen_before_sources_start(run@, Seq::empty());
    assert(step_views(r@).len() == r@.len());
    assert(step_views(r@)[i] == r@[i]@);
    assert(step_views(r@)[j] == r@[j]@);
}

/// The components of a run are created kind by kind: instances, queries, reactions, sources.
pub proof fn lemma_creation_is_ordered(
    plan: &TestRunPlan,
    r: Vec<(ComponentKind, TestRunComponentConfig)>,
    i: int,
)
    requires
        call_ensures(TestRunPlan::steps, (plan,), r),
        0 <= i < r@.len(),
    ensures
        ({
            let q = plan.drasi_lib_instances@.len() as int;
            let s = q + plan.queries@.len();
            let t = s + plan.reactions@.len();
            &&& r@.len() == t + plan.sources@.len()
            &&& i < q ==> r@[i].0 == ComponentKind::DrasiLibInstance && r@[i].1@
                == plan.drasi_lib_instances@[i]@
            &&& q <= i < s ==> r@[i].0 == ComponentKind::Query && r@[i].1@ == plan.queries@[i - q]@
            &&& s <= i < t ==> r@[i].0 == ComponentKind::Reaction && r@[i].1@ == plan.reactions@[i
                - s]@
            &&& t <= i ==> r@[i].0 == ComponentKind::Source && r@[i].1@ == plan.sources@[i - t]@
        }),
{
    lemma_components_are_created_in_order(*plan);
    assert(kind_views(r@).len() == r@.len());
    assert(kind_views(r@)[i] == (r@[i].0, r@[i].1@));
}

/// The components of a run that is planned are told by the run, each as it was configured.
pub proof fn lemma_plans_keep_the_configuration(
    host: &TestRunHost,
    config: &TestRunConfig,
    r: Result<TestRunPlan, HostError>,
    i: int,
)
    requires
        call_ensures(TestRunHost::begin_test_run, (host, config), r),
        r is Ok,
        0 <= i < config.sources@.len(),
    ensures
        ({
            let plan = r->Ok_0;
            let source = plan.sources@[i];
            &&& plan.id@.test_run_id == config.test_run_id@
            &&& plan.id@.test_id == config.test_id@
            &&& plan.id@.test_repo_id == config.test_repo_id@
            &&& plan.sources@.len() == config.sources@.len()
            &&& plan.queries@.len() == config.queries@.len()
            &&& plan.reactions@.len() == config.reactions@.len()
            &&& plan.drasi_lib_instances@.len() == config.drasi_lib_instances@.len()
            &&& source@.component_id == config.sources@[i].component_id@
            &&& source@.test_run_id == Some(config.test_run_id@)
            &&& source@.test_id == Some(config.test_id@)
            &&& source@.test_repo_id == Some(config.test_repo_id@)
            &&& source@.starts_with_run == config.sources@[i].starts_with_run
        }),
{
    let plan = r->Ok_0;
    assert(config_views(plan.sources@).len() == plan.sources@.len());
    assert(config_views(plan.queries@).len() == plan.queries@.len());
    assert(config_views(plan.reactions@).len() == plan.reactions@.len());
    assert(config_views(plan.drasi_lib_instances@).len() == plan.drasi_lib_instances@.len());
    assert(config_views(plan.sources@)[i] == plan.sources@[i]@);
}

/// A component that the host takes is there, and it was not before.
pub proof fn lemma_taken_components_are_there(
    host: &mut TestRunHost,
    run: &TestRunId,
    kind: ComponentKind,
    id: &str,
    starts_with_run: bool,
    r: Result<(), HostError>,
)
    requires
        call_ensures(TestRunHost::add_component, (host, run, kind, id, starts_with_run), r),
    ensures
        r is Err ==> final(host)@ == old(host)@,
        r is Ok ==> {
            &&& old(host)@.test_runs.contains_key(run@)
            &&& !components_of(old(host)@.test_runs[run@], kind).contains_key(id@)
            &&& final(host)@.test_runs.contains_key(run@)
            &&& components_of(final(host)@.test_runs[run@], kind).contains_key(id@)
            &&& components_of(final(host)@.test_runs[run@], kind)[id@] == starts_with_run
        },
{
    if r is Ok {
        lemma_added_components_are_there(
            old(host)@,
            run@,
            kind,
            id@,
            starts_with_run,
            run@,
            kind,
            id@,
        );
    }
}

/// A component that is removed is gone, and the others of its run are still there.
pub proof fn lemma_removed_components_are_gone(
    host: &mut TestRunHost,
    run: &TestRunId,
    kind: ComponentKind,
    id: &str,
    r: Result<(), HostError>,
    other: Seq<char>,
)
    requires
        call_ensures(TestRunHost::remove_component, (host, run, kind, id), r),
    ensures
        r is Err ==> final(host)@ == old(host)@,
        r is Ok ==> {
            &&& final(host)@.test_runs.contains_key(run@)
            &&& !components_of(final(host)@.test_runs[run@], kind).contains_key(id@)
            &&& other != id@ ==> (components_of(final(host)@.test_runs[run@], kind).contains_key(
                other,
            ) <==> components_of(old(host)@.test_runs[run@], kind).contains_key(other))
        },
{
}

/// A run that was deleted is gone, and a run that was added is running.
pub proof fn lemma_runs_come_and_go(
    host: &mut TestRunHost,
    other: &mut TestRunHost,
    config: &TestRunConfig,
    id: &TestRunId,
    r: Result<TestRunId, HostError>,
    s: Result<(), HostError>,
)
    requires
        call_ensures(TestRunHost::add_test_run, (host, config), r),
        call_ensures(TestRunHost::delete_test_run, (other, id), s),
    ensures
        r matches Ok(added) ==> final(host)@.test_runs.contains_key(added@)
            && !old(host)@.test_runs.contains_key(added@) && final(host)@.test_runs[added@].status
            is Running && added@.test_run_id == config.test_run_id@ && added@.test_id
            == config.test_id@ && added@.test_repo_id == config.test_repo_id@,
        !final(other)@.test_runs.contains_key(id@),
        s is Ok <==> old(other)@.test_runs.contains_key(id@),
{
}

/// Comparing two final states takes the first as what was expected and the second as what came.
pub proof fn lemma_comparisons_know_their_sides(
    expected: &FinalStateManifest,
    actual: &FinalStateManifest,
    limit: usize,
    test_run_id: &str,
    r: FinalStateVerdict,
    id: Seq<char>,
)
    requires
        call_ensures(compare_final_state, (expected, actual, limit, test_run_id), r),
    ensures
        r.test_run_id@ == test_run_id@,
        r.diagnostic_limit == limit,
        r.results@.contains_key(id) <==> expected.reactions@.contains_key(id)
            || actual.reactions@.contains_key(id),
        expected.reactions@.contains_key(id) ==> r.results@[id].expected_sha256 == Some(
            expected.reactions@[id].sha256,
        ),
        actual.reactions@.contains_key(id) ==> r.results@[id].actual_sha256 == Some(
            actual.reactions@[id].sha256,
        ),
        r.results@.contains_key(id) && r.results@[id].passed ==> expected.reactions@.contains_key(id)
            && actual.reactions@.contains_key(id) && expected.reactions@[id].sha256
            == actual.reactions@[id].sha256,
{
}

/// A hash passes exactly where it is the expected one or, where none is expected, where that is
/// only warned of.
pub proof fn lemma_hashes_are_judged(
    actual: Option<&str>,
    expected: Option<&String>,
    policy: MissingBaselinePolicy,
    r: OrderedOutcome,
)
    requires
        call_ensures(judge_hash, (actual, expected, policy), r),
    ensures
        expected matches Some(e) ==> (r == OrderedOutcome::Passed <==> (actual matches Some(a) && a@
            == e@)),
        expected is None ==> (r == OrderedOutcome::Passed <==> policy
            == MissingBaselinePolicy::Warn),
        r == OrderedOutcome::MissingBaseline ==> expected is None,
{
}

/// The monitor collects the outputs once every component has finished, and not before.
pub proof fn lemma_outputs_are_collected_at_the_end(
    monitor: &mut CompletionMonitor,
    all_finished: bool,
    r: MonitorAction,
)
    requires
        call_ensures(
            CompletionMonitor::handle,
            (monitor, MonitorEvent::Reported { all_finished }),
            r,
        ),
        old(monitor)@.phase == MonitorPhase::Watching,
    ensures
        r is Collect <==> all_finished,
        r is Wait <==> !all_finished,
{
}

/// The files of a source are handed out by type and by name: as many files of changes as there
/// are, and files of initial data under each type that there is.
pub proof fn lemma_no_script_is_lost(
    bootstrap_files: Vec<BootstrapScriptFile>,
    change_files: Vec<ChangeScriptFile>,
    r: TestSourceScriptSet,
)
    requires
        call_ensures(TestSourceStorage::get_script_files, (bootstrap_files, change_files), r),
    ensures
        r.source_change_script_files@.len() == change_files@.len(),
{
    crate::test_repo_storage::storage_laws::lemma_change_files_are_played_by_name(
        change_files@,
        Seq::empty(),
    );
    let entries = crate::test_repo_storage::storage::named_paths(change_files@);
    let sorted = crate::ordered::stable_sorted::<Vec<u8>, Seq<u8>>(entries);
    broadcast use vstd::seq_lib::group_to_multiset_ensures;

    assert(sorted.to_multiset().len() == sorted.len());
    assert(entries.to_multiset().len() == entries.len());
    assert(path_views(r.source_change_script_files@).len() == r.source_change_script_files@.len());
}

/// The parts of a query's name are what stands before and behind its only point.
pub proof fn lemma_query_names_are_split(
    value: &str,
    r: Result<QueryId, ParseQueryIdError>,
)
    requires
        call_ensures(QueryId::try_from, (value,), r),
    ensures
        r matches Ok(id) ==> value@ == id.node_id@ + seq!['.'] + id.query_id@,
{
    if r is Ok {
        let id = r->Ok_0;
        let i = choose|i: int| #[trigger]
            crate::test_repo_storage::models::splits_at(value@, i) && id.node_id@ == value@.take(i)
                && id.query_id@ == value@.skip(i + 1);
        assert(value@ =~= id.node_id@ + seq!['.'] + id.query_id@);
    }
}

/// The verdicts on the streams of reactions come by name, one for each reaction, and there is a
/// failure exactly where one of them did not pass.
pub proof fn lemma_streams_are_judged(
    handler: &Sha256DeterminismCompletionHandler,
    outputs: &Vec<ReactionOutputs>,
    r: OrderedStreamJudgement,
)
    requires
        call_ensures(
            Sha256DeterminismCompletionHandler::judge_ordered_stream,
            (handler, outputs),
            r,
        ),
    ensures
        in_order::<String, OrderedVerdictView>(entry_views(r.verdicts@)),
        r.verdicts@.len() == outputs@.len(),
        r.failure is Some <==> exists|i: int|
            0 <= i < outputs@.len() && !verdict_of(
                handler.expected(),
                handler.policy(),
                #[trigger] outputs@[i],
            ).1.passed,
{
    broadcast use vstd::seq_lib::group_to_multiset_ensures;

    let verdicts = verdicts_of(handler.expected(), handler.policy(), outputs@);
    let sorted = stable_sorted::<String, OrderedVerdictView>(verdicts);
    lemma_stable_sorted::<String, OrderedVerdictView>(verdicts);
    assert(sorted.to_multiset().len() == sorted.len());
    assert(verdicts.to_multiset().len() == verdicts.len());
    assert(entry_views(r.verdicts@).len() == r.verdicts@.len());
    lemma_failure_iff_some_reaction_fails(handler.expected(), handler.policy(), outputs@);
    if exists|i: int|
        0 <= i < outputs@.len() && outcome_of(
            handler.expected(),
            handler.policy(),
            #[trigger] outputs@[i],
        ) != OrderedOutcome::Passed {
        let i = choose|i: int|
            0 <= i < outputs@.len() && outcome_of(
                handler.expected(),
                handler.policy(),
                #[trigger] outputs@[i],
            ) != OrderedOutcome::Passed;
        assert(!verdict_of(handler.expected(), handler.policy(), outputs@[i]).1.passed);
    }
    if exists|i: int|
        0 <= i < outputs@.len() && !verdict_of(
            handler.expected(),
            handler.policy(),
            #[trigger] outputs@[i],
        ).1.passed {
        let i = choose|i: int|
            0 <= i < outputs@.len() && !verdict_of(
                handler.expected(),
                handler.policy(),
                #[trigger] outputs@[i],
            ).1.passed;
        assert(outcome_of(handler.expected(), handler.policy(), outputs@[i])
            != OrderedOutcome::Passed);
    }
}

/// A verdict on final states is an error exactly where one of its reactions did not pass.
pub proof fn lemma_outcomes_of_verdicts(verdict: &FinalStateVerdict, r: Result<(), String>)
    requires
        call_ensures(FinalStateVerdict::outcome, (verdict,), r),
        listable::<String, ReactionVerdictView>(verdict.results@),
    ensures
        r is Ok <==> forall|id: Seq<char>| #[trigger]
            verdict.results@.contains_key(id) ==> verdict.results@[id].passed,
{
    let list = listing::<String, ReactionVerdictView>(verdict.results@);
    lemma_failures_are_listed(list);
    lemma_to_map(list);
    if r is Ok {
        assert forall|id: Seq<char>| #[trigger]
            verdict.results@.contains_key(id) implies verdict.results@[id].passed by {
            let i = choose|i: int|
                0 <= i < list.len() && (#[trigger] list[i]).0 == id && to_map(list)[id]
                    == list[i].1 && (forall|j: int|
                    i < j < list.len() ==> (#[trigger] list[j]).0 != id);
            assert(list[i].1.passed);
        }
    }
    if forall|id: Seq<char>| #[trigger]
        verdict.results@.contains_key(id) ==> verdict.results@[id].passed {
        assert forall|i: int| 0 <= i < list.len() implies (#[trigger] list[i]).1.passed by {
            lemma_ascending_lookup::<String, ReactionVerdictView>(list, i);
            assert(verdict.results@.contains_key(list[i].0));
        }
    }
}

/// The check of a final state writes its candidate first, then reads the stored state, and takes
/// that state as what was expected.
pub proof fn lemma_checks_go_step_by_step(
    check: &mut FinalStateCheck,
    before: &FinalStateCheck,
    manifest: FinalStateManifest,
    path: String,
    action: CheckAction,
    id: Seq<char>,
)
    requires
        call_ensures(
            FinalStateCheck::handle,
            (
                check,
                CheckEvent::GoldenRead { golden: GoldenRead::Manifest(manifest), path },
            ),
            (),
        ),
        old(check)@.phase == CheckPhaseView::ReadingGolden,
        manifest_error(path@, manifest.schema_version, manifest.reactions@) is None,
        call_ensures(FinalStateCheck::action, (before,), action),
    ensures
        final(check)@.candidate == old(check)@.candidate,
        final(check)@.phase matches CheckPhaseView::WritingVerdict(verdicts) && {
            &&& manifest.reactions@.contains_key(id) ==> verdicts.contains_key(id)
                && verdicts[id].expected_sha256 == Some(manifest.reactions@[id].sha256)
            &&& old(check)@.candidate.contains_key(id) ==> verdicts.contains_key(id)
                && verdicts[id].actual_sha256 == Some(old(check)@.candidate[id].sha256)
        },
        before@.phase is WritingCandidate <==> action is WriteCandidate,
        before@.phase is ReadingGolden <==> action is ReadGolden,
        before@.phase is WritingVerdict <==> action is WriteVerdict,
        before@.phase is Ended <==> action is Finish,
{
}

/// Reaching a goal changes the run's status alone: running after a start, stopped after a stop,
/// gone after it was deleted.
pub proof fn lemma_reached_goals(
    host: &mut TestRunHost,
    run: &TestRunId,
    change: &RunChange,
    r: Result<RunChangeEnd, HostError>,
)
    requires
        call_ensures(TestRunHost::end_change, (host, run, change), r),
        old(host)@.test_runs.contains_key(run@),
        r == Ok::<RunChangeEnd, HostError>(RunChangeEnd::Changed),
    ensures
        match change@.goal {
            RunGoal::Initialize => final(host)@ == old(host)@,
            RunGoal::Start => final(host)@.test_runs.contains_key(run@)
                && final(host)@.test_runs[run@].status is Running,
            RunGoal::Stop => final(host)@.test_runs.contains_key(run@)
                && final(host)@.test_runs[run@].status is Stopped,
            RunGoal::Delete => !final(host)@.test_runs.contains_key(run@),
        },
{
}

/// Setting the status of a run sets it; asking for it tells it.
pub proof fn lemma_statuses_are_kept(
    host: &mut TestRunHost,
    other: &TestRunHost,
    run: &TestRunId,
    status: TestRunStatus,
    r: Result<(), HostError>,
    s: Result<TestRunStatus, HostError>,
)
    requires
        call_ensures(TestRunHost::set_test_run_status, (host, run, status), r),
        call_ensures(TestRunHost::get_test_run_status, (other, run), s),
    ensures
        r is Ok <==> old(host)@.test_runs.contains_key(run@),
        r is Ok ==> final(host)@.test_runs[run@].status == status@,
        s is Ok <==> other@.test_runs.contains_key(run@),
        s matches Ok(found) ==> found@ == other@.test_runs[run@].status,
{
}

/// A source is told of exactly where its status is not the last one that was observed.
pub proof fn lemma_statuses_are_observed(
    tracker: &mut SourceStatusTracker,
    source_id: &str,
    status: SourceChangeGeneratorStatus,
    r: Option<SourceEvent>,
)
    requires
        call_ensures(SourceStatusTracker::observe, (tracker, source_id, status), r),
    ensures
        final(tracker)@.contains_key(source_id@) && final(tracker)@[source_id@] == status,
        r is None <==> old(tracker)@.contains_key(source_id@) && old(tracker)@[source_id@] == status,
        r matches Some(event) ==> (event is Finished <==> status
            == SourceChangeGeneratorStatus::Finished) && (event is Started
            <==> status.processing()) && (event is Error <==> status
            == SourceChangeGeneratorStatus::Error),
{
}

/// Steps are taken one by one: one that succeeds brings the next, one that fails ends them.
pub proof fn lemma_sequences_go_on(
    sequence: &mut Sequence,
    outcome: Result<(), String>,
    before: &Sequence,
    next: NextStep,
)
    requires
        call_ensures(Sequence::record, (sequence, outcome), ()),
        call_ensures(Sequence::next, (before,), next),
        old(sequence)@.failure is None,
        old(sequence)@.taken < old(sequence)@.count,
    ensures
        final(sequence)@.count == old(sequence)@.count,
        outcome is Ok ==> final(sequence)@.taken == old(sequence)@.taken + 1
            && final(sequence)@.failure is None,
        outcome matches Err(message) ==> final(sequence)@.taken == old(sequence)@.taken
            && final(sequence)@.failure == Some(message@),
        next matches NextStep::Take(index) ==> index == before@.taken && before@.taken
            < before@.count && before@.failure is None,
        next matches NextStep::Failed(message) ==> before@.failure == Some(message@),
        next is Done ==> before@.failure is None && before@.taken >= before@.count,
{
}

/// A spacing is read from its name or from a rate that is not zero.
pub proof fn lemma_spacings_are_read(
    s: &str,
    lower: &str,
    r: Result<SpacingMode, String>,
    rate: u32,
)
    requires
        call_ensures(SpacingMode::from_lowercase, (s, lower), r),
    ensures
        lower@ == "none"@ ==> r == Ok::<SpacingMode, String>(SpacingMode::Unspaced),
        lower@ == "recorded"@ ==> r == Ok::<SpacingMode, String>(SpacingMode::Recorded),
        lower@ != "none"@ && lower@ != "recorded"@ && s@ == decimal(rate as nat) && rate > 0 ==> r
            == Ok::<SpacingMode, String>(SpacingMode::Rate(rate)),
{
    lemma_rates_are_read(s@, lower@, rate);
}

} // verus!
