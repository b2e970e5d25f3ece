//! In which order the components of test runs are created, started and stopped, and what the
//! host keeps of them.

use crate::ids::TestRunIdView;
use crate::ordered::{
    ascending, entry_views, lemma_ascending_lookup, lemma_to_map, listable, listing, to_map,
    OrderedKey,
};
use crate::sequence::SequenceView;
use crate::sources::source_change_generators::SourceChangeGeneratorStatus;
use crate::test_run_host::{
    add_error, all_within_run, by_name, changed, component_entry, component_ids, components_of,
    configured, creation_order, end_of, event_of, goal_steps, host_message, initialize_steps,
    is_included, kind_name, kind_steps, run_id_of, run_ids, run_of, start_steps, step_of, steps_for,
    stop_steps, with_component, with_components, with_run, with_status, within_run,
    ComponentConfigView, ComponentKind, HostErrorView, HostView, RunAction, RunChangeEndView,
    RunGoal, RunStatusView, RunStepView, TestRunComponentConfig, TestRunConfig, TestRunHostStatus,
    TestRunPlan, TestRunView,
};
use crate::text::{contains_text, text_before};
use crate::text_laws::lemma_parts_are_contained;
use vstd::prelude::*;

verus! {

/// The component that a step is about.
pub open spec fn step_name(step: RunStepView) -> Seq<char> {
    match step {
        RunStepView::StartInstance(id) => id,
        RunStepView::StartSource(id) => id,
        RunStepView::StartQuery(id) => id,
        RunStepView::StartReaction(id) => id,
        RunStepView::StopReaction(id) => id,
        RunStepView::StopQuery(id) => id,
        RunStepView::StopSource(id) => id,
        RunStepView::StopInstance(id) => id,
        RunStepView::HandHostToSource(id) => id,
        RunStepView::HandHostToReaction(id) => id,
        RunStepView::AwaitReactions => Seq::empty(),
    }
}

/// Where a step has its place when a run starts: instances first, then sources, then queries,
/// then reactions.
pub open spec fn start_rank(step: RunStepView) -> int {
    match step {
        RunStepView::StartInstance(_) => 0,
        RunStepView::StartSource(_) => 1,
        RunStepView::StartQuery(_) => 2,
        RunStepView::StartReaction(_) => 3,
        _ => 4,
    }
}

/// Where a step has its place when a run stops: reactions first, then queries, then sources,
/// then instances.
pub open spec fn stop_rank(step: RunStepView) -> int {
    match step {
        RunStepView::StopReaction(_) => 0,
        RunStepView::StopQuery(_) => 1,
        RunStepView::StopSource(_) => 2,
        RunStepView::StopInstance(_) => 3,
        _ => 4,
    }
}

/// Where a step has its place when a run is set up: sources get the host first, then
/// reactions; reactions start next and are waited for; sources start last.
pub open spec fn setup_rank(step: RunStepView) -> int {
    match step {
        RunStepView::HandHostToSource(_) => 0,
        RunStepView::HandHostToReaction(_) => 1,
        RunStepView::StartReaction(_) => 2,
        RunStepView::AwaitReactions => 3,
        RunStepView::StartSource(_) => 4,
        _ => 5,
    }
}

/// The components of a run can be listed by name.
pub open spec fn lists_components(run: TestRunView) -> bool {
    &&& listable::<String, bool>(run.drasi_lib_instances)
    &&& listable::<String, bool>(run.queries)
    &&& listable::<String, bool>(run.reactions)
    &&& listable::<String, bool>(run.sources)
}

/// The steps for components are those of the components that take part, in their order.
proof fn lemma_steps_for(
    action: RunAction,
    kind: ComponentKind,
    components: Seq<(Seq<char>, bool)>,
)
    requires
        ascending::<String, bool>(components),
    ensures
        ({
            let steps = steps_for(action, kind, components);
            &&& forall|k: int|
                0 <= k < steps.len() ==> exists|i: int|
                    0 <= i < components.len() && is_included(
                        action,
                        kind,
                        (#[trigger] components[i]).1,
                    ) && #[trigger] steps[k] == step_of(action, kind, components[i].0)
            &&& forall|k: int, l: int|
                0 <= k < l < steps.len() ==> text_before(
                    step_name(#[trigger] steps[k]),
                    step_name(#[trigger] steps[l]),
                )
            &&& forall|i: int|
                0 <= i < components.len() && is_included(
                    action,
                    kind,
                    (#[trigger] components[i]).1,
                ) ==> steps.contains(step_of(action, kind, components[i].0))
        }),
    decreases components.len(),
{
    if components.len() > 0 {
        let front = components.drop_last();
        let n = components.len() - 1;
        let some = steps_for(action, kind, front);
        let all = steps_for(action, kind, components);
        lemma_steps_for(action, kind, front);
        assert(components.last() == components[n]);
        assert forall|k: int| 0 <= k < all.len() implies exists|i: int|
            0 <= i < components.len() && is_included(action, kind, (#[trigger] components[i]).1)
                && #[trigger] all[k] == step_of(action, kind, components[i].0) by {
            if k < some.len() {
                let i = choose|i: int|
                    0 <= i < front.len() && is_included(action, kind, (#[trigger] front[i]).1)
                        && some[k] == step_of(action, kind, front[i].0);
                assert(components[i] == front[i]);
                assert(all[k] == some[k]);
            } else {
                assert(all[k] == step_of(action, kind, components[n].0));
            }
        }
        assert forall|k: int, l: int| 0 <= k < l < all.len() implies text_before(
            step_name(#[trigger] all[k]),
            step_name(#[trigger] all[l]),
        ) by {
            assert(all[k] == some[k]);
            if l < some.len() {
                assert(all[l] == some[l]);
            } else {
                let i = choose|i: int|
                    0 <= i < front.len() && is_included(action, kind, (#[trigger] front[i]).1)
                        && some[k] == step_of(action, kind, front[i].0);
                assert(components[i] == front[i]);
                assert(<String as OrderedKey>::before(components[i].0, components[n].0));
            }
        }
        assert forall|i: int|
            0 <= i < components.len() && is_included(
                action,
                kind,
                (#[trigger] components[i]).1,
            ) implies all.contains(step_of(action, kind, components[i].0)) by {
            if i < n {
                assert(front[i] == components[i]);
                let k = choose|k: int|
                    0 <= k < some.len() && some[k] == step_of(action, kind, components[i].0);
                assert(all[k] == some[k]);
            } else {
                assert(all[all.len() - 1] == step_of(action, kind, components[n].0));
            }
        }
    }
}

/// The steps for one kind of component are those of the components of that kind that take
/// part, by name.
proof fn lemma_kind_steps(action: RunAction, run: TestRunView, kind: ComponentKind)
    requires
        listable::<String, bool>(components_of(run, kind)),
    ensures
        ({
            let steps = kind_steps(action, run, kind);
            let components = components_of(run, kind);
            &&& forall|k: int|
                0 <= k < steps.len() ==> {
                    let id = step_name(#[trigger] steps[k]);
                    &&& steps[k] == step_of(action, kind, id)
                    &&& components.contains_key(id)
                    &&& is_included(action, kind, components[id])
                }
            &&& forall|k: int, l: int|
                0 <= k < l < steps.len() ==> text_before(
                    step_name(#[trigger] steps[k]),
                    step_name(#[trigger] steps[l]),
                )
            &&& forall|id: Seq<char>| #[trigger]
                components.contains_key(id) && is_included(action, kind, components[id])
                    ==> steps.contains(step_of(action, kind, id))
        }),
{
    let components = components_of(run, kind);
    let list = listing::<String, bool>(components);
    let steps = kind_steps(action, run, kind);
    lemma_steps_for(action, kind, list);
    lemma_to_map(list);
    assert forall|k: int| 0 <= k < steps.len() implies {
        let id = step_name(#[trigger] steps[k]);
        &&& steps[k] == step_of(action, kind, id)
        &&& components.contains_key(id)
        &&& is_included(action, kind, components[id])
    } by {
        let i = choose|i: int|
            0 <= i < list.len() && is_included(action, kind, (#[trigger] list[i]).1) && steps[k]
                == step_of(action, kind, list[i].0);
        lemma_ascending_lookup::<String, bool>(list, i);
    }
    assert forall|id: Seq<char>| #[trigger]
        components.contains_key(id) && is_included(
            action,
            kind,
            components[id],
        ) implies steps.contains(step_of(action, kind, id)) by {
        let i = choose|i: int|
            0 <= i < list.len() && (#[trigger] list[i]).0 == id && to_map(list)[id] == list[i].1
                && (forall|j: int| i < j < list.len() ==> (#[trigger] list[j]).0 != id);
        assert(is_included(action, kind, list[i].1));
    }
}

/// Whether a list has an item is whether one of its two parts has.
proof fn lemma_contains_either(a: Seq<RunStepView>, b: Seq<RunStepView>, step: RunStepView)
    ensures
        (a + b).contains(step) <==> a.contains(step) || b.contains(step),
{
    if a.contains(step) {
        let i = choose|i: int| 0 <= i < a.len() && a[i] == step;
        assert((a + b)[i] == step);
    }
    if b.contains(step) {
        let i = choose|i: int| 0 <= i < b.len() && b[i] == step;
        assert((a + b)[a.len() + i] == step);
    }
}

/// A run starts its instances, then its sources, then its queries, then its reactions, each
/// kind by name. Every instance and every query is started, and those sources and reactions
/// that start with the run; nothing else happens.
pub proof fn lemma_runs_start_from_the_ground_up(run: TestRunView, id: Seq<char>)
    requires
        lists_components(run),
    ensures
        ({
            let steps = start_steps(run);
            &&& forall|k: int, l: int|
                0 <= k < l < steps.len() ==> start_rank(#[trigger] steps[k]) < start_rank(
                    #[trigger] steps[l],
                ) || (start_rank(steps[k]) == start_rank(steps[l]) && text_before(
                    step_name(steps[k]),
                    step_name(steps[l]),
                ))
            &&& forall|k: int| 0 <= k < steps.len() ==> start_rank(#[trigger] steps[k]) < 4
            &&& steps.contains(RunStepView::StartInstance(id))
                <==> run.drasi_lib_instances.contains_key(id)
            &&& steps.contains(RunStepView::StartSource(id)) <==> run.sources.contains_key(id)
                && run.sources[id]
            &&& steps.contains(RunStepView::StartQuery(id)) <==> run.queries.contains_key(id)
            &&& steps.contains(RunStepView::StartReaction(id)) <==> run.reactions.contains_key(id)
                && run.reactions[id]
        }),
{
    let a = kind_steps(RunAction::Start, run, ComponentKind::DrasiLibInstance);
    let b = kind_steps(RunAction::Start, run, ComponentKind::Source);
    let c = kind_steps(RunAction::Start, run, ComponentKind::Query);
    let d = kind_steps(RunAction::Start, run, ComponentKind::Reaction);
    lemma_kind_steps(RunAction::Start, run, ComponentKind::DrasiLibInstance);
    lemma_kind_steps(RunAction::Start, run, ComponentKind::Source);
    lemma_kind_steps(RunAction::Start, run, ComponentKind::Query);
    lemma_kind_steps(RunAction::Start, run, ComponentKind::Reaction);
    lemma_contains_either(a, b, RunStepView::StartInstance(id));
    lemma_contains_either(a + b, c, RunStepView::StartInstance(id));
    lemma_contains_either(a + b + c, d, RunStepView::StartInstance(id));
    lemma_contains_either(a, b, RunStepView::StartSource(id));
    lemma_contains_either(a + b, c, RunStepView::StartSource(id));
    lemma_contains_either(a + b + c, d, RunStepView::StartSource(id));
    lemma_contains_either(a, b, RunStepView::StartQuery(id));
    lemma_contains_either(a + b, c, RunStepView::StartQuery(id));
    lemma_contains_either(a + b + c, d, RunStepView::StartQuery(id));
    lemma_contains_either(a, b, RunStepView::StartReaction(id));
    lemma_contains_either(a + b, c, RunStepView::StartReaction(id));
    lemma_contains_either(a + b + c, d, RunStepView::StartReaction(id));
}

/// A run stops its reactions, then its queries, then its sources, then its instances, each kind
/// by name: the other way round than it starts. Every component is stopped, and nothing else
/// happens.
pub proof fn lemma_runs_stop_from_the_top_down(run: TestRunView, id: Seq<char>)
    requires
        lists_components(run),
    ensures
        ({
            let steps = stop_steps(run);
            &&& forall|k: int, l: int|
                0 <= k < l < steps.len() ==> stop_rank(#[trigger] steps[k]) < stop_rank(
                    #[trigger] steps[l],
                ) || (stop_rank(steps[k]) == stop_rank(steps[l]) && text_before(
                    step_name(steps[k]),
                    step_name(steps[l]),
                ))
            &&& forall|k: int| 0 <= k < steps.len() ==> stop_rank(#[trigger] steps[k]) < 4
            &&& steps.contains(RunStepView::StopInstance(id))
                <==> run.drasi_lib_instances.contains_key(id)
            &&& steps.contains(RunStepView::StopSource(id)) <==> run.sources.contains_key(id)
            &&& steps.contains(RunStepView::StopQuery(id)) <==> run.queries.contains_key(id)
            &&& steps.contains(RunStepView::StopReaction(id)) <==> run.reactions.contains_key(id)
        }),
{
    let a = kind_steps(RunAction::Stop, run, ComponentKind::Reaction);
    let b = kind_steps(RunAction::Stop, run, ComponentKind::Query);
    let c = kind_steps(RunAction::Stop, run, ComponentKind::Source);
    let d = kind_steps(RunAction::Stop, run, ComponentKind::DrasiLibInstance);
    lemma_kind_steps(RunAction::Stop, run, ComponentKind::DrasiLibInstance);
    lemma_kind_steps(RunAction::Stop, run, ComponentKind::Source);
    lemma_kind_steps(RunAction::Stop, run, ComponentKind::Query);
    lemma_kind_steps(RunAction::Stop, run, ComponentKind::Reaction);
    lemma_contains_either(a, b, RunStepView::StopInstance(id));
    lemma_contains_either(a + b, c, RunStepView::StopInstance(id));
    lemma_contains_either(a + b + c, d, RunStepView::StopInstance(id));
    lemma_contains_either(a, b, RunStepView::StopSource(id));
    lemma_contains_either(a + b, c, RunStepView::StopSource(id));
    lemma_contains_either(a + b + c, d, RunStepView::StopSource(id));
    lemma_contains_either(a, b, RunStepView::StopQuery(id));
    lemma_contains_either(a + b, c, RunStepView::StopQuery(id));
    lemma_contains_either(a + b + c, d, RunStepView::StopQuery(id));
    lemma_contains_either(a, b, RunStepView::StopReaction(id));
    lemma_contains_either(a + b, c, RunStepView::StopReaction(id));
    lemma_contains_either(a + b + c, d, RunStepView::StopReaction(id));
}

/// A run is set up so that no source starts before the reactions listen: every source and every
/// reaction gets the host, then the reactions that start with the run are started and, if there
/// are any, waited for, and only then the sources that start with the run are started.
pub proof fn lemma_reactions_listen_before_sources_start(run: TestRunView, id: Seq<char>)
    requires
        lists_components(run),
    ensures
        ({
            let steps = initialize_steps(run);
            &&& forall|k: int, l: int|
                0 <= k < l < steps.len() ==> setup_rank(#[trigger] steps[k]) < setup_rank(
                    #[trigger] steps[l],
                ) || (setup_rank(steps[k]) == setup_rank(steps[l]) && text_before(
                    step_name(steps[k]),
                    step_name(steps[l]),
                ))
            &&& forall|k: int| 0 <= k < steps.len() ==> setup_rank(#[trigger] steps[k]) < 5
            &&& steps.contains(RunStepView::HandHostToSource(id)) <==> run.sources.contains_key(id)
            &&& steps.contains(RunStepView::HandHostToReaction(id))
                <==> run.reactions.contains_key(id)
            &&& steps.contains(RunStepView::StartReaction(id)) <==> run.reactions.contains_key(id)
                && run.reactions[id]
            &&& steps.contains(RunStepView::StartSource(id)) <==> run.sources.contains_key(id)
                && run.sources[id]
            &&& run.reactions.contains_key(id) && run.reactions[id] ==> steps.contains(
                RunStepView::AwaitReactions,
            )
            &&& (forall|r: Seq<char>| #[trigger] run.reactions.contains_key(r) ==> !run.reactions[r])
                ==> !steps.contains(RunStepView::AwaitReactions)
        }),
{
    let a = kind_steps(RunAction::HandHost, run, ComponentKind::Source);
    let b = kind_steps(RunAction::HandHost, run, ComponentKind::Reaction);
    let c = kind_steps(RunAction::Start, run, ComponentKind::Reaction);
    let d = if c.len() > 0 {
        seq![RunStepView::AwaitReactions]
    } else {
        Seq::empty()
    };
    let e = kind_steps(RunAction::Start, run, ComponentKind::Source);
    lemma_kind_steps(RunAction::HandHost, run, ComponentKind::Source);
    lemma_kind_steps(RunAction::HandHost, run, ComponentKind::Reaction);
    lemma_kind_steps(RunAction::Start, run, ComponentKind::Reaction);
    lemma_kind_steps(RunAction::Start, run, ComponentKind::Source);
    lemma_contains_one(a, b, c, d, e, RunStepView::HandHostToSource(id));
    lemma_contains_one(a, b, c, d, e, RunStepView::HandHostToReaction(id));
    lemma_contains_one(a, b, c, d, e, RunStepView::StartReaction(id));
    lemma_contains_one(a, b, c, d, e, RunStepView::StartSource(id));
    lemma_contains_one(a, b, c, d, e, RunStepView::AwaitReactions);
    if run.reactions.contains_key(id) && run.reactions[id] {
        assert(c.contains(RunStepView::StartReaction(id)));
        assert(d[0] == RunStepView::AwaitReactions);
    }
    if forall|r: Seq<char>| #[trigger] run.reactions.contains_key(r) ==> !run.reactions[r] {
        if c.len() > 0 {
            assert(run.reactions.contains_key(step_name(c[0])));
        }
    }
}

/// Whether a list has an item is whether one of its five parts has.
proof fn lemma_contains_one(
    a: Seq<RunStepView>,
    b: Seq<RunStepView>,
    c: Seq<RunStepView>,
    d: Seq<RunStepView>,
    e: Seq<RunStepView>,
    step: RunStepView,
)
    ensures
        (a + b + c + d + e).contains(step) <==> a.contains(step) || b.contains(step) || c.contains(
            step,
        ) || d.contains(step) || e.contains(step),
{
    lemma_contains_either(a, b, step);
    lemma_contains_either(a + b, c, step);
    lemma_contains_either(a + b + c, d, step);
    lemma_contains_either(a + b + c + d, e, step);
}

/// To reach a goal, a run takes the steps of that goal. To be deleted, it is first stopped
/// where it is running, and takes no step where it is not.
pub proof fn lemma_goals_take_their_steps(run: TestRunView)
    ensures
        goal_steps(run, RunGoal::Initialize) == initialize_steps(run),
        goal_steps(run, RunGoal::Start) == start_steps(run),
        goal_steps(run, RunGoal::Stop) == stop_steps(run),
        run.status is Running ==> goal_steps(run, RunGoal::Delete) == stop_steps(run),
        !(run.status is Running) ==> goal_steps(run, RunGoal::Delete).len() == 0,
{
}

/// A run that has reached its goal is running after a start, stopped after a stop and gone
/// after it was deleted; setting it up changes nothing of what the host keeps. Other runs, and
/// the components of the run, stay as they are.
pub proof fn lemma_goals_change_the_run(
    host: HostView,
    run: TestRunIdView,
    goal: RunGoal,
    other: TestRunIdView,
)
    requires
        host.test_runs.contains_key(run),
    ensures
        ({
            let next = changed(host, run, goal);
            &&& next.status == host.status
            &&& other != run ==> (next.test_runs.contains_key(other)
                <==> host.test_runs.contains_key(other))
            &&& other != run && host.test_runs.contains_key(other) ==> next.test_runs[other]
                == host.test_runs[other]
            &&& goal == RunGoal::Initialize ==> next == host
            &&& goal == RunGoal::Delete ==> !next.test_runs.contains_key(run)
            &&& goal == RunGoal::Start ==> next.test_runs.contains_key(run)
                && next.test_runs[run].status is Running
            &&& goal == RunGoal::Stop ==> next.test_runs.contains_key(run)
                && next.test_runs[run].status is Stopped
            &&& goal != RunGoal::Delete ==> forall|kind: ComponentKind| #[trigger]
                components_of(next.test_runs[run], kind) == components_of(
                    host.test_runs[run],
                    kind,
                )
        }),
{
}

/// A change has ended once every step was taken or one failed, with what the failed one said.
pub proof fn lemma_changes_end(progress: SequenceView)
    ensures
        progress.failure matches Some(message) ==> end_of(progress) == RunChangeEndView::Failed(
            message,
        ),
        progress.failure is None && progress.taken < progress.count ==> end_of(progress)
            is Unfinished,
        progress.failure is None && progress.taken >= progress.count ==> end_of(progress)
            is Changed,
{
}

/// The components of one kind are kept apart from those of the others.
pub proof fn lemma_kinds_are_kept_apart(
    run: TestRunView,
    kind: ComponentKind,
    other: ComponentKind,
    components: Map<Seq<char>, bool>,
)
    ensures
        components_of(run, ComponentKind::DrasiLibInstance) == run.drasi_lib_instances,
        components_of(run, ComponentKind::Query) == run.queries,
        components_of(run, ComponentKind::Reaction) == run.reactions,
        components_of(run, ComponentKind::Source) == run.sources,
        components_of(with_components(run, kind, components), kind) == components,
        other != kind ==> components_of(with_components(run, kind, components), other)
            == components_of(run, other),
        with_components(run, kind, components).status == run.status,
{
}

/// A component that is added is there, as it was added; every other component and every other
/// run stays as it is.
pub proof fn lemma_added_components_are_there(
    host: HostView,
    run: TestRunIdView,
    kind: ComponentKind,
    id: Seq<char>,
    starts_with_run: bool,
    other_run: TestRunIdView,
    other_kind: ComponentKind,
    other_id: Seq<char>,
)
    requires
        host.test_runs.contains_key(run),
    ensures
        ({
            let next = with_component(host, run, kind, id, starts_with_run);
            let there = components_of(next.test_runs[run], kind);
            let before = components_of(host.test_runs[run], other_kind);
            let after = components_of(next.test_runs[run], other_kind);
            &&& next.status == host.status
            &&& next.test_runs.contains_key(run)
            &&& next.test_runs[run].status == host.test_runs[run].status
            &&& there.contains_key(id) && there[id] == starts_with_run
            &&& other_kind != kind || other_id != id ==> (after.contains_key(other_id)
                <==> before.contains_key(other_id)) && (before.contains_key(other_id)
                ==> after[other_id] == before[other_id])
            &&& other_run != run ==> (next.test_runs.contains_key(other_run)
                <==> host.test_runs.contains_key(other_run))
            &&& other_run != run && host.test_runs.contains_key(other_run)
                ==> next.test_runs[other_run] == host.test_runs[other_run]
        }),
{
}

/// A component is refused exactly where the host is in error, the run is not there, or the run
/// has a component of that kind and name; in this order.
pub proof fn lemma_when_components_are_refused(
    host: HostView,
    run: TestRunIdView,
    kind: ComponentKind,
    id: Seq<char>,
)
    ensures
        ({
            let error = add_error(host, run, kind, id);
            let there = host.test_runs.contains_key(run);
            let known = there && components_of(host.test_runs[run], kind).contains_key(id);
            match host.status {
                TestRunHostStatus::Error(message) => error == Some(
                    HostErrorView::HostInError(message@),
                ),
                _ => {
                    &&& !there ==> error == Some(HostErrorView::RunNotFound)
                    &&& known ==> error == Some(HostErrorView::ComponentExists(kind, id))
                    &&& there && !known ==> error is None
                },
            }
        }),
{
}

/// Setting the status of a run changes nothing else.
pub proof fn lemma_statuses_are_set_alone(
    host: HostView,
    run: TestRunIdView,
    status: RunStatusView,
    other: TestRunIdView,
)
    requires
        host.test_runs.contains_key(run),
    ensures
        ({
            let next = with_status(host, run, status);
            &&& next.status == host.status
            &&& next.test_runs.contains_key(run)
            &&& next.test_runs[run].status == status
            &&& forall|kind: ComponentKind| #[trigger]
                components_of(next.test_runs[run], kind) == components_of(
                    host.test_runs[run],
                    kind,
                )
            &&& other != run ==> (next.test_runs.contains_key(other)
                <==> host.test_runs.contains_key(other))
            &&& other != run && host.test_runs.contains_key(other) ==> next.test_runs[other]
                == host.test_runs[other]
        }),
{
}

/// The components that are configured are those of the configurations, by name; each starts
/// with the run where its configuration says so.
pub proof fn lemma_configured_components(configs: Seq<TestRunComponentConfig>, id: Seq<char>)
    ensures
        configured(configs).contains_key(id) <==> exists|i: int|
            0 <= i < configs.len() && (#[trigger] configs[i]).component_id@ == id,
        forall|i: int|
            0 <= i < configs.len() && (#[trigger] configs[i]).component_id@ == id && (forall|
                j: int,
            |
                i < j < configs.len() ==> (#[trigger] configs[j]).component_id@ != id)
                ==> configured(configs)[id] == configs[i].starts_with_run,
{
    let entries = Seq::new(configs.len(), |i: int| component_entry(configs[i]));
    lemma_to_map(entries);
    if configured(configs).contains_key(id) {
        let i = choose|i: int|
            0 <= i < entries.len() && (#[trigger] entries[i]).0 == id && to_map(entries)[id]
                == entries[i].1 && (forall|j: int|
                i < j < entries.len() ==> (#[trigger] entries[j]).0 != id);
        assert(configs[i].component_id@ == id);
        assert forall|k: int|
            0 <= k < configs.len() && (#[trigger] configs[k]).component_id@ == id && (forall|
                j: int,
            |
                k < j < configs.len() ==> (#[trigger] configs[j]).component_id@
                    != id) implies configured(configs)[id] == configs[k].starts_with_run by {
            assert(entries[k].0 == id);
            assert(k == i);
        }
    }
    if exists|i: int| 0 <= i < configs.len() && (#[trigger] configs[i]).component_id@ == id {
        let i = choose|i: int|
            0 <= i < configs.len() && (#[trigger] configs[i]).component_id@ == id;
        assert(to_map(entries).contains_key(entries[i].0));
    }
}

/// A run that is added is running and has the components that are configured for it, each kind
/// as configured; it is told by its repository, its test and its own name.
pub proof fn lemma_runs_are_as_configured(config: TestRunConfig)
    ensures
        run_of(config).status is Running,
        run_of(config).drasi_lib_instances == configured(config.drasi_lib_instances@),
        run_of(config).queries == configured(config.queries@),
        run_of(config).reactions == configured(config.reactions@),
        run_of(config).sources == configured(config.sources@),
        run_id_of(config).test_repo_id == config.test_repo_id@,
        run_id_of(config).test_id == config.test_id@,
        run_id_of(config).test_run_id == config.test_run_id@,
{
}

/// A component takes over the run's repository, test and name, whatever it was configured
/// with, and keeps all else.
pub proof fn lemma_components_belong_to_their_run(config: ComponentConfigView, run: TestRunIdView)
    ensures
        within_run(config, run).test_repo_id == Some(run.test_repo_id),
        within_run(config, run).test_id == Some(run.test_id),
        within_run(config, run).test_run_id == Some(run.test_run_id),
        within_run(config, run).component_id == config.component_id,
        within_run(config, run).starts_with_run == config.starts_with_run,
        within_run(within_run(config, run), run) == within_run(config, run),
{
}

/// The components of a run are created kind by kind, each kind in its order: instances, then
/// queries, then reactions, then sources. Each is created once.
pub proof fn lemma_components_are_created_in_order(plan: TestRunPlan)
    ensures
        ({
            let order = creation_order(plan);
            let q = plan.drasi_lib_instances@.len() as int;
            let r = q + plan.queries@.len();
            let s = r + plan.reactions@.len();
            &&& order.len() == s + plan.sources@.len()
            &&& forall|i: int|
                0 <= i < q ==> #[trigger] order[i] == (
                    ComponentKind::DrasiLibInstance,
                    plan.drasi_lib_instances@[i]@,
                )
            &&& forall|i: int|
                q <= i < r ==> #[trigger] order[i] == (ComponentKind::Query, plan.queries@[i - q]@)
            &&& forall|i: int|
                r <= i < s ==> #[trigger] order[i] == (
                    ComponentKind::Reaction,
                    plan.reactions@[i - r]@,
                )
            &&& forall|i: int|
                s <= i < order.len() ==> #[trigger] order[i] == (
                    ComponentKind::Source,
                    plan.sources@[i - s]@,
                )
        }),
{
}

/// The components of one kind are listed run by run, those of a run by name: each that a run
/// has, and no other.
pub proof fn lemma_listed_components(
    runs: Seq<(TestRunIdView, TestRunView)>,
    kind: ComponentKind,
    run: TestRunIdView,
    id: Seq<char>,
)
    requires
        forall|i: int|
            0 <= i < runs.len() ==> listable::<String, bool>(
                components_of((#[trigger] runs[i]).1, kind),
            ),
    ensures
        component_ids(runs, kind).contains((run, id)) <==> exists|i: int|
            0 <= i < runs.len() && (#[trigger] runs[i]).0 == run && components_of(
                runs[i].1,
                kind,
            ).contains_key(id),
    decreases runs.len(),
{
    let all = component_ids(runs, kind);
    if runs.len() > 0 {
        let front = runs.drop_last();
        let n = runs.len() - 1;
        let some = component_ids(front, kind);
        let components = components_of(runs[n].1, kind);
        let list = listing::<String, bool>(components);
        let own = with_run(runs[n].0, list);
        assert(runs.last() == runs[n]);
        assert forall|i: int| 0 <= i < front.len() implies listable::<String, bool>(
            components_of((#[trigger] front[i]).1, kind),
        ) by {
            assert(front[i] == runs[i]);
        }
        lemma_listed_components(front, kind, run, id);
        lemma_to_map(list);
        if all.contains((run, id)) {
            let k = choose|k: int| 0 <= k < all.len() && all[k] == (run, id);
            if k < some.len() {
                assert(some[k] == (run, id));
                let i = choose|i: int|
                    0 <= i < front.len() && (#[trigger] front[i]).0 == run && components_of(
                        front[i].1,
                        kind,
                    ).contains_key(id);
                assert(runs[i] == front[i]);
            } else {
                let j = k - some.len();
                assert(own[j] == (run, id));
                assert(to_map(list).contains_key(list[j].0));
                assert(runs[n].0 == run);
            }
        }
        if exists|i: int|
            0 <= i < runs.len() && (#[trigger] runs[i]).0 == run && components_of(
                runs[i].1,
                kind,
            ).contains_key(id) {
            let i = choose|i: int|
                0 <= i < runs.len() && (#[trigger] runs[i]).0 == run && components_of(
                    runs[i].1,
                    kind,
                ).contains_key(id);
            if i < n {
                assert(front[i] == runs[i]);
                let k = choose|k: int| 0 <= k < some.len() && some[k] == (run, id);
                assert(all[k] == some[k]);
            } else {
                let j = choose|j: int|
                    0 <= j < list.len() && (#[trigger] list[j]).0 == id && to_map(list)[id]
                        == list[j].1 && (forall|l: int|
                        j < l < list.len() ==> (#[trigger] list[l]).0 != id);
                assert(own[j] == (run, id));
                assert(all[some.len() + j] == own[j]);
            }
        }
    }
}

/// The runs are listed one by one.
pub proof fn lemma_listed_runs(runs: Seq<(TestRunIdView, TestRunView)>)
    ensures
        run_ids(runs).len() == runs.len(),
        forall|i: int| 0 <= i < runs.len() ==> #[trigger] run_ids(runs)[i] == runs[i].0,
{
}

/// What is told of a source's status: that it started while it is at work in any way, and
/// otherwise what it came to.
pub proof fn lemma_what_is_told_of_sources(status: SourceChangeGeneratorStatus)
    ensures
        event_of(status) is Started <==> status.processing(),
        event_of(status) is Paused <==> status == SourceChangeGeneratorStatus::Paused,
        event_of(status) is Stopped <==> status == SourceChangeGeneratorStatus::Stopped,
        event_of(status) is Finished <==> status == SourceChangeGeneratorStatus::Finished,
        event_of(status) is Error <==> status == SourceChangeGeneratorStatus::Error,
{
}

/// The message of an error tells what is missing or is there already: the component by its kind
/// and name, the rest as it is shown.
pub proof fn lemma_messages_name_what_is_wrong(
    kind: ComponentKind,
    id: Seq<char>,
    shown: Seq<char>,
)
    ensures
        contains_text(host_message(HostErrorView::RunExists, shown), shown),
        contains_text(host_message(HostErrorView::RunNotFound, shown), shown),
        contains_text(host_message(HostErrorView::HostInError(id), shown), id),
        contains_text(host_message(HostErrorView::ComponentExists(kind, id), shown), id),
        contains_text(
            host_message(HostErrorView::ComponentExists(kind, id), shown),
            kind_name(kind),
        ),
        contains_text(host_message(HostErrorView::ComponentNotFound(kind), shown), shown),
        contains_text(host_message(HostErrorView::ComponentNotFound(kind), shown), kind_name(kind)),
{
    let none = Seq::<char>::empty();
    let exists = "TestRun already exists with ID: "@;
    lemma_parts_are_contained(exists, shown, none);
    assert(exists + shown + none =~= host_message(HostErrorView::RunExists, shown));
    let missing = "TestRun not found: "@;
    lemma_parts_are_contained(missing, shown, none);
    assert(missing + shown + none =~= host_message(HostErrorView::RunNotFound, shown));
    let broken = "TestRunHost is in an Error state: "@;
    lemma_parts_are_contained(broken, id, none);
    assert(broken + id + none =~= host_message(HostErrorView::HostInError(id), shown));
    let contains = "TestRun already contains "@;
    let with_id = " with ID: "@;
    let known = host_message(HostErrorView::ComponentExists(kind, id), shown);
    lemma_parts_are_contained(contains + kind_name(kind) + with_id, id, none);
    assert(contains + kind_name(kind) + with_id + id + none =~= known);
    lemma_parts_are_contained(contains, kind_name(kind), with_id + id);
    assert(contains + kind_name(kind) + (with_id + id) =~= known);
    let unknown = host_message(HostErrorView::ComponentNotFound(kind), shown);
    lemma_parts_are_contained(kind_name(kind) + " not found: "@, shown, none);
    assert(kind_name(kind) + " not found: "@ + shown + none =~= unknown);
    lemma_parts_are_contained(none, kind_name(kind), " not found: "@ + shown);
    assert(none + kind_name(kind) + (" not found: "@ + shown) =~= unknown);
}

/// The components of a run that is planned are the configured ones, one by one, each within the
/// run.
pub proof fn lemma_planned_components(configs: Seq<TestRunComponentConfig>, run: TestRunIdView)
    ensures
        all_within_run(configs, run).len() == configs.len(),
        forall|i: int|
            0 <= i < configs.len() ==> #[trigger] all_within_run(configs, run)[i] == within_run(
                configs[i]@,
                run,
            ),
{
}

/// The components of a run are known by their names; of two with one name the later counts.
pub proof fn lemma_components_are_known_by_name(components: Seq<(String, bool)>, id: Seq<char>)
    ensures
        by_name(components).contains_key(id) <==> exists|i: int|
            0 <= i < components.len() && (#[trigger] components[i]).0@ == id,
        forall|i: int|
            0 <= i < components.len() && (#[trigger] components[i]).0@ == id && (forall|j: int|
                i < j < components.len() ==> (#[trigger] components[j]).0@ != id) ==> by_name(
                components,
            )[id] == components[i].1,
{
    let entries = entry_views(components);
    lemma_to_map(entries);
    if by_name(components).contains_key(id) {
        let i = choose|i: int|
            0 <= i < entries.len() && (#[trigger] entries[i]).0 == id && to_map(entries)[id]
                == entries[i].1 && (forall|j: int|
                i < j < entries.len() ==> (#[trigger] entries[j]).0 != id);
        assert(components[i].0@ == id);
        assert forall|k: int|
            0 <= k < components.len() && (#[trigger] components[k]).0@ == id && (forall|j: int|
                k < j < components.len() ==> (#[trigger] components[j]).0@ != id) implies by_name(
            components,
        )[id] == components[k].1 by {
            assert(entries[k].0 == id);
            assert(k == i);
        }
    }
    if exists|i: int| 0 <= i < components.len() && (#[trigger] components[i]).0@ == id {
        let i = choose|i: int| 0 <= i < components.len() && (#[trigger] components[i]).0@ == id;
        assert(to_map(entries).contains_key(entries[i].0));
    }
}

/// Components are listed run by run, in the order of the runs: those of two lists of runs put
/// together are those of the first, followed by those of the second. Those of one run come by
/// name.
pub proof fn lemma_components_are_listed_by_run(
    a: Seq<(TestRunIdView, TestRunView)>,
    b: Seq<(TestRunIdView, TestRunView)>,
    run: (TestRunIdView, TestRunView),
    kind: ComponentKind,
)
    requires
        listable::<String, bool>(components_of(run.1, kind)),
    ensures
        component_ids(a + b, kind) == component_ids(a, kind) + component_ids(b, kind),
        forall|i: int, j: int|
            0 <= i < j < component_ids(seq![run], kind).len() ==> text_before(
                (#[trigger] component_ids(seq![run], kind)[i]).1,
                (#[trigger] component_ids(seq![run], kind)[j]).1,
            ),
    decreases b.len(),
{
    reveal_with_fuel(component_ids, 2);
    let list = listing::<String, bool>(components_of(run.1, kind));
    let own = component_ids(seq![run], kind);
    assert(seq![run].drop_last() =~= Seq::<(TestRunIdView, TestRunView)>::empty());
    assert(own =~= with_run(run.0, list));
    assert forall|i: int, j: int| 0 <= i < j < own.len() implies text_before(
        (#[trigger] own[i]).1,
        (#[trigger] own[j]).1,
    ) by {
        assert(own[i].1 == list[i].0 && own[j].1 == list[j].0);
        assert(<String as OrderedKey>::before(list[i].0, list[j].0));
    }
    if b.len() == 0 {
        assert(a + b =~= a);
        assert(component_ids(a, kind) + component_ids(b, kind) =~= component_ids(a, kind));
    } else {
        lemma_components_are_listed_by_run(a, b.drop_last(), run, kind);
        assert((a + b).drop_last() =~= a + b.drop_last());
        assert((a + b).last() == b.last());
        assert(component_ids(a + b, kind) =~= component_ids(a, kind) + component_ids(b, kind));
    }
}

} // verus!
