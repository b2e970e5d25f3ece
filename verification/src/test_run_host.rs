//! The test runs that a host holds: what can be added to them, in which order they start and
//! stop, and what their completion comes to.

use crate::ids::{
    TestRunDrasiLibInstanceId, TestRunId, TestRunIdView, TestRunQueryId, TestRunReactionId,
    TestRunSourceId, TestRunSourceIdView,
};
use crate::ordered::{entry_views, lemma_to_map, listable, listing, to_map, OrderedMap};
use crate::sequence::{
    after_outcome, after_outcomes, lemma_first_failure_stands, lemma_steps_are_taken_in_order,
    next_of, NextStep, NextStepView, Sequence, SequenceView,
};
use crate::sources::source_change_generators::SourceChangeGeneratorStatus;
use crate::text::{join, join_texts, option_text, str_equal, texts};
use vstd::prelude::*;
use vstd::string::*;

verus! {

/// A component of a test run, as its configuration names it.
#[derive(Clone, Debug)]
pub struct TestRunComponentConfig {
    pub component_id: String,
    pub test_id: Option<String>,
    pub test_repo_id: Option<String>,
    pub test_run_id: Option<String>,
    /// A source or reaction that starts with its test run.
    pub starts_with_run: bool,
}

/// What a component's configuration says.
pub struct ComponentConfigView {
    pub component_id: Seq<char>,
    pub test_id: Option<Seq<char>>,
    pub test_repo_id: Option<Seq<char>>,
    pub test_run_id: Option<Seq<char>>,
    pub starts_with_run: bool,
}

impl View for TestRunComponentConfig {
    type V = ComponentConfigView;

    open spec fn view(&self) -> ComponentConfigView {
        ComponentConfigView {
            component_id: self.component_id@,
            test_id: option_text(self.test_id),
            test_repo_id: option_text(self.test_repo_id),
            test_run_id: option_text(self.test_run_id),
            starts_with_run: self.starts_with_run,
        }
    }
}

/// A test run as it is configured.
#[derive(Clone, Debug)]
pub struct TestRunConfig {
    pub test_id: String,
    pub test_repo_id: String,
    pub test_run_id: String,
    pub drasi_lib_instances: Vec<TestRunComponentConfig>,
    pub queries: Vec<TestRunComponentConfig>,
    pub reactions: Vec<TestRunComponentConfig>,
    pub sources: Vec<TestRunComponentConfig>,
}

/// A host as it is configured.
#[derive(Clone, Debug)]
pub struct TestRunHostConfig {
    pub test_runs: Vec<TestRunConfig>,
}

impl Default for TestRunHostConfig {
    fn default() -> (r: TestRunHostConfig)
        ensures
            r.test_runs@.len() == 0,
    {
        TestRunHostConfig { test_runs: Vec::new() }
    }
}

/// The configuration of a component as part of a test run: it takes over the run's names.
pub open spec fn within_run(config: ComponentConfigView, run: TestRunIdView) -> ComponentConfigView {
    ComponentConfigView {
        test_id: Some(run.test_id),
        test_repo_id: Some(run.test_repo_id),
        test_run_id: Some(run.test_run_id),
        ..config
    }
}

/// Each configuration as part of a test run.
pub open spec fn all_within_run(configs: Seq<TestRunComponentConfig>, run: TestRunIdView) -> Seq<
    ComponentConfigView,
> {
    Seq::new(configs.len(), |i: int| within_run(configs[i]@, run))
}

/// The views of a list of configurations.
pub open spec fn config_views(configs: Seq<TestRunComponentConfig>) -> Seq<ComponentConfigView> {
    Seq::new(configs.len(), |i: int| configs[i]@)
}

impl TestRunComponentConfig {
    /// A copy.
    pub fn copy(&self) -> (r: TestRunComponentConfig)
        ensures
            r@ == self@,
    {
        TestRunComponentConfig {
            component_id: self.component_id.clone(),
            test_id: copy_option(&self.test_id),
            test_repo_id: copy_option(&self.test_repo_id),
            test_run_id: copy_option(&self.test_run_id),
            starts_with_run: self.starts_with_run,
        }
    }

    /// The configuration as part of a test run.
    pub fn within(&self, run: &TestRunId) -> (r: TestRunComponentConfig)
        ensures
            r@ == within_run(self@, run@),
    {
        TestRunComponentConfig {
            component_id: self.component_id.clone(),
            test_id: Some(run.test_id.clone()),
            test_repo_id: Some(run.test_repo_id.clone()),
            test_run_id: Some(run.test_run_id.clone()),
            starts_with_run: self.starts_with_run,
        }
    }
}

fn copy_option(text: &Option<String>) -> (r: Option<String>)
    ensures
        option_text(r) == option_text(*text),
{
    match text {
        Some(text) => Some(text.clone()),
        None => None,
    }
}

fn all_within(configs: &Vec<TestRunComponentConfig>, run: &TestRunId) -> (r: Vec<
    TestRunComponentConfig,
>)
    ensures
        config_views(r@) == all_within_run(configs@, run@),
{
    let mut r: Vec<TestRunComponentConfig> = Vec::new();
    let mut i: usize = 0;
    while i < configs.len()
        invariant
            0 <= i <= configs@.len(),
            r@.len() == i,
            forall|j: int| 0 <= j < i ==> (#[trigger] r@[j])@ == within_run(configs@[j]@, run@),
        decreases configs@.len() - i,
    {
        r.push(configs[i].within(run));
        i = i + 1;
    }
    assert(config_views(r@) =~= all_within_run(configs@, run@));
    r
}

/// What a test run is doing.
#[derive(Clone, Debug, PartialEq, Eq)]
pub enum TestRunStatus {
    Initialized,
    Running,
    Stopped,
    Error(String),
}

/// What a test run is doing, in the model.
pub enum RunStatusView {
    Initialized,
    Running,
    Stopped,
    Error(Seq<char>),
}

impl View for TestRunStatus {
    type V = RunStatusView;

    open spec fn view(&self) -> RunStatusView {
        match self {
            TestRunStatus::Initialized => RunStatusView::Initialized,
            TestRunStatus::Running => RunStatusView::Running,
            TestRunStatus::Stopped => RunStatusView::Stopped,
            TestRunStatus::Error(message) => RunStatusView::Error(message@),
        }
    }
}

impl TestRunStatus {
    /// A copy.
    pub fn copy(&self) -> (r: TestRunStatus)
        ensures
            r@ == self@,
    {
        match self {
            TestRunStatus::Initialized => TestRunStatus::Initialized,
            TestRunStatus::Running => TestRunStatus::Running,
            TestRunStatus::Stopped => TestRunStatus::Stopped,
            TestRunStatus::Error(message) => TestRunStatus::Error(message.clone()),
        }
    }
}

/// What a host is doing.
#[derive(Clone, Debug, PartialEq, Eq)]
pub enum TestRunHostStatus {
    /// It is ready to start.
    Initialized,
    /// It has been started.
    Running,
    /// It cannot process requests.
    Error(String),
}

impl TestRunHostStatus {
    /// The status as text.
    pub fn text(&self) -> (r: String)
        ensures
            r@ == (match *self {
                TestRunHostStatus::Initialized => "Initialized"@,
                TestRunHostStatus::Running => "Running"@,
                TestRunHostStatus::Error(message) => "Error: "@ + message@,
            }),
    {
        match self {
            TestRunHostStatus::Initialized => "Initialized".to_owned(),
            TestRunHostStatus::Running => "Running".to_owned(),
            TestRunHostStatus::Error(message) => {
                let mut text = "Error: ".to_owned();
                text.append(message.as_str());
                text
            },
        }
    }

    /// Starts a host that was set up.
    pub fn start(&mut self) -> (r: Result<(), String>)
        ensures
            match *old(self) {
                TestRunHostStatus::Initialized => r is Ok && *final(self)
                    == TestRunHostStatus::Running,
                TestRunHostStatus::Running => {
                    &&& *final(self) == *old(self)
                    &&& r is Err
                    &&& r->Err_0@ == "TestRunHost created with unexpected status: Running"@
                },
                TestRunHostStatus::Error(_) => {
                    &&& *final(self) == *old(self)
                    &&& r is Err
                    &&& r->Err_0@ == "TestRunHost is in an Error state, cannot Start."@
                },
            },
    {
        match self {
            TestRunHostStatus::Initialized => {
                *self = TestRunHostStatus::Running;
                Ok(())
            },
            TestRunHostStatus::Running => Err(
                "TestRunHost created with unexpected status: Running".to_owned(),
            ),
            TestRunHostStatus::Error(_) => Err(
                "TestRunHost is in an Error state, cannot Start.".to_owned(),
            ),
        }
    }
}

/// A kind of component.
#[derive(Clone, Copy, Debug, PartialEq, Eq, Structural)]
pub enum ComponentKind {
    DrasiLibInstance,
    Query,
    Reaction,
    Source,
}

/// The name of a kind of component.
pub open spec fn kind_name(kind: ComponentKind) -> Seq<char> {
    match kind {
        ComponentKind::DrasiLibInstance => "TestRunDrasiLibInstance"@,
        ComponentKind::Query => "TestRunQuery"@,
        ComponentKind::Reaction => "TestRunReaction"@,
        ComponentKind::Source => "TestRunSource"@,
    }
}

fn kind_text(kind: ComponentKind) -> (r: &'static str)
    ensures
        r@ == kind_name(kind),
{
    match kind {
        ComponentKind::DrasiLibInstance => "TestRunDrasiLibInstance",
        ComponentKind::Query => "TestRunQuery",
        ComponentKind::Reaction => "TestRunReaction",
        ComponentKind::Source => "TestRunSource",
    }
}

/// Why a host refuses a request.
#[derive(Debug)]
pub enum HostError {
    HostInError(String),
    RunExists,
    RunNotFound,
    ComponentExists(ComponentKind, String),
    ComponentNotFound(ComponentKind),
}

/// Why a host refuses a request, in the model.
pub enum HostErrorView {
    HostInError(Seq<char>),
    RunExists,
    RunNotFound,
    ComponentExists(ComponentKind, Seq<char>),
    ComponentNotFound(ComponentKind),
}

impl View for HostError {
    type V = HostErrorView;

    open spec fn view(&self) -> HostErrorView {
        match self {
            HostError::HostInError(message) => HostErrorView::HostInError(message@),
            HostError::RunExists => HostErrorView::RunExists,
            HostError::RunNotFound => HostErrorView::RunNotFound,
            HostError::ComponentExists(kind, id) => HostErrorView::ComponentExists(*kind, id@),
            HostError::ComponentNotFound(kind) => HostErrorView::ComponentNotFound(*kind),
        }
    }
}

/// The message of a refusal. `shown` is how the run or component asked for is shown.
pub open spec fn host_message(error: HostErrorView, shown: Seq<char>) -> Seq<char> {
    match error {
        HostErrorView::HostInError(message) => "TestRunHost is in an Error state: "@ + message,
        HostErrorView::RunExists => "TestRun already exists with ID: "@ + shown,
        HostErrorView::RunNotFound => "TestRun not found: "@ + shown,
        HostErrorView::ComponentExists(kind, id) => "TestRun already contains "@ + kind_name(kind)
            + " with ID: "@ + id,
        HostErrorView::ComponentNotFound(kind) => kind_name(kind) + " not found: "@ + shown,
    }
}

impl HostError {
    /// The message of the refusal.
    pub fn text(&self, shown: &str) -> (r: String)
        ensures
            r@ == host_message(self@, shown@),
    {
        match self {
            HostError::HostInError(message) => {
                let mut text = "TestRunHost is in an Error state: ".to_owned();
                text.append(message.as_str());
                text
            },
            HostError::RunExists => {
                let mut text = "TestRun already exists with ID: ".to_owned();
                text.append(shown);
                text
            },
            HostError::RunNotFound => {
                let mut text = "TestRun not found: ".to_owned();
                text.append(shown);
                text
            },
            HostError::ComponentExists(kind, id) => {
                let mut text = "TestRun already contains ".to_owned();
                text.append(kind_text(*kind));
                text.append(" with ID: ");
                text.append(id.as_str());
                text
            },
            HostError::ComponentNotFound(kind) => {
                let mut text = kind_text(*kind).to_owned();
                text.append(" not found: ");
                text.append(shown);
                text
            },
        }
    }
}

/// A test run: its status, and its components by name with whether they start with it. Of
/// two components of a kind with one name the later counts.
#[derive(Debug)]
pub struct TestRun {
    pub status: TestRunStatus,
    pub drasi_lib_instances: Vec<(String, bool)>,
    pub queries: Vec<(String, bool)>,
    pub reactions: Vec<(String, bool)>,
    pub sources: Vec<(String, bool)>,
}

/// What a test run says.
pub struct TestRunView {
    pub status: RunStatusView,
    pub drasi_lib_instances: Map<Seq<char>, bool>,
    pub queries: Map<Seq<char>, bool>,
    pub reactions: Map<Seq<char>, bool>,
    pub sources: Map<Seq<char>, bool>,
}

/// The components of a list by name.
pub open spec fn by_name(components: Seq<(String, bool)>) -> Map<Seq<char>, bool> {
    to_map(entry_views(components))
}

impl View for TestRun {
    type V = TestRunView;

    open spec fn view(&self) -> TestRunView {
        TestRunView {
            status: self.status@,
            drasi_lib_instances: by_name(self.drasi_lib_instances@),
            queries: by_name(self.queries@),
            reactions: by_name(self.reactions@),
            sources: by_name(self.sources@),
        }
    }
}

/// The components of a kind.
pub open spec fn components_of(run: TestRunView, kind: ComponentKind) -> Map<Seq<char>, bool> {
    match kind {
        ComponentKind::DrasiLibInstance => run.drasi_lib_instances,
        ComponentKind::Query => run.queries,
        ComponentKind::Reaction => run.reactions,
        ComponentKind::Source => run.sources,
    }
}

/// A run with other components of a kind.
pub open spec fn with_components(
    run: TestRunView,
    kind: ComponentKind,
    components: Map<Seq<char>, bool>,
) -> TestRunView {
    match kind {
        ComponentKind::DrasiLibInstance => TestRunView { drasi_lib_instances: components, ..run },
        ComponentKind::Query => TestRunView { queries: components, ..run },
        ComponentKind::Reaction => TestRunView { reactions: components, ..run },
        ComponentKind::Source => TestRunView { sources: components, ..run },
    }
}

/// A configured component under its name.
pub open spec fn component_entry(config: TestRunComponentConfig) -> (Seq<char>, bool) {
    (config.component_id@, config.starts_with_run)
}

/// The configured components by name; a later one replaces an earlier one of its name.
pub open spec fn configured(configs: Seq<TestRunComponentConfig>) -> Map<Seq<char>, bool> {
    to_map(Seq::new(configs.len(), |i: int| component_entry(configs[i])))
}

/// The components that a list of configurations names.
fn collect_components(configs: &Vec<TestRunComponentConfig>) -> (r: Vec<(String, bool)>)
    ensures
        by_name(r@) == configured(configs@),
{
    let mut r: Vec<(String, bool)> = Vec::new();
    let mut i: usize = 0;
    while i < configs.len()
        invariant
            0 <= i <= configs@.len(),
            r@.len() == i,
            forall|j: int|
                0 <= j < i ==> ((#[trigger] r@[j]).0@, r@[j].1) == component_entry(configs@[j]),
        decreases configs@.len() - i,
    {
        r.push((configs[i].component_id.clone(), configs[i].starts_with_run));
        i = i + 1;
    }
    assert(entry_views(r@) =~= Seq::new(configs@.len(), |i: int| component_entry(configs@[i])));
    r
}

/// Whether a list names a component.
fn names(components: &Vec<(String, bool)>, id: &str) -> (r: bool)
    ensures
        r == by_name(components@).contains_key(id@),
{
    let ghost views = entry_views(components@);
    let mut i: usize = 0;
    while i < components.len()
        invariant
            0 <= i <= components@.len(),
            views == entry_views(components@),
            forall|j: int| 0 <= j < i ==> (#[trigger] views[j]).0 != id@,
        decreases components@.len() - i,
    {
        if str_equal(components[i].0.as_str(), id) {
            proof {
                lemma_to_map(views);
                assert(views[i as int].0 == id@);
                assert(to_map(views).contains_key(views[i as int].0));
            }
            return true;
        }
        i = i + 1;
    }
    proof {
        lemma_to_map(views);
    }
    false
}

impl TestRun {
    /// The run that a configuration asks for, running.
    pub fn from_config(config: &TestRunConfig) -> (r: TestRun)
        ensures
            r@ == run_of(*config),
    {
        TestRun {
            status: TestRunStatus::Running,
            drasi_lib_instances: collect_components(&config.drasi_lib_instances),
            queries: collect_components(&config.queries),
            reactions: collect_components(&config.reactions),
            sources: collect_components(&config.sources),
        }
    }

    /// Whether the run has a component.
    pub fn has_component(&self, kind: ComponentKind, id: &str) -> (r: bool)
        ensures
            r == components_of(self@, kind).contains_key(id@),
    {
        match kind {
            ComponentKind::DrasiLibInstance => names(&self.drasi_lib_instances, id),
            ComponentKind::Query => names(&self.queries, id),
            ComponentKind::Reaction => names(&self.reactions, id),
            ComponentKind::Source => names(&self.sources, id),
        }
    }

    /// Takes a component out.
    fn remove_component(&mut self, kind: ComponentKind, id: &str)
        ensures
            final(self)@ == with_components(
                old(self)@,
                kind,
                components_of(old(self)@, kind).remove(id@),
            ),
    {
        match kind {
            ComponentKind::DrasiLibInstance => {
                self.drasi_lib_instances = without_named(&self.drasi_lib_instances, id);
            },
            ComponentKind::Query => {
                self.queries = without_named(&self.queries, id);
            },
            ComponentKind::Reaction => {
                self.reactions = without_named(&self.reactions, id);
            },
            ComponentKind::Source => {
                self.sources = without_named(&self.sources, id);
            },
        }
    }

    /// Sets a component.
    fn set_component(&mut self, kind: ComponentKind, id: String, starts_with_run: bool)
        ensures
            final(self)@ == with_components(
                old(self)@,
                kind,
                components_of(old(self)@, kind).insert(id@, starts_with_run),
            ),
    {
        match kind {
            ComponentKind::DrasiLibInstance => set_named(
                &mut self.drasi_lib_instances,
                id,
                starts_with_run,
            ),
            ComponentKind::Query => set_named(&mut self.queries, id, starts_with_run),
            ComponentKind::Reaction => set_named(&mut self.reactions, id, starts_with_run),
            ComponentKind::Source => set_named(&mut self.sources, id, starts_with_run),
        }
    }
}

/// The components of a list without one.
fn without_named(components: &Vec<(String, bool)>, id: &str) -> (r: Vec<(String, bool)>)
    ensures
        by_name(r@) == by_name(components@).remove(id@),
{
    let ghost views = entry_views(components@);
    let mut r: Vec<(String, bool)> = Vec::new();
    let mut i: usize = 0;
    proof {
        assert(views.take(0) =~= Seq::empty());
        assert(entry_views(r@) =~= Seq::empty());
        assert(Map::<Seq<char>, bool>::empty().remove(id@) =~= Map::<Seq<char>, bool>::empty());
    }
    while i < components.len()
        invariant
            0 <= i <= components@.len(),
            views == entry_views(components@),
            by_name(r@) == to_map(views.take(i as int)).remove(id@),
        decreases components@.len() - i,
    {
        let ghost so_far = to_map(views.take(i as int));
        let ghost entry = (components@[i as int].0@, components@[i as int].1);
        proof {
            assert(views.take(i + 1).drop_last() =~= views.take(i as int));
            assert(views.take(i + 1).last() == entry);
        }
        if str_equal(components[i].0.as_str(), id) {
            assert(so_far.insert(entry.0, entry.1).remove(id@) =~= so_far.remove(id@));
        } else {
            set_named(&mut r, components[i].0.clone(), components[i].1);
            assert(so_far.insert(entry.0, entry.1).remove(id@) =~= so_far.remove(id@).insert(
                entry.0,
                entry.1,
            ));
        }
        i = i + 1;
    }
    assert(views.take(views.len() as int) =~= views);
    r
}

/// Sets a component of a list.
fn set_named(components: &mut Vec<(String, bool)>, id: String, starts_with_run: bool)
    ensures
        by_name(final(components)@) == by_name(old(components)@).insert(id@, starts_with_run),
{
    let ghost before = entry_views(components@);
    let ghost entry = (id@, starts_with_run);
    components.push((id, starts_with_run));
    assert(entry_views(components@) =~= before.push(entry));
    assert(entry_views(components@).drop_last() =~= before);
}

/// The run that a configuration asks for, running.
pub open spec fn run_of(config: TestRunConfig) -> TestRunView {
    TestRunView {
        status: RunStatusView::Running,
        drasi_lib_instances: configured(config.drasi_lib_instances@),
        queries: configured(config.queries@),
        reactions: configured(config.reactions@),
        sources: configured(config.sources@),
    }
}

/// What a host is to do to start or stop a test run, one component at a time.
#[derive(Debug)]
pub enum RunStep {
    /// Start an instance, unless it was started before.
    StartInstance(String),
    StartSource(String),
    StartQuery(String),
    StartReaction(String),
    StopReaction(String),
    StopQuery(String),
    StopSource(String),
    /// Stop an instance, if it is running.
    StopInstance(String),
    /// Hand the host to a source.
    HandHostToSource(String),
    /// Hand the host to a reaction.
    HandHostToReaction(String),
    /// Give the handlers of reactions two seconds to listen.
    AwaitReactions,
}

/// A step in the model.
pub enum RunStepView {
    StartInstance(Seq<char>),
    StartSource(Seq<char>),
    StartQuery(Seq<char>),
    StartReaction(Seq<char>),
    StopReaction(Seq<char>),
    StopQuery(Seq<char>),
    StopSource(Seq<char>),
    StopInstance(Seq<char>),
    HandHostToSource(Seq<char>),
    HandHostToReaction(Seq<char>),
    AwaitReactions,
}

impl View for RunStep {
    type V = RunStepView;

    open spec fn view(&self) -> RunStepView {
        match self {
            RunStep::StartInstance(id) => RunStepView::StartInstance(id@),
            RunStep::StartSource(id) => RunStepView::StartSource(id@),
            RunStep::StartQuery(id) => RunStepView::StartQuery(id@),
            RunStep::StartReaction(id) => RunStepView::StartReaction(id@),
            RunStep::StopReaction(id) => RunStepView::StopReaction(id@),
            RunStep::StopQuery(id) => RunStepView::StopQuery(id@),
            RunStep::StopSource(id) => RunStepView::StopSource(id@),
            RunStep::StopInstance(id) => RunStepView::StopInstance(id@),
            RunStep::HandHostToSource(id) => RunStepView::HandHostToSource(id@),
            RunStep::HandHostToReaction(id) => RunStepView::HandHostToReaction(id@),
            RunStep::AwaitReactions => RunStepView::AwaitReactions,
        }
    }
}

/// The views of a list of steps.
pub open spec fn step_views(steps: Seq<RunStep>) -> Seq<RunStepView> {
    Seq::new(steps.len(), |i: int| steps[i]@)
}

/// What is done to components of a kind.
#[derive(Clone, Copy, Debug, PartialEq, Eq, Structural)]
pub enum RunAction {
    Start,
    Stop,
    HandHost,
}

/// A component takes part in an action. In starting, instances and queries always do, sources
/// and reactions where they are told to; in anything else, all do.
pub open spec fn is_included(action: RunAction, kind: ComponentKind, starts_with_run: bool) -> bool {
    action != RunAction::Start || kind == ComponentKind::DrasiLibInstance || kind
        == ComponentKind::Query || starts_with_run
}

/// The step for one component.
pub open spec fn step_of(action: RunAction, kind: ComponentKind, id: Seq<char>) -> RunStepView {
    match (action, kind) {
        (RunAction::Start, ComponentKind::DrasiLibInstance) => RunStepView::StartInstance(id),
        (RunAction::Start, ComponentKind::Source) => RunStepView::StartSource(id),
        (RunAction::Start, ComponentKind::Query) => RunStepView::StartQuery(id),
        (RunAction::Start, ComponentKind::Reaction) => RunStepView::StartReaction(id),
        (RunAction::Stop, ComponentKind::DrasiLibInstance) => RunStepView::StopInstance(id),
        (RunAction::Stop, ComponentKind::Source) => RunStepView::StopSource(id),
        (RunAction::Stop, ComponentKind::Query) => RunStepView::StopQuery(id),
        (RunAction::Stop, ComponentKind::Reaction) => RunStepView::StopReaction(id),
        (RunAction::HandHost, ComponentKind::Reaction) => RunStepView::HandHostToReaction(id),
        (RunAction::HandHost, _) => RunStepView::HandHostToSource(id),
    }
}

/// The steps for the components of a kind.
pub open spec fn steps_for(
    action: RunAction,
    kind: ComponentKind,
    components: Seq<(Seq<char>, bool)>,
) -> Seq<RunStepView>
    decreases components.len(),
{
    if components.len() == 0 {
        Seq::empty()
    } else {
        let front = steps_for(action, kind, components.drop_last());
        if is_included(action, kind, components.last().1) {
            front.push(step_of(action, kind, components.last().0))
        } else {
            front
        }
    }
}

/// The steps for the components of a kind of a run, in order of their names.
pub open spec fn kind_steps(action: RunAction, run: TestRunView, kind: ComponentKind) -> Seq<
    RunStepView,
> {
    steps_for(action, kind, listing::<String, bool>(components_of(run, kind)))
}

/// The steps that start a run: instances first, then sources, queries and reactions.
pub open spec fn start_steps(run: TestRunView) -> Seq<RunStepView> {
    kind_steps(RunAction::Start, run, ComponentKind::DrasiLibInstance) + kind_steps(
        RunAction::Start,
        run,
        ComponentKind::Source,
    ) + kind_steps(RunAction::Start, run, ComponentKind::Query) + kind_steps(
        RunAction::Start,
        run,
        ComponentKind::Reaction,
    )
}

/// The steps that stop a run: reactions first, then queries, sources and instances.
pub open spec fn stop_steps(run: TestRunView) -> Seq<RunStepView> {
    kind_steps(RunAction::Stop, run, ComponentKind::Reaction) + kind_steps(
        RunAction::Stop,
        run,
        ComponentKind::Query,
    ) + kind_steps(RunAction::Stop, run, ComponentKind::Source) + kind_steps(
        RunAction::Stop,
        run,
        ComponentKind::DrasiLibInstance,
    )
}

/// The steps that bring up the sources of a run: sources and reactions get the host, the
/// reactions that start with the run are started and given time to listen, and then the
/// sources that start with it are.
pub open spec fn initialize_steps(run: TestRunView) -> Seq<RunStepView> {
    let reactions = kind_steps(RunAction::Start, run, ComponentKind::Reaction);
    let wait = if reactions.len() > 0 {
        seq![RunStepView::AwaitReactions]
    } else {
        Seq::empty()
    };
    kind_steps(RunAction::HandHost, run, ComponentKind::Source) + kind_steps(
        RunAction::HandHost,
        run,
        ComponentKind::Reaction,
    ) + reactions + wait + kind_steps(RunAction::Start, run, ComponentKind::Source)
}

/// The step for one component.
fn make_step(action: RunAction, kind: ComponentKind, id: String) -> (r: RunStep)
    ensures
        r@ == step_of(action, kind, id@),
{
    match (action, kind) {
        (RunAction::Start, ComponentKind::DrasiLibInstance) => RunStep::StartInstance(id),
        (RunAction::Start, ComponentKind::Source) => RunStep::StartSource(id),
        (RunAction::Start, ComponentKind::Query) => RunStep::StartQuery(id),
        (RunAction::Start, ComponentKind::Reaction) => RunStep::StartReaction(id),
        (RunAction::Stop, ComponentKind::DrasiLibInstance) => RunStep::StopInstance(id),
        (RunAction::Stop, ComponentKind::Source) => RunStep::StopSource(id),
        (RunAction::Stop, ComponentKind::Query) => RunStep::StopQuery(id),
        (RunAction::Stop, ComponentKind::Reaction) => RunStep::StopReaction(id),
        (RunAction::HandHost, ComponentKind::Reaction) => RunStep::HandHostToReaction(id),
        (RunAction::HandHost, _) => RunStep::HandHostToSource(id),
    }
}

/// The components of a list in order of their names.
fn ordered_components(components: &Vec<(String, bool)>) -> (r: Vec<(String, bool)>)
    ensures
        entry_views(r@) == listing::<String, bool>(by_name(components@)),
{
    let ghost views = entry_views(components@);
    let mut map: OrderedMap<String, bool> = OrderedMap::new();
    let mut i: usize = 0;
    assert(views.take(0) =~= Seq::empty());
    while i < components.len()
        invariant
            0 <= i <= components@.len(),
            views == entry_views(components@),
            map.wf(),
            map@ == to_map(views.take(i as int)),
        decreases components@.len() - i,
    {
        proof {
            assert(views.take(i + 1).drop_last() =~= views.take(i as int));
            assert(views.take(i + 1).last() == (components@[i as int].0@, components@[i as int].1));
        }
        map.insert(components[i].0.clone(), components[i].1);
        i = i + 1;
    }
    assert(views.take(views.len() as int) =~= views);
    map.into_entries()
}

impl TestRun {
    /// Adds the steps for the components of a kind.
    fn add_steps(&self, action: RunAction, kind: ComponentKind, steps: &mut Vec<RunStep>)
        ensures
            step_views(final(steps)@) == step_views(old(steps)@) + kind_steps(action, self@, kind),
    {
        let components = match kind {
            ComponentKind::DrasiLibInstance => ordered_components(&self.drasi_lib_instances),
            ComponentKind::Query => ordered_components(&self.queries),
            ComponentKind::Reaction => ordered_components(&self.reactions),
            ComponentKind::Source => ordered_components(&self.sources),
        };
        let ghost list = entry_views(components@);
        let ghost start = step_views(steps@);
        let mut i: usize = 0;
        proof {
            assert(list.take(0) =~= Seq::empty());
            assert(start + Seq::<RunStepView>::empty() =~= start);
        }
        while i < components.len()
            invariant
                0 <= i <= components@.len(),
                list == entry_views(components@),
                step_views(steps@) == start + steps_for(action, kind, list.take(i as int)),
            decreases components@.len() - i,
        {
            let ghost so_far = steps_for(action, kind, list.take(i as int));
            proof {
                assert(list.take(i + 1).drop_last() =~= list.take(i as int));
                assert(list.take(i + 1).last() == (components@[i as int].0@, components@[i as int].1));
            }
            let included = match (action, kind) {
                (RunAction::Start, ComponentKind::Source) => components[i].1,
                (RunAction::Start, ComponentKind::Reaction) => components[i].1,
                _ => true,
            };
            if included {
                let ghost before = step_views(steps@);
                let step = make_step(action, kind, components[i].0.clone());
                let ghost added = step@;
                steps.push(step);
                proof {
                    assert(step_views(steps@) =~= before.push(added));
                    assert((start + so_far).push(added) =~= start + so_far.push(added));
                }
            }
            i = i + 1;
        }
        assert(list.take(list.len() as int) =~= list);
    }

    /// The steps that start the run.
    pub fn plan_start(&self) -> (r: Vec<RunStep>)
        ensures
            step_views(r@) == start_steps(self@),
    {
        let mut steps: Vec<RunStep> = Vec::new();
        let ghost first = kind_steps(RunAction::Start, self@, ComponentKind::DrasiLibInstance);
        assert(step_views(steps@) + first =~= first);
        self.add_steps(RunAction::Start, ComponentKind::DrasiLibInstance, &mut steps);
        self.add_steps(RunAction::Start, ComponentKind::Source, &mut steps);
        self.add_steps(RunAction::Start, ComponentKind::Query, &mut steps);
        self.add_steps(RunAction::Start, ComponentKind::Reaction, &mut steps);
        steps
    }

    /// The steps that bring up the sources of the run.
    pub fn plan_initialize(&self) -> (r: Vec<RunStep>)
        ensures
            step_views(r@) == initialize_steps(self@),
    {
        let mut steps: Vec<RunStep> = Vec::new();
        let ghost first = kind_steps(RunAction::HandHost, self@, ComponentKind::Source);
        assert(step_views(steps@) + first =~= first);
        self.add_steps(RunAction::HandHost, ComponentKind::Source, &mut steps);
        self.add_steps(RunAction::HandHost, ComponentKind::Reaction, &mut steps);
        let before: usize = steps.len();
        let ghost prefix = step_views(steps@);
        self.add_steps(RunAction::Start, ComponentKind::Reaction, &mut steps);
        let ghost reactions = kind_steps(RunAction::Start, self@, ComponentKind::Reaction);
        assert(step_views(steps@).len() == prefix.len() + reactions.len());
        let ghost so_far = step_views(steps@);
        if steps.len() > before {
            steps.push(RunStep::AwaitReactions);
            assert(step_views(steps@) =~= so_far + seq![RunStepView::AwaitReactions]);
        } else {
            assert(so_far =~= so_far + Seq::<RunStepView>::empty());
        }
        self.add_steps(RunAction::Start, ComponentKind::Source, &mut steps);
        steps
    }

    /// The steps that stop the run.
    pub fn plan_stop(&self) -> (r: Vec<RunStep>)
        ensures
            step_views(r@) == stop_steps(self@),
    {
        let mut steps: Vec<RunStep> = Vec::new();
        let ghost first = kind_steps(RunAction::Stop, self@, ComponentKind::Reaction);
        assert(step_views(steps@) + first =~= first);
        self.add_steps(RunAction::Stop, ComponentKind::Reaction, &mut steps);
        self.add_steps(RunAction::Stop, ComponentKind::Query, &mut steps);
        self.add_steps(RunAction::Stop, ComponentKind::Source, &mut steps);
        self.add_steps(RunAction::Stop, ComponentKind::DrasiLibInstance, &mut steps);
        steps
    }
}

/// The names of test runs.
pub open spec fn run_ids(runs: Seq<(TestRunIdView, TestRunView)>) -> Seq<TestRunIdView> {
    Seq::new(runs.len(), |i: int| runs[i].0)
}

/// The views of a list of names.
pub open spec fn id_views(ids: Seq<TestRunId>) -> Seq<TestRunIdView> {
    Seq::new(ids.len(), |i: int| ids[i]@)
}

/// The names of components with the name of their run.
pub open spec fn with_run(run: TestRunIdView, components: Seq<(Seq<char>, bool)>) -> Seq<
    (TestRunIdView, Seq<char>),
> {
    Seq::new(components.len(), |i: int| (run, components[i].0))
}

/// The components of a kind of a list of runs, with the names of their runs.
pub open spec fn component_ids(runs: Seq<(TestRunIdView, TestRunView)>, kind: ComponentKind) -> Seq<
    (TestRunIdView, Seq<char>),
>
    decreases runs.len(),
{
    if runs.len() == 0 {
        Seq::empty()
    } else {
        component_ids(runs.drop_last(), kind) + with_run(
            runs.last().0,
            listing::<String, bool>(components_of(runs.last().1, kind)),
        )
    }
}

impl TestRun {
    /// Adds the names of the components of a kind.
    fn add_ids(&self, run: &TestRunId, kind: ComponentKind, ids: &mut Vec<(TestRunId, String)>)
        ensures
            entry_views(final(ids)@) == entry_views(old(ids)@) + with_run(
                run@,
                listing::<String, bool>(components_of(self@, kind)),
            ),
    {
        let components = match kind {
            ComponentKind::DrasiLibInstance => ordered_components(&self.drasi_lib_instances),
            ComponentKind::Query => ordered_components(&self.queries),
            ComponentKind::Reaction => ordered_components(&self.reactions),
            ComponentKind::Source => ordered_components(&self.sources),
        };
        let ghost list = with_run(run@, entry_views(components@));
        let ghost start = entry_views(ids@);
        let mut i: usize = 0;
        assert(start + list.take(0) =~= start);
        while i < components.len()
            invariant
                0 <= i <= components@.len(),
                list == with_run(run@, entry_views(components@)),
                entry_views(ids@) == start + list.take(i as int),
            decreases components@.len() - i,
        {
            let ghost before = entry_views(ids@);
            ids.push((run.copy(), components[i].0.clone()));
            proof {
                assert(entry_views(ids@) =~= before.push(list[i as int]));
                assert((start + list.take(i as int)).push(list[i as int]) =~= start + list.take(i + 1));
            }
            i = i + 1;
        }
        assert(list.take(list.len() as int) =~= list);
    }
}

/// The test runs of a host, and what the host is doing.
#[derive(Debug)]
pub struct TestRunHost {
    test_runs: OrderedMap<TestRunId, TestRun>,
    status: TestRunHostStatus,
}

/// What a host holds.
pub struct HostView {
    pub test_runs: Map<TestRunIdView, TestRunView>,
    pub status: TestRunHostStatus,
}

impl View for TestRunHost {
    type V = HostView;

    closed spec fn view(&self) -> HostView {
        HostView { test_runs: self.test_runs@, status: self.status }
    }
}

/// The name of a configured run.
pub open spec fn run_id_of(config: TestRunConfig) -> TestRunIdView {
    TestRunIdView {
        test_repo_id: config.test_repo_id@,
        test_id: config.test_id@,
        test_run_id: config.test_run_id@,
    }
}

/// A run that is to be added: its name, and the configurations of its components as parts of
/// it.
#[derive(Debug)]
pub struct TestRunPlan {
    pub id: TestRunId,
    pub drasi_lib_instances: Vec<TestRunComponentConfig>,
    pub queries: Vec<TestRunComponentConfig>,
    pub reactions: Vec<TestRunComponentConfig>,
    pub sources: Vec<TestRunComponentConfig>,
}

/// The configurations of components of one kind, with the kind.
pub open spec fn of_kind(kind: ComponentKind, configs: Seq<ComponentConfigView>) -> Seq<
    (ComponentKind, ComponentConfigView),
> {
    Seq::new(configs.len(), |i: int| (kind, configs[i]))
}

/// The components of a run in the order in which they are created: instances, which the others
/// need, then queries, reactions and sources.
pub open spec fn creation_order(plan: TestRunPlan) -> Seq<(ComponentKind, ComponentConfigView)> {
    of_kind(ComponentKind::DrasiLibInstance, config_views(plan.drasi_lib_instances@)) + of_kind(
        ComponentKind::Query,
        config_views(plan.queries@),
    ) + of_kind(ComponentKind::Reaction, config_views(plan.reactions@)) + of_kind(
        ComponentKind::Source,
        config_views(plan.sources@),
    )
}

/// The views of a list of components with their kinds.
pub open spec fn kind_views(list: Seq<(ComponentKind, TestRunComponentConfig)>) -> Seq<
    (ComponentKind, ComponentConfigView),
> {
    Seq::new(list.len(), |i: int| (list[i].0, list[i].1@))
}

/// Appends the components of one kind.
fn append_kind(
    list: &mut Vec<(ComponentKind, TestRunComponentConfig)>,
    kind: ComponentKind,
    configs: &Vec<TestRunComponentConfig>,
)
    ensures
        kind_views(final(list)@) == kind_views(old(list)@) + of_kind(kind, config_views(configs@)),
{
    let ghost before = kind_views(list@);
    let mut i: usize = 0;
    assert(before + of_kind(kind, config_views(configs@)).take(0) =~= before);
    while i < configs.len()
        invariant
            0 <= i <= configs@.len(),
            kind_views(list@) == before + of_kind(kind, config_views(configs@)).take(i as int),
        decreases configs@.len() - i,
    {
        let ghost seen = list@;
        let ghost all = of_kind(kind, config_views(configs@));
        list.push((kind, configs[i].copy()));
        proof {
            assert(all.take(i + 1) =~= all.take(i as int).push(all[i as int]));
            assert(kind_views(list@) =~= kind_views(seen).push(all[i as int]));
            assert(before + all.take(i + 1) =~= (before + all.take(i as int)).push(all[i as int]));
        }
        i = i + 1;
    }
    let ghost all = of_kind(kind, config_views(configs@));
    assert(all.take(all.len() as int) =~= all);
}

impl TestRunPlan {
    /// The components in the order in which they are created, one after another up to the first
    /// that cannot be.
    pub fn steps(&self) -> (r: Vec<(ComponentKind, TestRunComponentConfig)>)
        ensures
            kind_views(r@) == creation_order(*self),
    {
        let mut r: Vec<(ComponentKind, TestRunComponentConfig)> = Vec::new();
        append_kind(&mut r, ComponentKind::DrasiLibInstance, &self.drasi_lib_instances);
        append_kind(&mut r, ComponentKind::Query, &self.queries);
        append_kind(&mut r, ComponentKind::Reaction, &self.reactions);
        append_kind(&mut r, ComponentKind::Source, &self.sources);
        assert(kind_views(r@) =~= creation_order(*self));
        r
    }
}

/// A host after a component was added to a test run.
pub open spec fn with_component(
    host: HostView,
    run: TestRunIdView,
    kind: ComponentKind,
    id: Seq<char>,
    starts_with_run: bool,
) -> HostView {
    let components = components_of(host.test_runs[run], kind).insert(id, starts_with_run);
    HostView {
        test_runs: host.test_runs.insert(
            run,
            with_components(host.test_runs[run], kind, components),
        ),
        ..host
    }
}

/// Why a component cannot be added to a run, if it cannot.
pub open spec fn add_error(host: HostView, run: TestRunIdView, kind: ComponentKind, id: Seq<char>) -> Option<
    HostErrorView,
> {
    match host.status {
        TestRunHostStatus::Error(message) => Some(HostErrorView::HostInError(message@)),
        _ => if !host.test_runs.contains_key(run) {
            Some(HostErrorView::RunNotFound)
        } else if components_of(host.test_runs[run], kind).contains_key(id) {
            Some(HostErrorView::ComponentExists(kind, id))
        } else {
            None
        },
    }
}

/// A host with another status of a run.
pub open spec fn with_status(host: HostView, run: TestRunIdView, status: RunStatusView) -> HostView {
    HostView {
        test_runs: host.test_runs.insert(run, TestRunView { status, ..host.test_runs[run] }),
        ..host
    }
}

/// What a test run is to come to.
#[derive(Clone, Copy, Debug, PartialEq, Eq, Structural)]
pub enum RunGoal {
    /// Its components have the host, and those that start with the run are started.
    Initialize,
    Start,
    Stop,
    Delete,
}

/// The steps towards a goal. A run that is running is stopped before it is deleted.
pub open spec fn goal_steps(run: TestRunView, goal: RunGoal) -> Seq<RunStepView> {
    match goal {
        RunGoal::Initialize => initialize_steps(run),
        RunGoal::Start => start_steps(run),
        RunGoal::Stop => stop_steps(run),
        RunGoal::Delete => if run.status is Running {
            stop_steps(run)
        } else {
            Seq::empty()
        },
    }
}

/// The host once every step towards a goal has succeeded.
pub open spec fn changed(host: HostView, run: TestRunIdView, goal: RunGoal) -> HostView {
    match goal {
        RunGoal::Initialize => host,
        RunGoal::Start => with_status(host, run, RunStatusView::Running),
        RunGoal::Stop => with_status(host, run, RunStatusView::Stopped),
        RunGoal::Delete => HostView { test_runs: host.test_runs.remove(run), ..host },
    }
}

/// A change of a test run: its steps, and how far they have got.
#[derive(Debug)]
pub struct RunChange {
    goal: RunGoal,
    steps: Vec<RunStep>,
    progress: Sequence,
}

/// A change of a test run, in the model.
pub struct RunChangeView {
    pub goal: RunGoal,
    pub steps: Seq<RunStepView>,
    pub progress: SequenceView,
}

impl View for RunChange {
    type V = RunChangeView;

    closed spec fn view(&self) -> RunChangeView {
        RunChangeView {
            goal: self.goal,
            steps: step_views(self.steps@),
            progress: self.progress@,
        }
    }
}

impl RunChange {
    /// There are outcomes for at most as many steps as there are.
    pub closed spec fn wf(self) -> bool {
        self@.progress.count == self@.steps.len()
    }

    /// The step that is to be taken next, where one is left and none has failed.
    pub fn next_step(&self) -> (r: Option<&RunStep>)
        requires
            self.wf(),
        ensures
            match r {
                Some(step) => next_of(self@.progress) == NextStepView::Take(self@.progress.taken)
                    && self@.progress.taken < self@.steps.len() && step@
                    == self@.steps[self@.progress.taken as int],
                None => !(next_of(self@.progress) is Take),
            },
    {
        match self.progress.next() {
            NextStep::Take(index) => {
                assert(self@.steps.len() == self.steps@.len());
                Some(&self.steps[index])
            },
            _ => None,
        }
    }

    /// Takes the outcome of the step that came next.
    pub fn record(&mut self, outcome: Result<(), String>)
        requires
            old(self).wf(),
        ensures
            final(self).wf(),
            final(self)@ == (RunChangeView {
                progress: after_outcome(old(self)@.progress, outcome),
                ..old(self)@
            }),
    {
        self.progress.record(outcome);
    }
}

/// How a change ends.
#[derive(Debug)]
pub enum RunChangeEnd {
    /// Every step succeeded.
    Changed,
    /// A step failed with that message.
    Failed(String),
    /// Some step is left to be taken.
    Unfinished,
}

/// How a change ends, in the model.
pub enum RunChangeEndView {
    Changed,
    Failed(Seq<char>),
    Unfinished,
}

impl View for RunChangeEnd {
    type V = RunChangeEndView;

    open spec fn view(&self) -> RunChangeEndView {
        match self {
            RunChangeEnd::Changed => RunChangeEndView::Changed,
            RunChangeEnd::Failed(message) => RunChangeEndView::Failed(message@),
            RunChangeEnd::Unfinished => RunChangeEndView::Unfinished,
        }
    }
}

/// How a change ends after what its steps came to.
pub open spec fn end_of(progress: SequenceView) -> RunChangeEndView {
    match next_of(progress) {
        NextStepView::Take(_) => RunChangeEndView::Unfinished,
        NextStepView::Done => RunChangeEndView::Changed,
        NextStepView::Failed(message) => RunChangeEndView::Failed(message),
    }
}

/// What an embedded instance is doing.
#[derive(Clone, Copy, Debug, PartialEq, Eq, Structural)]
pub enum InstanceState {
    /// It was never started.
    Uninitialized,
    Running,
    /// Anything else.
    Other,
}

impl RunStep {
    /// The embedded instance whose state decides whether the step is to be taken.
    pub fn instance(&self) -> (r: Option<&String>)
        ensures
            match r {
                Some(id) => self@ == RunStepView::StartInstance(id@) || self@
                    == RunStepView::StopInstance(id@),
                None => !(self@ is StartInstance) && !(self@ is StopInstance),
            },
    {
        match self {
            RunStep::StartInstance(id) => Some(id),
            RunStep::StopInstance(id) => Some(id),
            _ => None,
        }
    }

    /// Whether the step is to be taken, given the state of the instance that it is about: one
    /// is started only where it never was, and stopped only where it is running.
    pub fn is_due(&self, instance: InstanceState) -> (r: bool)
        ensures
            r == (match self@ {
                RunStepView::StartInstance(_) => instance == InstanceState::Uninitialized,
                RunStepView::StopInstance(_) => instance == InstanceState::Running,
                _ => true,
            }),
    {
        match self {
            RunStep::StartInstance(_) => instance == InstanceState::Uninitialized,
            RunStep::StopInstance(_) => instance == InstanceState::Running,
            _ => true,
        }
    }
}

/// A change of which no step was taken.
pub open spec fn is_fresh(change: RunChangeView) -> bool {
    change.progress == (SequenceView { count: change.steps.len(), taken: 0, failure: None })
}

/// A change ends with the message of the first step that fails.
pub proof fn lemma_failed_steps_fail_the_change(
    change: RunChangeView,
    outcomes: Seq<Result<(), String>>,
    k: int,
)
    requires
        is_fresh(change),
        0 <= k < outcomes.len(),
        k < change.steps.len(),
        outcomes[k] is Err,
        forall|i: int| 0 <= i < k ==> (#[trigger] outcomes[i]) is Ok,
    ensures
        end_of(after_outcomes(change.progress, outcomes)) == RunChangeEndView::Failed(
            outcomes[k]->Err_0@,
        ),
{
    lemma_first_failure_stands(change.progress, outcomes, k);
}

/// A change is complete once all of its steps have succeeded, and not before.
pub proof fn lemma_runs_change_with_their_last_step(
    change: RunChangeView,
    outcomes: Seq<Result<(), String>>,
)
    requires
        is_fresh(change),
        outcomes.len() <= change.steps.len(),
        forall|i: int| 0 <= i < outcomes.len() ==> (#[trigger] outcomes[i]) is Ok,
    ensures
        end_of(after_outcomes(change.progress, outcomes)) is Changed <==> outcomes.len()
            == change.steps.len(),
{
    lemma_steps_are_taken_in_order(change.progress, outcomes);
}

impl TestRunHost {
    /// The test runs are well formed.
    pub closed spec fn wf(self) -> bool {
        self.test_runs.wf()
    }

    /// A host without test runs, ready to start.
    pub fn new() -> (r: TestRunHost)
        ensures
            r.wf(),
            r@.test_runs == Map::<TestRunIdView, TestRunView>::empty(),
            r@.status == TestRunHostStatus::Initialized,
    {
        TestRunHost { test_runs: OrderedMap::new(), status: TestRunHostStatus::Initialized }
    }

    /// Starts the host.
    pub fn start(&mut self) -> (r: Result<(), String>)
        requires
            old(self).wf(),
        ensures
            final(self).wf(),
            final(self)@.test_runs == old(self)@.test_runs,
            r is Ok == (old(self)@.status == TestRunHostStatus::Initialized),
            final(self)@.status == (if old(self)@.status == TestRunHostStatus::Initialized {
                TestRunHostStatus::Running
            } else {
                old(self)@.status
            }),
            r matches Err(error) ==> error@ == (if old(self)@.status == TestRunHostStatus::Running {
                "TestRunHost created with unexpected status: Running"@
            } else {
                "TestRunHost is in an Error state, cannot Start."@
            }),
    {
        self.status.start()
    }

    /// What the host is doing.
    pub fn get_status(&self) -> (r: &TestRunHostStatus)
        ensures
            *r == self@.status,
    {
        &self.status
    }

    /// Sets what the host is doing.
    pub fn set_status(&mut self, status: TestRunHostStatus)
        requires
            old(self).wf(),
        ensures
            final(self).wf(),
            final(self)@ == (HostView { status, ..old(self)@ }),
    {
        self.status = status;
    }

    /// Begins to add a test run: its name must be new.
    pub fn begin_test_run(&self, config: &TestRunConfig) -> (r: Result<TestRunPlan, HostError>)
        requires
            self.wf(),
        ensures
            match r {
                Ok(plan) => {
                    &&& !self@.test_runs.contains_key(run_id_of(*config))
                    &&& plan.id@ == run_id_of(*config)
                    &&& config_views(plan.drasi_lib_instances@) == all_within_run(
                        config.drasi_lib_instances@,
                        plan.id@,
                    )
                    &&& config_views(plan.queries@) == all_within_run(config.queries@, plan.id@)
                    &&& config_views(plan.reactions@) == all_within_run(config.reactions@, plan.id@)
                    &&& config_views(plan.sources@) == all_within_run(config.sources@, plan.id@)
                },
                Err(error) => self@.test_runs.contains_key(run_id_of(*config)) && error@
                    == HostErrorView::RunExists,
            },
    {
        let id = TestRunId::new(
            config.test_repo_id.as_str(),
            config.test_id.as_str(),
            config.test_run_id.as_str(),
        );
        if self.test_runs.contains_key(&id) {
            return Err(HostError::RunExists);
        }
        Ok(
            TestRunPlan {
                drasi_lib_instances: all_within(&config.drasi_lib_instances, &id),
                queries: all_within(&config.queries, &id),
                reactions: all_within(&config.reactions, &id),
                sources: all_within(&config.sources, &id),
                id,
            },
        )
    }

    /// Adds a test run whose components were created.
    pub fn add_test_run(&mut self, config: &TestRunConfig) -> (r: Result<TestRunId, HostError>)
        requires
            old(self).wf(),
        ensures
            final(self).wf(),
            match r {
                Ok(id) => {
                    &&& !old(self)@.test_runs.contains_key(run_id_of(*config))
                    &&& id@ == run_id_of(*config)
                    &&& final(self)@ == (HostView {
                        test_runs: old(self)@.test_runs.insert(id@, run_of(*config)),
                        ..old(self)@
                    })
                },
                Err(error) => {
                    &&& old(self)@.test_runs.contains_key(run_id_of(*config))
                    &&& error@ == HostErrorView::RunExists
                    &&& final(self)@ == old(self)@
                },
            },
    {
        let id = TestRunId::new(
            config.test_repo_id.as_str(),
            config.test_id.as_str(),
            config.test_run_id.as_str(),
        );
        if self.test_runs.contains_key(&id) {
            return Err(HostError::RunExists);
        }
        self.test_runs.insert(id.copy(), TestRun::from_config(config));
        Ok(id)
    }

    /// Checks whether a component can be added to a test run.
    pub fn check_component(&self, run: &TestRunId, kind: ComponentKind, id: &str) -> (r: Result<
        (),
        HostError,
    >)
        requires
            self.wf(),
        ensures
            match r {
                Ok(_) => add_error(self@, run@, kind, id@) is None,
                Err(error) => add_error(self@, run@, kind, id@) == Some(error@),
            },
    {
        match &self.status {
            TestRunHostStatus::Error(message) => {
                return Err(HostError::HostInError(message.clone()));
            },
            _ => {},
        }
        match self.test_runs.get(run) {
            Some(test_run) => if test_run.has_component(kind, id) {
                Err(HostError::ComponentExists(kind, id.to_owned()))
            } else {
                Ok(())
            },
            None => Err(HostError::RunNotFound),
        }
    }

    /// Adds a component to a test run.
    pub fn add_component(
        &mut self,
        run: &TestRunId,
        kind: ComponentKind,
        id: &str,
        starts_with_run: bool,
    ) -> (r: Result<(), HostError>)
        requires
            old(self).wf(),
        ensures
            final(self).wf(),
            match r {
                Ok(_) => add_error(old(self)@, run@, kind, id@) is None && final(self)@
                    == with_component(old(self)@, run@, kind, id@, starts_with_run),
                Err(error) => add_error(old(self)@, run@, kind, id@) == Some(error@)
                    && final(self)@ == old(self)@,
            },
    {
        match self.check_component(run, kind, id) {
            Ok(_) => {},
            Err(error) => {
                return Err(error);
            },
        }
        let ghost before = self@.test_runs;
        match self.test_runs.remove(run) {
            Some(test_run) => {
                let mut test_run = test_run;
                test_run.set_component(kind, id.to_owned(), starts_with_run);
                let ghost view = test_run@;
                self.test_runs.insert(run.copy(), test_run);
                assert(before.remove(run@).insert(run@, view) =~= before.insert(run@, view));
            },
            None => {},
        }
        Ok(())
    }

    /// Adds a query to a test run.
    pub fn add_test_query(&mut self, run: &TestRunId, config: &TestRunComponentConfig) -> (r: Result<
        TestRunQueryId,
        HostError,
    >)
        requires
            old(self).wf(),
        ensures
            final(self).wf(),
            match r {
                Ok(id) => {
                    &&& add_error(
                        old(self)@,
                        run@,
                        ComponentKind::Query,
                        config.component_id@,
                    ) is None
                    &&& id.test_run_id@ == run@ && id.test_query_id@ == config.component_id@
                    &&& final(self)@ == with_component(
                        old(self)@,
                        run@,
                        ComponentKind::Query,
                        config.component_id@,
                        config.starts_with_run,
                    )
                },
                Err(error) => add_error(
                    old(self)@,
                    run@,
                    ComponentKind::Query,
                    config.component_id@,
                ) == Some(error@) && final(self)@ == old(self)@,
            },
    {
        let id = config.component_id.as_str();
        match self.add_component(run, ComponentKind::Query, id, config.starts_with_run) {
            Ok(_) => Ok(TestRunQueryId::new(run, id)),
            Err(error) => Err(error),
        }
    }

    /// Adds a reaction to a test run.
    pub fn add_test_reaction(&mut self, run: &TestRunId, config: &TestRunComponentConfig) -> (r: Result<
        TestRunReactionId,
        HostError,
    >)
        requires
            old(self).wf(),
        ensures
            final(self).wf(),
            match r {
                Ok(id) => {
                    &&& add_error(
                        old(self)@,
                        run@,
                        ComponentKind::Reaction,
                        config.component_id@,
                    ) is None
                    &&& id.test_run_id@ == run@ && id.test_reaction_id@ == config.component_id@
                    &&& final(self)@ == with_component(
                        old(self)@,
                        run@,
                        ComponentKind::Reaction,
                        config.component_id@,
                        config.starts_with_run,
                    )
                },
                Err(error) => add_error(
                    old(self)@,
                    run@,
                    ComponentKind::Reaction,
                    config.component_id@,
                ) == Some(error@) && final(self)@ == old(self)@,
            },
    {
        let id = config.component_id.as_str();
        match self.add_component(run, ComponentKind::Reaction, id, config.starts_with_run) {
            Ok(_) => Ok(TestRunReactionId::new(run, id)),
            Err(error) => Err(error),
        }
    }

    /// Adds a source to a test run.
    pub fn add_test_source(&mut self, run: &TestRunId, config: &TestRunComponentConfig) -> (r: Result<
        TestRunSourceId,
        HostError,
    >)
        requires
            old(self).wf(),
        ensures
            final(self).wf(),
            match r {
                Ok(id) => {
                    &&& add_error(
                        old(self)@,
                        run@,
                        ComponentKind::Source,
                        config.component_id@,
                    ) is None
                    &&& id@ == (TestRunSourceIdView {
                        test_run_id: run@,
                        test_source_id: config.component_id@,
                    })
                    &&& final(self)@ == with_component(
                        old(self)@,
                        run@,
                        ComponentKind::Source,
                        config.component_id@,
                        config.starts_with_run,
                    )
                },
                Err(error) => add_error(
                    old(self)@,
                    run@,
                    ComponentKind::Source,
                    config.component_id@,
                ) == Some(error@) && final(self)@ == old(self)@,
            },
    {
        let id = config.component_id.as_str();
        match self.add_component(run, ComponentKind::Source, id, config.starts_with_run) {
            Ok(_) => Ok(TestRunSourceId::new(run, id)),
            Err(error) => Err(error),
        }
    }

    /// Adds an embedded instance to a test run.
    pub fn add_test_drasi_lib_instance(&mut self, run: &TestRunId, config: &TestRunComponentConfig) -> (r: Result<
        TestRunDrasiLibInstanceId,
        HostError,
    >)
        requires
            old(self).wf(),
        ensures
            final(self).wf(),
            match r {
                Ok(id) => {
                    &&& add_error(
                        old(self)@,
                        run@,
                        ComponentKind::DrasiLibInstance,
                        config.component_id@,
                    ) is None
                    &&& id.test_run_id@ == run@ && id.test_drasi_lib_instance_id@ == config.component_id@
                    &&& final(self)@ == with_component(
                        old(self)@,
                        run@,
                        ComponentKind::DrasiLibInstance,
                        config.component_id@,
                        config.starts_with_run,
                    )
                },
                Err(error) => add_error(
                    old(self)@,
                    run@,
                    ComponentKind::DrasiLibInstance,
                    config.component_id@,
                ) == Some(error@) && final(self)@ == old(self)@,
            },
    {
        let id = config.component_id.as_str();
        match self.add_component(run, ComponentKind::DrasiLibInstance, id, config.starts_with_run) {
            Ok(_) => Ok(TestRunDrasiLibInstanceId::new(run, id)),
            Err(error) => Err(error),
        }
    }

    /// Whether a source is there.
    pub fn contains_test_source(&self, id: &TestRunSourceId) -> (r: bool)
        requires
            self.wf(),
        ensures
            r == (self@.test_runs.contains_key(id@.test_run_id)
                && self@.test_runs[id@.test_run_id].sources.contains_key(id@.test_source_id)),
    {
        self.contains_component(
            &id.test_run_id,
            ComponentKind::Source,
            id.test_source_id.as_str(),
        )
    }

    /// Whether a component is there.
    pub fn contains_component(&self, run: &TestRunId, kind: ComponentKind, id: &str) -> (r: bool)
        requires
            self.wf(),
        ensures
            r == (self@.test_runs.contains_key(run@) && components_of(
                self@.test_runs[run@],
                kind,
            ).contains_key(id@)),
    {
        match self.test_runs.get(run) {
            Some(test_run) => test_run.has_component(kind, id),
            None => false,
        }
    }

    /// Checks that a component is there to be asked or told something.
    pub fn find_component(&self, run: &TestRunId, kind: ComponentKind, id: &str) -> (r: Result<
        (),
        HostError,
    >)
        requires
            self.wf(),
        ensures
            match r {
                Ok(_) => self@.test_runs.contains_key(run@) && components_of(
                    self@.test_runs[run@],
                    kind,
                ).contains_key(id@),
                Err(error) => if self@.test_runs.contains_key(run@) {
                    error@ == HostErrorView::ComponentNotFound(kind) && !components_of(
                        self@.test_runs[run@],
                        kind,
                    ).contains_key(id@)
                } else {
                    error@ == HostErrorView::RunNotFound
                },
            },
    {
        match self.test_runs.get(run) {
            Some(test_run) => if test_run.has_component(kind, id) {
                Ok(())
            } else {
                Err(HostError::ComponentNotFound(kind))
            },
            None => Err(HostError::RunNotFound),
        }
    }

    /// What a test run is doing.
    pub fn get_test_run_status(&self, run: &TestRunId) -> (r: Result<TestRunStatus, HostError>)
        requires
            self.wf(),
        ensures
            match r {
                Ok(status) => self@.test_runs.contains_key(run@) && status@
                    == self@.test_runs[run@].status,
                Err(error) => !self@.test_runs.contains_key(run@) && error@
                    == HostErrorView::RunNotFound,
            },
    {
        match self.test_runs.get(run) {
            Some(test_run) => Ok(test_run.status.copy()),
            None => Err(HostError::RunNotFound),
        }
    }

    /// The steps that start a test run.
    pub fn start_test_run(&self, run: &TestRunId) -> (r: Result<Vec<RunStep>, HostError>)
        requires
            self.wf(),
        ensures
            match r {
                Ok(steps) => self@.test_runs.contains_key(run@) && step_views(steps@) == start_steps(
                    self@.test_runs[run@],
                ),
                Err(error) => !self@.test_runs.contains_key(run@) && error@
                    == HostErrorView::RunNotFound,
            },
    {
        match self.test_runs.get(run) {
            Some(test_run) => Ok(test_run.plan_start()),
            None => Err(HostError::RunNotFound),
        }
    }

    /// The steps that bring up the sources of a test run.
    pub fn initialize_sources(&self, run: &TestRunId) -> (r: Result<Vec<RunStep>, HostError>)
        requires
            self.wf(),
        ensures
            match r {
                Ok(steps) => self@.test_runs.contains_key(run@) && step_views(steps@)
                    == initialize_steps(self@.test_runs[run@]),
                Err(error) => !self@.test_runs.contains_key(run@) && error@
                    == HostErrorView::RunNotFound,
            },
    {
        match self.test_runs.get(run) {
            Some(test_run) => Ok(test_run.plan_initialize()),
            None => Err(HostError::RunNotFound),
        }
    }

    /// Takes a component out of a test run.
    pub fn remove_component(&mut self, run: &TestRunId, kind: ComponentKind, id: &str) -> (r: Result<
        (),
        HostError,
    >)
        requires
            old(self).wf(),
        ensures
            final(self).wf(),
            match r {
                Ok(_) => {
                    let old_run = old(self)@.test_runs[run@];
                    &&& old(self)@.test_runs.contains_key(run@)
                    &&& components_of(old_run, kind).contains_key(id@)
                    &&& final(self)@ == (HostView {
                        test_runs: old(self)@.test_runs.insert(
                            run@,
                            with_components(old_run, kind, components_of(old_run, kind).remove(id@)),
                        ),
                        ..old(self)@
                    })
                },
                Err(error) => final(self)@ == old(self)@ && if old(self)@.test_runs.contains_key(run@) {
                    error@ == HostErrorView::ComponentNotFound(kind) && !components_of(
                        old(self)@.test_runs[run@],
                        kind,
                    ).contains_key(id@)
                } else {
                    error@ == HostErrorView::RunNotFound
                },
            },
    {
        match self.find_component(run, kind, id) {
            Ok(_) => {},
            Err(error) => {
                return Err(error);
            },
        }
        let ghost before = self@.test_runs;
        match self.test_runs.remove(run) {
            Some(test_run) => {
                let mut test_run = test_run;
                test_run.remove_component(kind, id);
                let ghost view = test_run@;
                self.test_runs.insert(run.copy(), test_run);
                assert(before.remove(run@).insert(run@, view) =~= before.insert(run@, view));
            },
            None => {},
        }
        Ok(())
    }

    /// The test runs, in order of their names.
    pub fn get_test_run_ids(&self) -> (r: Vec<TestRunId>)
        requires
            self.wf(),
        ensures
            id_views(r@) == run_ids(listing::<TestRunId, TestRunView>(self@.test_runs)),
    {
        let entries = self.test_runs.entries();
        let ghost list = entry_views(entries@);
        let mut r: Vec<TestRunId> = Vec::new();
        let mut i: usize = 0;
        while i < entries.len()
            invariant
                0 <= i <= entries@.len(),
                list == entry_views(entries@),
                r@.len() == i,
                forall|j: int| 0 <= j < i ==> (#[trigger] r@[j])@ == list[j].0,
            decreases entries@.len() - i,
        {
            r.push(entries[i].0.copy());
            i = i + 1;
        }
        assert(id_views(r@) =~= run_ids(list));
        r
    }

    /// The components of a kind with their test runs, in order of their names.
    pub fn get_component_ids(&self, kind: ComponentKind) -> (r: Vec<(TestRunId, String)>)
        requires
            self.wf(),
        ensures
            entry_views(r@) == component_ids(
                listing::<TestRunId, TestRunView>(self@.test_runs),
                kind,
            ),
    {
        let entries = self.test_runs.entries();
        let ghost list = entry_views(entries@);
        let mut r: Vec<(TestRunId, String)> = Vec::new();
        let mut i: usize = 0;
        proof {
            assert(list.take(0) =~= Seq::empty());
            assert(entry_views(r@) =~= Seq::empty());
        }
        while i < entries.len()
            invariant
                0 <= i <= entries@.len(),
                list == entry_views(entries@),
                entry_views(r@) == component_ids(list.take(i as int), kind),
            decreases entries@.len() - i,
        {
            proof {
                assert(list.take(i + 1).drop_last() =~= list.take(i as int));
                assert(list.take(i + 1).last() == (entries@[i as int].0@, entries@[i as int].1@));
            }
            entries[i].1.add_ids(&entries[i].0, kind, &mut r);
            i = i + 1;
        }
        assert(list.take(list.len() as int) =~= list);
        r
    }

    /// The queries of all test runs, in order of their names.
    pub fn get_test_query_ids(&self) -> (r: Vec<(TestRunId, String)>)
        requires
            self.wf(),
        ensures
            entry_views(r@) == component_ids(
                listing::<TestRunId, TestRunView>(self@.test_runs),
                ComponentKind::Query,
            ),
    {
        self.get_component_ids(ComponentKind::Query)
    }

    /// The reactions of all test runs, in order of their names.
    pub fn get_test_reaction_ids(&self) -> (r: Vec<(TestRunId, String)>)
        requires
            self.wf(),
        ensures
            entry_views(r@) == component_ids(
                listing::<TestRunId, TestRunView>(self@.test_runs),
                ComponentKind::Reaction,
            ),
    {
        self.get_component_ids(ComponentKind::Reaction)
    }

    /// The sources of all test runs, in order of their names.
    pub fn get_test_source_ids(&self) -> (r: Vec<(TestRunId, String)>)
        requires
            self.wf(),
        ensures
            entry_views(r@) == component_ids(
                listing::<TestRunId, TestRunView>(self@.test_runs),
                ComponentKind::Source,
            ),
    {
        self.get_component_ids(ComponentKind::Source)
    }

    /// The embedded instances of all test runs, in order of their names.
    pub fn get_test_drasi_lib_instance_ids(&self) -> (r: Vec<(TestRunId, String)>)
        requires
            self.wf(),
        ensures
            entry_views(r@) == component_ids(
                listing::<TestRunId, TestRunView>(self@.test_runs),
                ComponentKind::DrasiLibInstance,
            ),
    {
        self.get_component_ids(ComponentKind::DrasiLibInstance)
    }

    /// Removes an embedded instance from its test run.
    pub fn remove_test_drasi_lib_instance(&mut self, id: &TestRunDrasiLibInstanceId) -> (r: Result<
        (),
        HostError,
    >)
        requires
            old(self).wf(),
        ensures
            final(self).wf(),
            ({
                let run = id.test_run_id@;
                let old_run = old(self)@.test_runs[run];
                let instances = old_run.drasi_lib_instances;
                match r {
                    Ok(_) => {
                        &&& old(self)@.test_runs.contains_key(run)
                        &&& instances.contains_key(id.test_drasi_lib_instance_id@)
                        &&& final(self)@ == (HostView {
                            test_runs: old(self)@.test_runs.insert(
                                run,
                                TestRunView {
                                    drasi_lib_instances: instances.remove(
                                        id.test_drasi_lib_instance_id@,
                                    ),
                                    ..old_run
                                },
                            ),
                            ..old(self)@
                        })
                    },
                    Err(error) => final(self)@ == old(self)@ && if old(self)@.test_runs.contains_key(
                        run,
                    ) {
                        error@ == HostErrorView::ComponentNotFound(ComponentKind::DrasiLibInstance)
                            && !instances.contains_key(id.test_drasi_lib_instance_id@)
                    } else {
                        error@ == HostErrorView::RunNotFound
                    },
                }
            }),
    {
        self.remove_component(
            &id.test_run_id,
            ComponentKind::DrasiLibInstance,
            id.test_drasi_lib_instance_id.as_str(),
        )
    }

    /// The steps that stop a test run.
    pub fn stop_test_run(&self, run: &TestRunId) -> (r: Result<Vec<RunStep>, HostError>)
        requires
            self.wf(),
        ensures
            match r {
                Ok(steps) => self@.test_runs.contains_key(run@) && step_views(steps@) == stop_steps(
                    self@.test_runs[run@],
                ),
                Err(error) => !self@.test_runs.contains_key(run@) && error@
                    == HostErrorView::RunNotFound,
            },
    {
        match self.test_runs.get(run) {
            Some(test_run) => Ok(test_run.plan_stop()),
            None => Err(HostError::RunNotFound),
        }
    }

    /// Notes what a test run is doing.
    pub fn set_test_run_status(&mut self, run: &TestRunId, status: TestRunStatus) -> (r: Result<
        (),
        HostError,
    >)
        requires
            old(self).wf(),
        ensures
            final(self).wf(),
            match r {
                Ok(_) => old(self)@.test_runs.contains_key(run@) && final(self)@ == with_status(
                    old(self)@,
                    run@,
                    status@,
                ),
                Err(error) => !old(self)@.test_runs.contains_key(run@) && error@
                    == HostErrorView::RunNotFound && final(self)@ == old(self)@,
            },
    {
        let ghost before = self@.test_runs;
        match self.test_runs.remove(run) {
            Some(test_run) => {
                let mut test_run = test_run;
                test_run.status = status;
                let ghost view = test_run@;
                self.test_runs.insert(run.copy(), test_run);
                assert(before.remove(run@).insert(run@, view) =~= before.insert(run@, view));
                Ok(())
            },
            None => {
                assert(before.remove(run@) =~= before);
                Err(HostError::RunNotFound)
            },
        }
    }

    /// Takes up a change of a test run.
    pub fn begin_change(&self, run: &TestRunId, goal: RunGoal) -> (r: Result<RunChange, HostError>)
        requires
            self.wf(),
        ensures
            match r {
                Ok(change) => {
                    &&& change.wf()
                    &&& self@.test_runs.contains_key(run@)
                    &&& change@.goal == goal
                    &&& change@.steps == goal_steps(self@.test_runs[run@], goal)
                    &&& is_fresh(change@)
                },
                Err(error) => !self@.test_runs.contains_key(run@) && error@
                    == HostErrorView::RunNotFound,
            },
    {
        match self.test_runs.get(run) {
            Some(test_run) => {
                let steps = match goal {
                    RunGoal::Initialize => test_run.plan_initialize(),
                    RunGoal::Start => test_run.plan_start(),
                    RunGoal::Stop => test_run.plan_stop(),
                    RunGoal::Delete => if matches!(test_run.status, TestRunStatus::Running) {
                        test_run.plan_stop()
                    } else {
                        let none: Vec<RunStep> = Vec::new();
                        assert(step_views(none@) =~= Seq::<RunStepView>::empty());
                        none
                    },
                };
                assert(steps@.len() == step_views(steps@).len());
                let progress = Sequence::new(steps.len());
                Ok(RunChange { goal, steps, progress })
            },
            None => Err(HostError::RunNotFound),
        }
    }

    /// Ends a change of a test run. Only where every step succeeded has the run changed; where
    /// one failed, its message is given.
    pub fn end_change(&mut self, run: &TestRunId, change: &RunChange) -> (r: Result<
        RunChangeEnd,
        HostError,
    >)
        requires
            old(self).wf(),
        ensures
            final(self).wf(),
            match r {
                Ok(end) => {
                    &&& end@ == end_of(change@.progress)
                    &&& end@ is Changed ==> old(self)@.test_runs.contains_key(run@) || change@.goal
                        == RunGoal::Initialize
                    &&& final(self)@ == if end@ is Changed {
                        changed(old(self)@, run@, change@.goal)
                    } else {
                        old(self)@
                    }
                },
                Err(error) => {
                    &&& end_of(change@.progress) is Changed
                    &&& change@.goal != RunGoal::Initialize
                    &&& !old(self)@.test_runs.contains_key(run@)
                    &&& error@ == HostErrorView::RunNotFound
                    &&& final(self)@ == old(self)@
                },
            },
    {
        match change.progress.next() {
            NextStep::Take(_) => {
                return Ok(RunChangeEnd::Unfinished);
            },
            NextStep::Failed(message) => {
                return Ok(RunChangeEnd::Failed(message));
            },
            NextStep::Done => {},
        }
        let ghost before = self@.test_runs;
        let outcome = match change.goal {
            RunGoal::Initialize => Ok(()),
            RunGoal::Start => self.set_test_run_status(run, TestRunStatus::Running),
            RunGoal::Stop => self.set_test_run_status(run, TestRunStatus::Stopped),
            RunGoal::Delete => {
                let outcome = self.delete_test_run(run);
                assert(!before.contains_key(run@) ==> before.remove(run@) =~= before);
                outcome
            },
        };
        match outcome {
            Ok(_) => Ok(RunChangeEnd::Changed),
            Err(error) => Err(error),
        }
    }

    /// Deletes a test run.
    pub fn delete_test_run(&mut self, run: &TestRunId) -> (r: Result<(), HostError>)
        requires
            old(self).wf(),
        ensures
            final(self).wf(),
            final(self)@ == (HostView {
                test_runs: old(self)@.test_runs.remove(run@),
                ..old(self)@
            }),
            match r {
                Ok(_) => old(self)@.test_runs.contains_key(run@),
                Err(error) => !old(self)@.test_runs.contains_key(run@) && error@
                    == HostErrorView::RunNotFound,
            },
    {
        match self.test_runs.remove(run) {
            Some(_) => Ok(()),
            None => Err(HostError::RunNotFound),
        }
    }
}

/// What a source's generator status means to those who wait for the run to complete.
#[derive(Debug)]
pub enum SourceEvent {
    Started,
    Paused,
    Stopped,
    Finished,
    /// With the message of the error.
    Error(String),
}

/// What a source's generator status means, in the model.
pub enum SourceEventView {
    Started,
    Paused,
    Stopped,
    Finished,
    Error(Seq<char>),
}

impl View for SourceEvent {
    type V = SourceEventView;

    open spec fn view(&self) -> SourceEventView {
        match self {
            SourceEvent::Started => SourceEventView::Started,
            SourceEvent::Paused => SourceEventView::Paused,
            SourceEvent::Stopped => SourceEventView::Stopped,
            SourceEvent::Finished => SourceEventView::Finished,
            SourceEvent::Error(message) => SourceEventView::Error(message@),
        }
    }
}

/// What a source's generator status means.
pub open spec fn event_of(status: SourceChangeGeneratorStatus) -> SourceEventView {
    match status {
        SourceChangeGeneratorStatus::Running => SourceEventView::Started,
        SourceChangeGeneratorStatus::Skipping => SourceEventView::Started,
        SourceChangeGeneratorStatus::Stepping => SourceEventView::Started,
        SourceChangeGeneratorStatus::Paused => SourceEventView::Paused,
        SourceChangeGeneratorStatus::Stopped => SourceEventView::Stopped,
        SourceChangeGeneratorStatus::Finished => SourceEventView::Finished,
        SourceChangeGeneratorStatus::Error => SourceEventView::Error(
            "source change generator entered Error state"@,
        ),
    }
}

impl View for SourceChangeGeneratorStatus {
    type V = SourceChangeGeneratorStatus;

    open spec fn view(&self) -> SourceChangeGeneratorStatus {
        *self
    }
}

/// The status that each source was last seen in.
#[derive(Debug)]
pub struct SourceStatusTracker {
    last: OrderedMap<String, SourceChangeGeneratorStatus>,
}

impl View for SourceStatusTracker {
    type V = Map<Seq<char>, SourceChangeGeneratorStatus>;

    closed spec fn view(&self) -> Map<Seq<char>, SourceChangeGeneratorStatus> {
        self.last@
    }
}

impl SourceStatusTracker {
    /// The statuses are well formed.
    pub closed spec fn wf(self) -> bool {
        self.last.wf()
    }

    /// No source was seen yet.
    pub fn new() -> (r: SourceStatusTracker)
        ensures
            r.wf(),
            r@ == Map::<Seq<char>, SourceChangeGeneratorStatus>::empty(),
    {
        SourceStatusTracker { last: OrderedMap::new() }
    }

    /// Takes the status that a source is in, and says what it means where it has changed.
    pub fn observe(&mut self, source_id: &str, status: SourceChangeGeneratorStatus) -> (r: Option<
        SourceEvent,
    >)
        requires
            old(self).wf(),
        ensures
            final(self).wf(),
            final(self)@ == old(self)@.insert(source_id@, status),
            match r {
                Some(event) => event@ == event_of(status) && !(old(self)@.contains_key(source_id@)
                    && old(self)@[source_id@] == status),
                None => old(self)@.contains_key(source_id@) && old(self)@[source_id@] == status,
            },
    {
        let key = source_id.to_owned();
        match self.last.get(&key) {
            Some(last) => {
                if *last == status {
                    assert(self@.insert(source_id@, status) =~= self@);
                    return None;
                }
            },
            None => {},
        }
        self.last.insert(key, status);
        Some(
            match status {
                SourceChangeGeneratorStatus::Running => SourceEvent::Started,
                SourceChangeGeneratorStatus::Skipping => SourceEvent::Started,
                SourceChangeGeneratorStatus::Stepping => SourceEvent::Started,
                SourceChangeGeneratorStatus::Paused => SourceEvent::Paused,
                SourceChangeGeneratorStatus::Stopped => SourceEvent::Stopped,
                SourceChangeGeneratorStatus::Finished => SourceEvent::Finished,
                SourceChangeGeneratorStatus::Error => SourceEvent::Error(
                    "source change generator entered Error state".to_owned(),
                ),
            },
        )
    }
}

/// Whether the completion of a run is to be waited for: some handler of it was defined, and
/// some handler could be created.
pub fn needs_monitoring(defined: usize, created: usize) -> (r: bool)
    ensures
        r == (defined > 0 && created > 0),
{
    defined > 0 && created > 0
}

/// The status that the errors of completion handlers lead to: none where there are no errors,
/// otherwise an error with all of their messages.
pub fn completion_status(errors: &Vec<String>) -> (r: Option<TestRunStatus>)
    ensures
        match r {
            Some(status) => errors@.len() > 0 && status@ == RunStatusView::Error(
                join(texts(errors@), "; "@),
            ),
            None => errors@.len() == 0,
        },
{
    if errors.len() == 0 {
        None
    } else {
        Some(TestRunStatus::Error(join_texts(errors, "; ")))
    }
}

/// A run that was added is there as configured, and cannot be added again.
pub proof fn lemma_added_run_is_there(host: HostView, config: TestRunConfig)
    requires
        !host.test_runs.contains_key(run_id_of(config)),
    ensures
        ({
            let id = run_id_of(config);
            let next = HostView { test_runs: host.test_runs.insert(id, run_of(config)), ..host };
            &&& next.test_runs.contains_key(id)
            &&& next.test_runs[id] == run_of(config)
            &&& next.test_runs.remove(id) == host.test_runs
        }),
{
    let id = run_id_of(config);
    assert(host.test_runs.insert(id, run_of(config)).remove(id) =~= host.test_runs);
}

/// A component that was added cannot be added again.
pub proof fn lemma_components_are_added_once(
    host: HostView,
    run: TestRunIdView,
    kind: ComponentKind,
    id: Seq<char>,
    starts_with_run: bool,
)
    requires
        add_error(host, run, kind, id) is None,
    ensures
        add_error(with_component(host, run, kind, id, starts_with_run), run, kind, id) == Some(
            HostErrorView::ComponentExists(kind, id),
        ),
{
}

/// Every component that has steps of its kind to be taken has its own among them.
proof fn lemma_steps_cover(
    action: RunAction,
    kind: ComponentKind,
    components: Seq<(Seq<char>, bool)>,
    i: int,
)
    requires
        0 <= i < components.len(),
        is_included(action, kind, components[i].1),
    ensures
        steps_for(action, kind, components).contains(step_of(action, kind, components[i].0)),
    decreases components.len(),
{
    let all = steps_for(action, kind, components);
    let front = components.drop_last();
    let before = steps_for(action, kind, front);
    let step = step_of(action, kind, components[i].0);
    if i < front.len() {
        lemma_steps_cover(action, kind, front, i);
        let k = choose|k: int| 0 <= k < before.len() && before[k] == step;
        assert(all[k] == step);
    } else {
        assert(all[all.len() - 1] == step);
    }
}

/// Stopping a run stops every one of its components.
pub proof fn lemma_stopping_reaches_every_component(
    run: TestRunView,
    kind: ComponentKind,
    id: Seq<char>,
)
    requires
        components_of(run, kind).contains_key(id),
        listable::<String, bool>(components_of(run, kind)),
    ensures
        stop_steps(run).contains(step_of(RunAction::Stop, kind, id)),
{
    let list = listing::<String, bool>(components_of(run, kind));
    lemma_to_map(list);
    let i = choose|i: int| 0 <= i < list.len() && (#[trigger] list[i]).0 == id;
    lemma_steps_cover(RunAction::Stop, kind, list, i);
    let step = step_of(RunAction::Stop, kind, id);
    let own = kind_steps(RunAction::Stop, run, kind);
    let k = choose|k: int| 0 <= k < own.len() && own[k] == step;
    let a = kind_steps(RunAction::Stop, run, ComponentKind::Reaction);
    let b = kind_steps(RunAction::Stop, run, ComponentKind::Query);
    let c = kind_steps(RunAction::Stop, run, ComponentKind::Source);
    let all = stop_steps(run);
    match kind {
        ComponentKind::Reaction => {
            assert(all[k] == step);
        },
        ComponentKind::Query => {
            assert(all[a.len() + k] == step);
        },
        ComponentKind::Source => {
            assert(all[a.len() + b.len() + k] == step);
        },
        ComponentKind::DrasiLibInstance => {
            assert(all[a.len() + b.len() + c.len() + k] == step);
        },
    }
}

} // verus!
