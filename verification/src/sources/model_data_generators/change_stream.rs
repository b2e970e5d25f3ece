//! The change stream of a model: which commands it takes in which status, what becomes of
//! each scheduled change, and when the next one is due.
//!
//! Dispatching, waiting, sampling and the model itself lie outside. Each function here takes
//! what came of them and says what to do next.

use crate::json::{Json, JsonView};
use crate::scripts::{
    event_views, ChangeEventView, SourceChangeEvent, SourceChangeEventPayload,
    SourceChangeEventSourceInfo,
};
use crate::sources::source_change_generators::SourceChangeGeneratorStatus;
use crate::test_repo_storage::models::{signed_bits, to_signed_bits, SpacingMode, TimeMode};
use crate::text::{copy_texts, decimal, texts, u64_text};
use vstd::prelude::*;
use vstd::string::*;

verus! {

/// A command to a generator.
#[derive(Clone, Copy, Debug)]
pub enum GeneratorCommand {
    /// Report the state.
    GetState,
    Pause,
    Reset,
    /// Go past so many changes without dispatching them.
    Skip { skips: u64, spacing_mode: Option<SpacingMode> },
    Start,
    /// Dispatch so many changes, then pause.
    Step { steps: u64, spacing_mode: Option<SpacingMode> },
    Stop,
    /// Hand the test run host to the dispatchers.
    SetTestRunHost,
}

/// Why a command is refused.
#[derive(Clone, Copy, Debug, PartialEq, Eq, Structural)]
pub enum GeneratorError {
    AlreadyFinished,
    AlreadyStopped,
    CurrentlySkipping(u64),
    CurrentlyStepping(u64),
    Error(SourceChangeGeneratorStatus),
    PauseToSkip,
    PauseToStep,
    PauseToReset,
}

/// What a generator has done.
#[derive(Clone, Copy, Debug, PartialEq, Eq, Structural)]
pub struct GeneratorStats {
    pub actual_start_time_ns: u64,
    pub actual_end_time_ns: u64,
    pub num_source_change_events: u64,
    pub num_skipped_source_change_events: u64,
}

impl Default for GeneratorStats {
    fn default() -> (r: GeneratorStats)
        ensures
            r == no_stats(),
    {
        GeneratorStats {
            actual_start_time_ns: 0,
            actual_end_time_ns: 0,
            num_source_change_events: 0,
            num_skipped_source_change_events: 0,
        }
    }
}

/// The statistics of a generator that has done nothing.
pub open spec fn no_stats() -> GeneratorStats {
    GeneratorStats {
        actual_start_time_ns: 0,
        actual_end_time_ns: 0,
        num_source_change_events: 0,
        num_skipped_source_change_events: 0,
    }
}

/// A change that is due after a delay.
#[derive(Clone, Copy, Debug, PartialEq, Eq, Structural)]
pub struct ScheduledChangeEventMessage {
    pub delay_ns: u64,
    pub seq_num: u64,
}

/// A change that was processed.
#[derive(Debug)]
pub struct ProcessedChangeEvent {
    pub dispatch_status: SourceChangeGeneratorStatus,
    pub event: SourceChangeEvent,
    pub seq: u64,
}

/// What a processed change says.
pub struct ProcessedView {
    pub dispatch_status: SourceChangeGeneratorStatus,
    pub event: ChangeEventView,
    pub seq: u64,
}

impl View for ProcessedChangeEvent {
    type V = ProcessedView;

    open spec fn view(&self) -> ProcessedView {
        ProcessedView {
            dispatch_status: self.dispatch_status,
            event: self.event@,
            seq: self.seq,
        }
    }
}

impl ProcessedChangeEvent {
    /// A copy.
    pub fn copy(&self) -> (r: ProcessedChangeEvent)
        ensures
            r@ == self@,
    {
        ProcessedChangeEvent {
            dispatch_status: self.dispatch_status,
            event: self.event.copy(),
            seq: self.seq,
        }
    }
}

/// What becomes of failures of dispatchers.
#[derive(Clone, Copy, Debug, PartialEq, Eq, Structural)]
pub enum FailurePolicy {
    /// They are passed over.
    Ignore,
    /// They end the stream in the error status.
    Report,
}

/// What a stream is set up with.
#[derive(Debug)]
pub struct StreamSettings {
    /// The source within the test run, as it is reported.
    pub test_run_source_id: String,
    /// The name of the source.
    pub test_source_id: String,
    /// The number of changes after which the stream is finished.
    pub change_count: u64,
    pub spacing_mode: SpacingMode,
    pub time_mode: TimeMode,
    /// Start by inserting everything that the model holds.
    pub send_initial_inserts: bool,
    pub failures: FailurePolicy,
}

/// What a stream was set up with.
pub struct StreamSettingsView {
    pub test_run_source_id: Seq<char>,
    pub test_source_id: Seq<char>,
    pub change_count: u64,
    pub spacing_mode: SpacingMode,
    pub time_mode: TimeMode,
    pub send_initial_inserts: bool,
    pub failures: FailurePolicy,
}

impl View for StreamSettings {
    type V = StreamSettingsView;

    open spec fn view(&self) -> StreamSettingsView {
        StreamSettingsView {
            test_run_source_id: self.test_run_source_id@,
            test_source_id: self.test_source_id@,
            change_count: self.change_count,
            spacing_mode: self.spacing_mode,
            time_mode: self.time_mode,
            send_initial_inserts: self.send_initial_inserts,
            failures: self.failures,
        }
    }
}

/// The state of a change stream.
#[derive(Debug)]
pub struct ChangeStream {
    settings: StreamSettings,
    error_messages: Vec<String>,
    event_seq_num: u64,
    next_event: Option<SourceChangeEvent>,
    previous_event: Option<ProcessedChangeEvent>,
    skips_remaining: u64,
    status: SourceChangeGeneratorStatus,
    stats: GeneratorStats,
    steps_remaining: u64,
    virtual_time_ns_current: u64,
    virtual_time_ns_next: u64,
    virtual_time_ns_rebase_adjustment: i64,
    virtual_time_ns_start: u64,
}

/// What the state of a change stream says.
pub struct StreamView {
    pub settings: StreamSettingsView,
    pub error_messages: Seq<Seq<char>>,
    pub event_seq_num: u64,
    pub next_event: Option<ChangeEventView>,
    pub previous_event: Option<ProcessedView>,
    pub skips_remaining: u64,
    pub status: SourceChangeGeneratorStatus,
    pub stats: GeneratorStats,
    pub steps_remaining: u64,
    pub virtual_time_ns_current: u64,
    pub virtual_time_ns_next: u64,
    pub virtual_time_ns_rebase_adjustment: i64,
    pub virtual_time_ns_start: u64,
}

impl View for ChangeStream {
    type V = StreamView;

    closed spec fn view(&self) -> StreamView {
        StreamView {
            settings: self.settings@,
            error_messages: texts(self.error_messages@),
            event_seq_num: self.event_seq_num,
            next_event: match self.next_event {
                Some(event) => Some(event@),
                None => None,
            },
            previous_event: match self.previous_event {
                Some(event) => Some(event@),
                None => None,
            },
            skips_remaining: self.skips_remaining,
            status: self.status,
            stats: self.stats,
            steps_remaining: self.steps_remaining,
            virtual_time_ns_current: self.virtual_time_ns_current,
            virtual_time_ns_next: self.virtual_time_ns_next,
            virtual_time_ns_rebase_adjustment: self.virtual_time_ns_rebase_adjustment,
            virtual_time_ns_start: self.virtual_time_ns_start,
        }
    }
}

impl StreamView {
    /// The next change is not due before the current time, and no more changes were skipped
    /// than seen.
    pub open spec fn wf(self) -> bool {
        &&& self.virtual_time_ns_current <= self.virtual_time_ns_next
        &&& self.stats.num_skipped_source_change_events <= self.stats.num_source_change_events
    }
}

/// A stream that has not started.
pub open spec fn initial_stream(settings: StreamSettingsView) -> StreamView {
    StreamView {
        settings,
        error_messages: Seq::empty(),
        event_seq_num: 0,
        next_event: None,
        previous_event: None,
        skips_remaining: 0,
        status: SourceChangeGeneratorStatus::Paused,
        stats: no_stats(),
        steps_remaining: 0,
        virtual_time_ns_current: 0,
        virtual_time_ns_next: 0,
        virtual_time_ns_rebase_adjustment: 0,
        virtual_time_ns_start: 0,
    }
}

/// What is to be done about a command.
#[derive(Clone, Copy, Debug, PartialEq, Eq, Structural)]
pub enum CommandStep {
    /// Answer that it was done, with nothing more to do.
    Done,
    /// Answer that it is refused.
    Refuse(GeneratorError),
    /// Hand the test run host to the dispatchers.
    ConfigureDispatchers,
    /// Close the dispatchers and build them and the model anew.
    Rebuild,
    /// Dispatch inserts of everything that the model holds, then schedule the next change.
    SendInitialInserts,
    /// Schedule the next change.
    Schedule,
    /// Close the dispatchers and write the summary.
    Close,
}

/// A stream that has ended at a time, in a status.
pub open spec fn ended(s: StreamView, status: SourceChangeGeneratorStatus, now_ns: u64) -> StreamView {
    StreamView {
        status,
        stats: GeneratorStats { actual_end_time_ns: now_ns, ..s.stats },
        skips_remaining: 0,
        steps_remaining: 0,
        ..s
    }
}

/// What is to be done about a command in a status that only a reset leads out of.
pub open spec fn terminal_step(command: GeneratorCommand, refusal: GeneratorError) -> CommandStep {
    match command {
        GeneratorCommand::GetState => CommandStep::Done,
        GeneratorCommand::Reset => CommandStep::Rebuild,
        GeneratorCommand::SetTestRunHost => CommandStep::ConfigureDispatchers,
        _ => CommandStep::Refuse(refusal),
    }
}

/// The state after a command, and what is to be done about it.
pub open spec fn after_command(s: StreamView, command: GeneratorCommand, now_ns: u64) -> (
    StreamView,
    CommandStep,
) {
    match s.status {
        SourceChangeGeneratorStatus::Running => match command {
            GeneratorCommand::GetState => (s, CommandStep::Done),
            GeneratorCommand::Pause => (
                StreamView { status: SourceChangeGeneratorStatus::Paused, ..s },
                CommandStep::Done,
            ),
            GeneratorCommand::Reset => (s, CommandStep::Refuse(GeneratorError::PauseToReset)),
            GeneratorCommand::Skip { .. } => (s, CommandStep::Refuse(GeneratorError::PauseToSkip)),
            GeneratorCommand::Start => (s, CommandStep::Done),
            GeneratorCommand::Step { .. } => (s, CommandStep::Refuse(GeneratorError::PauseToStep)),
            GeneratorCommand::Stop => (
                ended(s, SourceChangeGeneratorStatus::Stopped, now_ns),
                CommandStep::Close,
            ),
            GeneratorCommand::SetTestRunHost => (s, CommandStep::ConfigureDispatchers),
        },
        SourceChangeGeneratorStatus::Stepping => match command {
            GeneratorCommand::GetState => (s, CommandStep::Done),
            GeneratorCommand::Pause => (
                StreamView {
                    status: SourceChangeGeneratorStatus::Paused,
                    steps_remaining: 0,
                    ..s
                },
                CommandStep::Done,
            ),
            GeneratorCommand::Stop => (
                ended(s, SourceChangeGeneratorStatus::Stopped, now_ns),
                CommandStep::Close,
            ),
            GeneratorCommand::SetTestRunHost => (s, CommandStep::ConfigureDispatchers),
            _ => (
                s,
                CommandStep::Refuse(GeneratorError::CurrentlyStepping(s.steps_remaining)),
            ),
        },
        SourceChangeGeneratorStatus::Skipping => match command {
            GeneratorCommand::GetState => (s, CommandStep::Done),
            GeneratorCommand::Pause => (
                StreamView {
                    status: SourceChangeGeneratorStatus::Paused,
                    skips_remaining: 0,
                    ..s
                },
                CommandStep::Done,
            ),
            GeneratorCommand::Stop => (
                ended(s, SourceChangeGeneratorStatus::Stopped, now_ns),
                CommandStep::Close,
            ),
            GeneratorCommand::SetTestRunHost => (s, CommandStep::ConfigureDispatchers),
            _ => (
                s,
                CommandStep::Refuse(GeneratorError::CurrentlySkipping(s.skips_remaining)),
            ),
        },
        SourceChangeGeneratorStatus::Paused => match command {
            GeneratorCommand::GetState => (s, CommandStep::Done),
            GeneratorCommand::Pause => (s, CommandStep::Done),
            GeneratorCommand::Reset => (s, CommandStep::Rebuild),
            GeneratorCommand::Skip { skips, .. } => (
                StreamView {
                    status: SourceChangeGeneratorStatus::Skipping,
                    skips_remaining: skips,
                    ..s
                },
                CommandStep::Schedule,
            ),
            GeneratorCommand::Start => (
                StreamView { status: SourceChangeGeneratorStatus::Running, ..s },
                if s.settings.send_initial_inserts {
                    CommandStep::SendInitialInserts
                } else {
                    CommandStep::Schedule
                },
            ),
            GeneratorCommand::Step { steps, .. } => (
                StreamView {
                    status: SourceChangeGeneratorStatus::Stepping,
                    steps_remaining: steps,
                    ..s
                },
                CommandStep::Schedule,
            ),
            GeneratorCommand::Stop => (
                ended(s, SourceChangeGeneratorStatus::Stopped, now_ns),
                CommandStep::Close,
            ),
            GeneratorCommand::SetTestRunHost => (s, CommandStep::ConfigureDispatchers),
        },
        SourceChangeGeneratorStatus::Stopped => (
            s,
            terminal_step(command, GeneratorError::AlreadyStopped),
        ),
        SourceChangeGeneratorStatus::Finished => (
            s,
            terminal_step(command, GeneratorError::AlreadyFinished),
        ),
        SourceChangeGeneratorStatus::Error => (
            s,
            terminal_step(command, GeneratorError::Error(SourceChangeGeneratorStatus::Error)),
        ),
    }
}

impl ChangeStream {
    /// The state is well formed.
    pub open spec fn wf(self) -> bool {
        self@.wf()
    }

    /// A stream that has not started.
    pub fn new(settings: StreamSettings) -> (r: ChangeStream)
        ensures
            r.wf(),
            r@ == initial_stream(settings@),
    {
        let r = ChangeStream {
            settings,
            error_messages: Vec::new(),
            event_seq_num: 0,
            next_event: None,
            previous_event: None,
            skips_remaining: 0,
            status: SourceChangeGeneratorStatus::Paused,
            stats: GeneratorStats::default(),
            steps_remaining: 0,
            virtual_time_ns_current: 0,
            virtual_time_ns_next: 0,
            virtual_time_ns_rebase_adjustment: 0,
            virtual_time_ns_start: 0,
        };
        assert(texts(r.error_messages@) =~= Seq::<Seq<char>>::empty());
        r
    }

    /// Ends the stream.
    fn end(&mut self, status: SourceChangeGeneratorStatus, now_ns: u64)
        ensures
            final(self)@ == ended(old(self)@, status, now_ns),
    {
        self.status = status;
        self.stats.actual_end_time_ns = now_ns;
        self.skips_remaining = 0;
        self.steps_remaining = 0;
    }

    /// Takes a command and says what is to be done about it.
    pub fn on_command(&mut self, command: GeneratorCommand, now_ns: u64) -> (step: CommandStep)
        requires
            old(self).wf(),
        ensures
            final(self).wf(),
            (final(self)@, step) == after_command(old(self)@, command, now_ns),
    {
        if let GeneratorCommand::GetState = command {
            return CommandStep::Done;
        }
        match self.status {
            SourceChangeGeneratorStatus::Running => self.transition_from_running_state(
                command,
                now_ns,
            ),
            SourceChangeGeneratorStatus::Stepping => self.transition_from_stepping_state(
                command,
                now_ns,
            ),
            SourceChangeGeneratorStatus::Skipping => self.transition_from_skipping_state(
                command,
                now_ns,
            ),
            SourceChangeGeneratorStatus::Paused => self.transition_from_paused_state(command, now_ns),
            SourceChangeGeneratorStatus::Stopped => terminal_answer(
                command,
                GeneratorError::AlreadyStopped,
            ),
            SourceChangeGeneratorStatus::Finished => terminal_answer(
                command,
                GeneratorError::AlreadyFinished,
            ),
            SourceChangeGeneratorStatus::Error => terminal_answer(
                command,
                GeneratorError::Error(self.status),
            ),
        }
    }

    fn transition_from_running_state(&mut self, command: GeneratorCommand, now_ns: u64) -> (step:
        CommandStep)
        requires
            old(self)@.status == SourceChangeGeneratorStatus::Running,
        ensures
            (final(self)@, step) == after_command(old(self)@, command, now_ns),
    {
        match command {
            GeneratorCommand::GetState => CommandStep::Done,
            GeneratorCommand::Pause => {
                self.status = SourceChangeGeneratorStatus::Paused;
                CommandStep::Done
            },
            GeneratorCommand::Reset => CommandStep::Refuse(GeneratorError::PauseToReset),
            GeneratorCommand::Skip { .. } => CommandStep::Refuse(GeneratorError::PauseToSkip),
            GeneratorCommand::Start => CommandStep::Done,
            GeneratorCommand::Step { .. } => CommandStep::Refuse(GeneratorError::PauseToStep),
            GeneratorCommand::Stop => {
                self.end(SourceChangeGeneratorStatus::Stopped, now_ns);
                CommandStep::Close
            },
            GeneratorCommand::SetTestRunHost => CommandStep::ConfigureDispatchers,
        }
    }

    fn transition_from_stepping_state(&mut self, command: GeneratorCommand, now_ns: u64) -> (step:
        CommandStep)
        requires
            old(self)@.status == SourceChangeGeneratorStatus::Stepping,
        ensures
            (final(self)@, step) == after_command(old(self)@, command, now_ns),
    {
        match command {
            GeneratorCommand::GetState => CommandStep::Done,
            GeneratorCommand::Pause => {
                self.status = SourceChangeGeneratorStatus::Paused;
                self.steps_remaining = 0;
                CommandStep::Done
            },
            GeneratorCommand::Stop => {
                self.end(SourceChangeGeneratorStatus::Stopped, now_ns);
                CommandStep::Close
            },
            GeneratorCommand::SetTestRunHost => CommandStep::ConfigureDispatchers,
            _ => CommandStep::Refuse(GeneratorError::CurrentlyStepping(self.steps_remaining)),
        }
    }

    fn transition_from_skipping_state(&mut self, command: GeneratorCommand, now_ns: u64) -> (step:
        CommandStep)
        requires
            old(self)@.status == SourceChangeGeneratorStatus::Skipping,
        ensures
            (final(self)@, step) == after_command(old(self)@, command, now_ns),
    {
        match command {
            GeneratorCommand::GetState => CommandStep::Done,
            GeneratorCommand::Pause => {
                self.status = SourceChangeGeneratorStatus::Paused;
                self.skips_remaining = 0;
                CommandStep::Done
            },
            GeneratorCommand::Stop => {
                self.end(SourceChangeGeneratorStatus::Stopped, now_ns);
                CommandStep::Close
            },
            GeneratorCommand::SetTestRunHost => CommandStep::ConfigureDispatchers,
            _ => CommandStep::Refuse(GeneratorError::CurrentlySkipping(self.skips_remaining)),
        }
    }

    fn transition_from_paused_state(&mut self, command: GeneratorCommand, now_ns: u64) -> (step:
        CommandStep)
        requires
            old(self)@.status == SourceChangeGeneratorStatus::Paused,
        ensures
            (final(self)@, step) == after_command(old(self)@, command, now_ns),
    {
        match command {
            GeneratorCommand::GetState => CommandStep::Done,
            GeneratorCommand::Pause => CommandStep::Done,
            GeneratorCommand::Reset => CommandStep::Rebuild,
            GeneratorCommand::Skip { skips, .. } => {
                self.status = SourceChangeGeneratorStatus::Skipping;
                self.skips_remaining = skips;
                CommandStep::Schedule
            },
            GeneratorCommand::Start => {
                self.status = SourceChangeGeneratorStatus::Running;
                if self.settings.send_initial_inserts {
                    CommandStep::SendInitialInserts
                } else {
                    CommandStep::Schedule
                }
            },
            GeneratorCommand::Step { steps, .. } => {
                self.status = SourceChangeGeneratorStatus::Stepping;
                self.steps_remaining = steps;
                CommandStep::Schedule
            },
            GeneratorCommand::Stop => {
                self.end(SourceChangeGeneratorStatus::Stopped, now_ns);
                CommandStep::Close
            },
            GeneratorCommand::SetTestRunHost => CommandStep::ConfigureDispatchers,
        }
    }
}

/// What is to be done about a command in a status that only a reset leads out of.
fn terminal_answer(command: GeneratorCommand, refusal: GeneratorError) -> (step: CommandStep)
    ensures
        step == terminal_step(command, refusal),
{
    match command {
        GeneratorCommand::GetState => CommandStep::Done,
        GeneratorCommand::Reset => CommandStep::Rebuild,
        GeneratorCommand::SetTestRunHost => CommandStep::ConfigureDispatchers,
        _ => CommandStep::Refuse(refusal),
    }
}

/// What is to be done about a change that is due.
#[derive(Debug)]
pub enum ChangeStep {
    /// Dispatch the event, then complete the change.
    Dispatch(SourceChangeEvent),
    /// Complete the change without dispatching it.
    Skip(SourceChangeEvent),
    /// Nothing; the stream is in the error status.
    Nothing,
    /// Report the message; the stream is in the error status.
    Failed(String),
}

/// What is to be done about a change that is due, in the model.
pub enum ChangeStepView {
    Dispatch(ChangeEventView),
    Skip(ChangeEventView),
    Nothing,
    Failed(Seq<char>),
}

impl View for ChangeStep {
    type V = ChangeStepView;

    open spec fn view(&self) -> ChangeStepView {
        match self {
            ChangeStep::Dispatch(event) => ChangeStepView::Dispatch(event@),
            ChangeStep::Skip(event) => ChangeStepView::Skip(event@),
            ChangeStep::Nothing => ChangeStepView::Nothing,
            ChangeStep::Failed(message) => ChangeStepView::Failed(message@),
        }
    }
}

/// A stream in the error status, with one more message.
pub open spec fn failed(s: StreamView, message: Seq<char>) -> StreamView {
    StreamView {
        status: SourceChangeGeneratorStatus::Error,
        error_messages: s.error_messages.push(message),
        ..s
    }
}

/// A message with the detail of what went wrong.
pub open spec fn detailed(message: Seq<char>, detail: Seq<char>) -> Seq<char> {
    message + ": "@ + detail
}

/// A message belongs to the change that is due.
pub open spec fn is_due(s: StreamView, message: ScheduledChangeEventMessage) -> bool {
    message.seq_num == s.event_seq_num && s.status.processing()
}

/// The state when a change has come due, and what is to be done about it.
pub open spec fn after_due(s: StreamView, now_ns: u64) -> (StreamView, ChangeStepView) {
    let timely = StreamView { virtual_time_ns_current: s.virtual_time_ns_next, ..s };
    match s.next_event {
        None => (
            failed(timely, "No next_event to process"@),
            ChangeStepView::Failed("No next_event to process"@),
        ),
        Some(event) => {
            let event = ChangeEventView { reactivator_end_ns: now_ns, ..event };
            let next = StreamView { next_event: Some(event), ..timely };
            match s.status {
                SourceChangeGeneratorStatus::Running => (next, ChangeStepView::Dispatch(event)),
                SourceChangeGeneratorStatus::Stepping => if s.steps_remaining > 0 {
                    (next, ChangeStepView::Dispatch(event))
                } else {
                    (failed(next, "Stepping with no steps remaining"@), ChangeStepView::Nothing)
                },
                SourceChangeGeneratorStatus::Skipping => if s.skips_remaining > 0 {
                    (next, ChangeStepView::Skip(event))
                } else {
                    (failed(next, "Skipping with no skips remaining"@), ChangeStepView::Nothing)
                },
                _ => (
                    failed(next, "Unexpected status for SourceChange processing"@),
                    ChangeStepView::Nothing,
                ),
            }
        },
    }
}

/// What is to be done once a change is complete.
#[derive(Clone, Copy, Debug, PartialEq, Eq, Structural)]
pub enum FollowUp {
    /// Close the dispatchers and write the summary.
    Close,
    /// Schedule the next change.
    Schedule,
}

/// The counters after one more change.
pub open spec fn counted(s: StreamView, event: ChangeEventView, seq_num: u64) -> StreamView {
    StreamView {
        previous_event: Some(
            ProcessedView { dispatch_status: s.status, event, seq: seq_num },
        ),
        event_seq_num: (s.event_seq_num + 1) as u64,
        stats: GeneratorStats {
            num_source_change_events: (s.stats.num_source_change_events + 1) as u64,
            num_skipped_source_change_events: if s.status == SourceChangeGeneratorStatus::Skipping {
                (s.stats.num_skipped_source_change_events + 1) as u64
            } else {
                s.stats.num_skipped_source_change_events
            },
            ..s.stats
        },
        ..s
    }
}

/// One step or skip fewer remains; with the last one the stream pauses.
pub open spec fn one_fewer(s: StreamView) -> StreamView {
    match s.status {
        SourceChangeGeneratorStatus::Stepping => StreamView {
            steps_remaining: (s.steps_remaining - 1) as u64,
            status: if s.steps_remaining == 1 {
                SourceChangeGeneratorStatus::Paused
            } else {
                s.status
            },
            ..s
        },
        SourceChangeGeneratorStatus::Skipping => StreamView {
            skips_remaining: (s.skips_remaining - 1) as u64,
            status: if s.skips_remaining == 1 {
                SourceChangeGeneratorStatus::Paused
            } else {
                s.status
            },
            ..s
        },
        _ => s,
    }
}

/// The state after a change was dispatched or skipped, and what is to be done next.
pub open spec fn after_change(
    s: StreamView,
    event: ChangeEventView,
    seq_num: u64,
    now_ns: u64,
) -> (StreamView, FollowUp) {
    let next = counted(s, event, seq_num);
    if next.stats.num_source_change_events >= s.settings.change_count {
        (ended(next, SourceChangeGeneratorStatus::Finished, now_ns), FollowUp::Close)
    } else {
        (one_fewer(next), FollowUp::Schedule)
    }
}

/// A change can be completed: the status is one in which changes are processed, with a
/// step or skip left to spend, and the counters have room.
pub open spec fn can_complete(s: StreamView) -> bool {
    &&& s.status.processing()
    &&& s.status == SourceChangeGeneratorStatus::Stepping ==> s.steps_remaining > 0
    &&& s.status == SourceChangeGeneratorStatus::Skipping ==> s.skips_remaining > 0
    &&& s.event_seq_num < u64::MAX
    &&& s.stats.num_source_change_events < u64::MAX
}

/// The detail of a failure that counts under a policy.
pub open spec fn counting_failure(policy: FailurePolicy, outcome: Result<(), String>) -> Option<
    Seq<char>,
> {
    match (policy, outcome) {
        (FailurePolicy::Report, Err(detail)) => Some(detail@),
        _ => None,
    }
}

/// What the model came up with as its next change.
#[derive(Debug)]
pub enum ModelUpdate {
    /// An element changed.
    Updated { before: Json, after: Json },
    /// A change of another kind, as it is shown.
    Unexpected(String),
    /// No change.
    Nothing,
    /// The model failed.
    Failed(String),
}

/// The times when the first change is scheduled.
pub open spec fn first_times(s: StreamView, now_ns: u64) -> StreamView {
    let start = match s.settings.time_mode {
        TimeMode::Rebased(base_ns) => base_ns,
        _ => now_ns,
    };
    StreamView {
        stats: GeneratorStats { actual_start_time_ns: now_ns, ..s.stats },
        virtual_time_ns_start: start,
        virtual_time_ns_current: start,
        virtual_time_ns_next: start,
        virtual_time_ns_rebase_adjustment: match s.settings.time_mode {
            TimeMode::Rebased(base_ns) => (signed_bits(base_ns) - signed_bits(now_ns)) as i64,
            _ => 0,
        },
        ..s
    }
}

/// The times when a change is scheduled: before any was processed they start, later the
/// next is an interval away.
pub open spec fn scheduled_times(s: StreamView, now_ns: u64, interval: Option<u64>) -> StreamView {
    match interval {
        None => first_times(s, now_ns),
        Some(interval) => StreamView {
            virtual_time_ns_next: (s.virtual_time_ns_current + interval) as u64,
            ..s
        },
    }
}

/// The times fit their types.
pub open spec fn times_fit(s: StreamView, now_ns: u64, interval: Option<u64>) -> bool {
    &&& interval is Some == s.previous_event is Some
    &&& interval matches Some(interval) ==> s.virtual_time_ns_current + interval <= u64::MAX
    &&& interval is None && s.settings.time_mode is Rebased ==> i64::MIN <= signed_bits(
        s.settings.time_mode->Rebased_0,
    ) - signed_bits(now_ns) <= i64::MAX
}

/// The event of a model's update.
pub open spec fn update_event(
    s: StreamView,
    now_ns: u64,
    before: JsonView,
    after: JsonView,
) -> ChangeEventView {
    ChangeEventView {
        op: "u"@,
        reactivator_start_ns: now_ns,
        reactivator_end_ns: 0,
        db: s.settings.test_source_id,
        lsn: s.event_seq_num,
        table: "node"@,
        ts_ns: s.virtual_time_ns_next,
        before,
        after,
    }
}

/// The state after a model's update, and the message to send where the stream is
/// processing changes.
pub open spec fn after_update(s: StreamView, now_ns: u64, update: ModelUpdate) -> (
    StreamView,
    Result<Option<ScheduledChangeEventMessage>, Seq<char>>,
) {
    match update {
        ModelUpdate::Updated { before, after } => (
            StreamView { next_event: Some(update_event(s, now_ns, before@, after@)), ..s },
            Ok(
                if s.status.processing() {
                    Some(
                        ScheduledChangeEventMessage {
                            delay_ns: (s.virtual_time_ns_next - s.virtual_time_ns_current) as u64,
                            seq_num: s.event_seq_num,
                        },
                    )
                } else {
                    None
                },
            ),
        ),
        ModelUpdate::Unexpected(shown) => (s, Err("Unexpected model change: "@ + shown@)),
        ModelUpdate::Nothing => (s, Err("No model change generated"@)),
        ModelUpdate::Failed(error) => (s, Err(error@)),
    }
}

/// Keeps a sampled interval within its bounds.
pub open spec fn bounded_interval(sample: u64, min: u64, max: u64) -> u64 {
    if sample < min {
        min
    } else if sample > max {
        max
    } else {
        sample
    }
}

/// Keeps a sampled interval within its bounds.
pub fn clamp_interval(sample: u64, min: u64, max: u64) -> (r: u64)
    ensures
        r == bounded_interval(sample, min, max),
        min <= max ==> min <= r <= max,
{
    if sample < min {
        min
    } else if sample > max {
        max
    } else {
        sample
    }
}

impl ChangeStream {
    /// Ends the stream in the error status with a message.
    pub fn transition_to_error_state(&mut self, message: &str, detail: Option<&str>)
        ensures
            final(self)@ == failed(
                old(self)@,
                match detail {
                    Some(detail) => detailed(message@, detail@),
                    None => message@,
                },
            ),
            old(self).wf() ==> final(self).wf(),
    {
        self.status = SourceChangeGeneratorStatus::Error;
        let mut text = message.to_owned();
        match detail {
            Some(detail) => {
                text.append(": ");
                text.append(detail);
            },
            None => {},
        }
        let ghost before = texts(self.error_messages@);
        let ghost added = text@;
        self.error_messages.push(text);
        assert(texts(self.error_messages@) =~= before.push(added));
    }

    /// Whether a message belongs to the change that is due. Messages of changes that are
    /// no longer expected are passed over.
    pub fn accepts(&self, message: ScheduledChangeEventMessage) -> (r: bool)
        ensures
            r == is_due(self@, message),
    {
        message.seq_num == self.event_seq_num && self.status.is_processing()
    }

    /// Takes up the change that is due.
    pub fn begin_change(&mut self, now_ns: u64) -> (step: ChangeStep)
        requires
            old(self).wf(),
        ensures
            final(self).wf(),
            (final(self)@, step@) == after_due(old(self)@, now_ns),
    {
        self.virtual_time_ns_current = self.virtual_time_ns_next;
        let event = match self.next_event.take() {
            Some(event) => {
                let mut event = event;
                event.reactivator_end_ns = now_ns;
                let copy = event.copy();
                self.next_event = Some(event);
                copy
            },
            None => {
                self.transition_to_error_state("No next_event to process", None);
                return ChangeStep::Failed("No next_event to process".to_owned());
            },
        };
        match self.status {
            SourceChangeGeneratorStatus::Running => ChangeStep::Dispatch(event),
            SourceChangeGeneratorStatus::Stepping => if self.steps_remaining > 0 {
                ChangeStep::Dispatch(event)
            } else {
                self.transition_to_error_state("Stepping with no steps remaining", None);
                ChangeStep::Nothing
            },
            SourceChangeGeneratorStatus::Skipping => if self.skips_remaining > 0 {
                ChangeStep::Skip(event)
            } else {
                self.transition_to_error_state("Skipping with no skips remaining", None);
                ChangeStep::Nothing
            },
            _ => {
                self.transition_to_error_state(
                    "Unexpected status for SourceChange processing",
                    None,
                );
                ChangeStep::Nothing
            },
        }
    }

    /// Whether a change can be completed.
    pub fn ready_to_complete(&self) -> (r: bool)
        ensures
            r == can_complete(self@),
    {
        let left = match self.status {
            SourceChangeGeneratorStatus::Running => true,
            SourceChangeGeneratorStatus::Stepping => self.steps_remaining > 0,
            SourceChangeGeneratorStatus::Skipping => self.skips_remaining > 0,
            _ => false,
        };
        left && self.event_seq_num < u64::MAX && self.stats.num_source_change_events < u64::MAX
    }

    /// Completes a change that was skipped, or dispatched with the given outcome. Under the
    /// policy that reports them, a failed dispatch is returned and the change not counted.
    pub fn complete_change(
        &mut self,
        event: SourceChangeEvent,
        seq_num: u64,
        now_ns: u64,
        dispatched: Result<(), String>,
    ) -> (r: Result<FollowUp, String>)
        requires
            old(self).wf(),
            can_complete(old(self)@),
        ensures
            final(self).wf(),
            match counting_failure(old(self)@.settings.failures, dispatched) {
                Some(detail) => final(self)@ == old(self)@ && r is Err && r->Err_0@ == detail,
                None => r is Ok && (final(self)@, r->Ok_0) == after_change(
                    old(self)@,
                    event@,
                    seq_num,
                    now_ns,
                ),
            },
    {
        if self.settings.failures == FailurePolicy::Report {
            match dispatched {
                Ok(_) => {},
                Err(detail) => {
                    return Err(detail);
                },
            }
        }
        if self.status == SourceChangeGeneratorStatus::Skipping {
            self.stats.num_skipped_source_change_events = self.stats.num_skipped_source_change_events
                + 1;
        }
        self.previous_event =
        Some(ProcessedChangeEvent { dispatch_status: self.status, event, seq: seq_num });
        self.event_seq_num = self.event_seq_num + 1;
        self.stats.num_source_change_events = self.stats.num_source_change_events + 1;
        if self.stats.num_source_change_events >= self.settings.change_count {
            self.end(SourceChangeGeneratorStatus::Finished, now_ns);
            return Ok(FollowUp::Close);
        }
        match self.status {
            SourceChangeGeneratorStatus::Stepping => {
                self.steps_remaining = self.steps_remaining - 1;
                if self.steps_remaining == 0 {
                    self.status = SourceChangeGeneratorStatus::Paused;
                }
            },
            SourceChangeGeneratorStatus::Skipping => {
                self.skips_remaining = self.skips_remaining - 1;
                if self.skips_remaining == 0 {
                    self.status = SourceChangeGeneratorStatus::Paused;
                }
            },
            _ => {},
        }
        Ok(FollowUp::Schedule)
    }

    /// Whether scheduling the next change takes an interval: it does once a change was
    /// processed.
    pub fn needs_interval(&self) -> (r: bool)
        ensures
            r == self@.previous_event is Some,
    {
        self.previous_event.is_some()
    }

    /// Whether the times of the next change fit their types.
    pub fn can_schedule(&self, now_ns: u64, interval: Option<u64>) -> (r: bool)
        ensures
            r == times_fit(self@, now_ns, interval),
    {
        match interval {
            Some(interval) => self.previous_event.is_some() && interval <= u64::MAX
                - self.virtual_time_ns_current,
            None => match self.settings.time_mode {
                TimeMode::Rebased(base_ns) => {
                    let difference: i128 = to_signed_bits(base_ns) as i128 - to_signed_bits(now_ns) as i128;
                    self.previous_event.is_none() && i64::MIN as i128 <= difference && difference
                        <= i64::MAX as i128
                },
                _ => self.previous_event.is_none(),
            },
        }
    }

    /// Sets the times of the next change and returns when it is due.
    pub fn schedule_times(&mut self, now_ns: u64, interval: Option<u64>) -> (due_ns: u64)
        requires
            old(self).wf(),
            times_fit(old(self)@, now_ns, interval),
        ensures
            final(self).wf(),
            final(self)@ == scheduled_times(old(self)@, now_ns, interval),
            due_ns == final(self)@.virtual_time_ns_next,
    {
        match interval {
            None => {
                self.stats.actual_start_time_ns = now_ns;
                match self.settings.time_mode {
                    TimeMode::Rebased(base_ns) => {
                        self.virtual_time_ns_start = base_ns;
                        self.virtual_time_ns_current = base_ns;
                        self.virtual_time_ns_next = base_ns;
                        self.virtual_time_ns_rebase_adjustment = to_signed_bits(base_ns) - to_signed_bits(
                            now_ns,
                        );
                    },
                    _ => {
                        self.virtual_time_ns_start = now_ns;
                        self.virtual_time_ns_current = now_ns;
                        self.virtual_time_ns_next = now_ns;
                        self.virtual_time_ns_rebase_adjustment = 0;
                    },
                }
            },
            Some(interval) => {
                self.virtual_time_ns_next = self.virtual_time_ns_current + interval;
            },
        }
        self.virtual_time_ns_next
    }

    /// Takes the model's next change and returns the message to send, if any.
    pub fn schedule_update(&mut self, now_ns: u64, update: ModelUpdate) -> (r: Result<
        Option<ScheduledChangeEventMessage>,
        String,
    >)
        requires
            old(self).wf(),
        ensures
            final(self).wf(),
            final(self)@ == after_update(old(self)@, now_ns, update).0,
            match r {
                Ok(message) => after_update(old(self)@, now_ns, update).1 == Ok::<
                    Option<ScheduledChangeEventMessage>,
                    Seq<char>,
                >(message),
                Err(error) => after_update(old(self)@, now_ns, update).1 == Err::<
                    Option<ScheduledChangeEventMessage>,
                    Seq<char>,
                >(error@),
            },
    {
        match update {
            ModelUpdate::Updated { before, after } => {
                let event = SourceChangeEvent {
                    op: "u".to_owned(),
                    reactivator_start_ns: now_ns,
                    reactivator_end_ns: 0,
                    payload: SourceChangeEventPayload {
                        source: SourceChangeEventSourceInfo {
                            db: self.settings.test_source_id.clone(),
                            lsn: self.event_seq_num,
                            table: "node".to_owned(),
                            ts_ns: self.virtual_time_ns_next,
                        },
                        before,
                        after,
                    },
                };
                self.next_event = Some(event);
                if self.status.is_processing() {
                    Ok(
                        Some(
                            ScheduledChangeEventMessage {
                                delay_ns: self.virtual_time_ns_next - self.virtual_time_ns_current,
                                seq_num: self.event_seq_num,
                            },
                        ),
                    )
                } else {
                    Ok(None)
                }
            },
            ModelUpdate::Unexpected(shown) => {
                let mut message = "Unexpected model change: ".to_owned();
                message.append(shown.as_str());
                Err(message)
            },
            ModelUpdate::Nothing => Err("No model change generated".to_owned()),
            ModelUpdate::Failed(error) => Err(error),
        }
    }
}

/// The state after the dispatchers were closed, and the answer to whoever asked for it.
pub open spec fn after_close(s: StreamView, closed: Result<(), String>) -> (
    StreamView,
    Result<(), Seq<char>>,
) {
    match counting_failure(s.settings.failures, closed) {
        Some(detail) => (
            failed(s, detailed("Failed to close source dispatchers"@, detail)),
            Err(detail),
        ),
        None => (s, Ok(())),
    }
}

/// The state after a reset, and the answer to it. Where the dispatchers could not be closed
/// or rebuilt, nothing changes.
pub open spec fn after_reset(
    s: StreamView,
    closed: Result<(), String>,
    rebuilt: Result<(), String>,
) -> (StreamView, Result<(), Seq<char>>) {
    match counting_failure(s.settings.failures, closed) {
        Some(detail) => (s, Err(detail)),
        None => match rebuilt {
            Err(error) => (s, Err(error@)),
            Ok(_) => (initial_stream(s.settings), Ok(())),
        },
    }
}

/// An element of the model as it is inserted.
#[derive(Debug)]
pub struct ElementInsert {
    /// A relation between nodes, rather than a node.
    pub is_relation: bool,
    pub after: Json,
}

/// An element of the model as it is inserted.
pub struct ElementView {
    pub is_relation: bool,
    pub after: JsonView,
}

impl View for ElementInsert {
    type V = ElementView;

    open spec fn view(&self) -> ElementView {
        ElementView { is_relation: self.is_relation, after: self.after@ }
    }
}

/// The views of a list of elements.
pub open spec fn element_views(elements: Seq<ElementInsert>) -> Seq<ElementView> {
    Seq::new(elements.len(), |i: int| elements[i]@)
}

/// The insert of the element with an index among those inserted.
pub open spec fn insert_event(s: StreamView, now_ns: u64, element: ElementView, i: int) -> ChangeEventView {
    ChangeEventView {
        op: "i"@,
        reactivator_start_ns: now_ns,
        reactivator_end_ns: 0,
        db: s.settings.test_source_id,
        lsn: (s.event_seq_num + i) as u64,
        table: if element.is_relation {
            "relation"@
        } else {
            "node"@
        },
        ts_ns: s.virtual_time_ns_current,
        before: JsonView::Null,
        after: element.after,
    }
}

/// The inserts of everything that the model holds, numbered from the current number on.
pub open spec fn insert_events(s: StreamView, now_ns: u64, elements: Seq<ElementView>) -> Seq<
    ChangeEventView,
> {
    Seq::new(elements.len(), |i: int| insert_event(s, now_ns, elements[i], i))
}

/// The state after so many inserts were numbered.
pub open spec fn after_numbering(s: StreamView, count: nat) -> StreamView {
    StreamView { event_seq_num: (s.event_seq_num + count) as u64, ..s }
}

/// The state after so many inserts were dispatched, and the answer to whoever started the
/// stream.
pub open spec fn after_inserts(s: StreamView, count: nat, dispatched: Result<(), String>) -> (
    StreamView,
    Result<(), Seq<char>>,
) {
    match counting_failure(s.settings.failures, dispatched) {
        Some(detail) => (
            failed(s, detailed("Failed to send initial inserts"@, detail)),
            Err(detail),
        ),
        None => (
            StreamView {
                stats: GeneratorStats {
                    num_source_change_events: (s.stats.num_source_change_events + count) as u64,
                    ..s.stats
                },
                ..s
            },
            Ok(()),
        ),
    }
}

/// The state after processing a change failed. Where failures are reported, one that has
/// led to the error status already is not reported twice.
pub open spec fn after_change_failure(s: StreamView, detail: Seq<char>) -> StreamView {
    if s.settings.failures == FailurePolicy::Report && s.status
        == SourceChangeGeneratorStatus::Error {
        s
    } else {
        failed(s, detailed("Error calling process_change_stream_message"@, detail))
    }
}

/// An answer against its specification.
pub open spec fn answer_matches(r: Result<(), String>, expected: Result<(), Seq<char>>) -> bool {
    match r {
        Ok(_) => expected is Ok,
        Err(error) => expected == Err::<(), Seq<char>>(error@),
    }
}

impl ChangeStream {
    /// Takes what came of closing the dispatchers at the stream's end.
    pub fn on_closed(&mut self, closed: Result<(), String>) -> (r: Result<(), String>)
        requires
            old(self).wf(),
        ensures
            final(self).wf(),
            final(self)@ == after_close(old(self)@, closed).0,
            answer_matches(r, after_close(old(self)@, closed).1),
    {
        if self.settings.failures == FailurePolicy::Report {
            match closed {
                Ok(_) => {},
                Err(detail) => {
                    self.transition_to_error_state(
                        "Failed to close source dispatchers",
                        Some(detail.as_str()),
                    );
                    return Err(detail);
                },
            }
        }
        Ok(())
    }

    /// Takes what came of closing the dispatchers and building them and the model anew, and
    /// resets the stream where both succeeded.
    pub fn on_rebuilt(&mut self, closed: Result<(), String>, rebuilt: Result<(), String>) -> (r:
        Result<(), String>)
        requires
            old(self).wf(),
        ensures
            final(self).wf(),
            final(self)@ == after_reset(old(self)@, closed, rebuilt).0,
            answer_matches(r, after_reset(old(self)@, closed, rebuilt).1),
    {
        if self.settings.failures == FailurePolicy::Report {
            match closed {
                Ok(_) => {},
                Err(detail) => {
                    return Err(detail);
                },
            }
        }
        match rebuilt {
            Ok(_) => {},
            Err(error) => {
                return Err(error);
            },
        }
        self.error_messages = Vec::new();
        self.event_seq_num = 0;
        self.next_event = None;
        self.previous_event = None;
        self.skips_remaining = 0;
        self.status = SourceChangeGeneratorStatus::Paused;
        self.stats = GeneratorStats::default();
        self.steps_remaining = 0;
        self.virtual_time_ns_current = 0;
        self.virtual_time_ns_next = 0;
        self.virtual_time_ns_rebase_adjustment = 0;
        self.virtual_time_ns_start = 0;
        assert(texts(self.error_messages@) =~= Seq::<Seq<char>>::empty());
        Ok(())
    }

    /// Whether so many inserts can be numbered and counted.
    pub fn can_insert(&self, count: usize) -> (r: bool)
        ensures
            r == (self@.event_seq_num + count <= u64::MAX && self@.stats.num_source_change_events
                + count <= u64::MAX),
    {
        count as u64 <= u64::MAX - self.event_seq_num && count as u64 <= u64::MAX
            - self.stats.num_source_change_events
    }

    /// Whether so many inserts can be counted.
    pub fn can_count(&self, count: usize) -> (r: bool)
        ensures
            r == (self@.stats.num_source_change_events + count <= u64::MAX),
    {
        count as u64 <= u64::MAX - self.stats.num_source_change_events
    }

    /// Whether failures of dispatchers are reported.
    pub fn reports_failures(&self) -> (r: bool)
        ensures
            r == (self@.settings.failures == FailurePolicy::Report),
    {
        self.settings.failures == FailurePolicy::Report
    }

    /// The inserts of everything that the model holds.
    pub fn initial_inserts(&mut self, elements: Vec<ElementInsert>, now_ns: u64) -> (events: Vec<
        SourceChangeEvent,
    >)
        requires
            old(self).wf(),
            old(self)@.event_seq_num + elements@.len() <= u64::MAX,
        ensures
            final(self).wf(),
            final(self)@ == after_numbering(old(self)@, elements@.len()),
            event_views(events@) == insert_events(old(self)@, now_ns, element_views(elements@)),
    {
        let ghost start = self@;
        let ghost views = element_views(elements@);
        let mut events: Vec<SourceChangeEvent> = Vec::new();
        for element in it: elements
            invariant
                it.seq() == elements@,
                views == element_views(elements@),
                start.event_seq_num + elements@.len() <= u64::MAX,
                start.wf(),
                self@ == after_numbering(start, it.index() as nat),
                events@.len() == it.index(),
                forall|j: int|
                    0 <= j < events@.len() ==> (#[trigger] events@[j])@ == insert_event(
                        start,
                        now_ns,
                        views[j],
                        j,
                    ),
        {
            assert(element@ == views[it.index()]);
            let table = if element.is_relation {
                "relation"
            } else {
                "node"
            };
            let event = SourceChangeEvent {
                op: "i".to_owned(),
                reactivator_start_ns: now_ns,
                reactivator_end_ns: 0,
                payload: SourceChangeEventPayload {
                    source: SourceChangeEventSourceInfo {
                        db: self.settings.test_source_id.clone(),
                        lsn: self.event_seq_num,
                        table: table.to_owned(),
                        ts_ns: self.virtual_time_ns_current,
                    },
                    before: Json::Null,
                    after: element.after,
                },
            };
            events.push(event);
            self.event_seq_num = self.event_seq_num + 1;
        }
        assert(event_views(events@) =~= insert_events(start, now_ns, views));
        events
    }

    /// Takes what came of dispatching so many inserts.
    pub fn on_inserts_dispatched(&mut self, count: usize, dispatched: Result<(), String>) -> (r:
        Result<(), String>)
        requires
            old(self).wf(),
            old(self)@.stats.num_source_change_events + count <= u64::MAX,
        ensures
            final(self).wf(),
            final(self)@ == after_inserts(old(self)@, count as nat, dispatched).0,
            answer_matches(r, after_inserts(old(self)@, count as nat, dispatched).1),
    {
        if self.settings.failures == FailurePolicy::Report {
            match dispatched {
                Ok(_) => {},
                Err(detail) => {
                    self.transition_to_error_state(
                        "Failed to send initial inserts",
                        Some(detail.as_str()),
                    );
                    return Err(detail);
                },
            }
        }
        self.stats.num_source_change_events = self.stats.num_source_change_events + count as u64;
        Ok(())
    }

    /// Takes the failure of processing a change.
    pub fn on_change_failed(&mut self, detail: &str)
        requires
            old(self).wf(),
        ensures
            final(self).wf(),
            final(self)@ == after_change_failure(old(self)@, detail@),
    {
        if self.settings.failures == FailurePolicy::Report && self.status
            == SourceChangeGeneratorStatus::Error {
            return ;
        }
        self.transition_to_error_state(
            "Error calling process_change_stream_message",
            Some(detail),
        );
    }

    /// Takes the failure of answering a command.
    pub fn on_command_failed(&mut self, detail: &str)
        requires
            old(self).wf(),
        ensures
            final(self).wf(),
            final(self)@ == failed(
                old(self)@,
                detailed("Error calling process_command_message."@, detail@),
            ),
    {
        self.transition_to_error_state("Error calling process_command_message.", Some(detail));
    }

    /// Takes the end of the commands.
    pub fn on_commands_closed(&mut self)
        requires
            old(self).wf(),
        ensures
            final(self).wf(),
            final(self)@ == failed(old(self)@, "Command channel closed."@),
    {
        self.transition_to_error_state("Command channel closed.", None);
    }

    /// Takes the end of the scheduled changes.
    pub fn on_changes_closed(&mut self)
        requires
            old(self).wf(),
        ensures
            final(self).wf(),
            final(self)@ == failed(old(self)@, "Change stream channel closed."@),
    {
        self.transition_to_error_state("Change stream channel closed.", None);
    }

    /// What is reported of the state.
    pub fn external_state(&self) -> (r: ExternalState)
        ensures
            r@ == external_of(self@),
    {
        let next_event = match &self.next_event {
            Some(event) => Some(event.copy()),
            None => None,
        };
        let previous_event = match &self.previous_event {
            Some(event) => Some(event.copy()),
            None => None,
        };
        ExternalState {
            error_messages: copy_texts(&self.error_messages),
            event_seq_num: self.event_seq_num,
            next_event,
            previous_event,
            skips_remaining: self.skips_remaining,
            spacing_mode: self.settings.spacing_mode,
            stats: self.stats,
            status: self.status,
            steps_remaining: self.steps_remaining,
            test_run_source_id: self.settings.test_run_source_id.clone(),
            time_mode: self.settings.time_mode,
            virtual_time_ns_current: self.virtual_time_ns_current,
            virtual_time_ns_next: self.virtual_time_ns_next,
            virtual_time_ns_rebase_adjustment: self.virtual_time_ns_rebase_adjustment,
            virtual_time_ns_start: self.virtual_time_ns_start,
        }
    }

    /// Whether the stream ended no earlier than it started.
    pub fn can_summarize(&self) -> (r: bool)
        ensures
            r == (self@.stats.actual_start_time_ns <= self@.stats.actual_end_time_ns),
    {
        self.stats.actual_start_time_ns <= self.stats.actual_end_time_ns
    }

    /// What is written down when the stream has ended.
    pub fn result_summary(&self) -> (r: ResultSummary)
        requires
            self@.stats.actual_start_time_ns <= self@.stats.actual_end_time_ns,
        ensures
            r.actual_start_time@ == unix_time_text(self@.stats.actual_start_time_ns),
            r.actual_start_time_ns == self@.stats.actual_start_time_ns,
            r.actual_end_time@ == unix_time_text(self@.stats.actual_end_time_ns),
            r.actual_end_time_ns == self@.stats.actual_end_time_ns,
            r.run_duration_ns == self@.stats.actual_end_time_ns - self@.stats.actual_start_time_ns,
            r.num_source_change_events == self@.stats.num_source_change_events,
            r.num_skipped_source_events == self@.stats.num_skipped_source_change_events,
            r.test_run_source_id@ == self@.settings.test_run_source_id,
    {
        ResultSummary {
            actual_start_time: print_unix_time(self.stats.actual_start_time_ns),
            actual_start_time_ns: self.stats.actual_start_time_ns,
            actual_end_time: print_unix_time(self.stats.actual_end_time_ns),
            actual_end_time_ns: self.stats.actual_end_time_ns,
            run_duration_ns: self.stats.actual_end_time_ns - self.stats.actual_start_time_ns,
            num_source_change_events: self.stats.num_source_change_events,
            num_skipped_source_events: self.stats.num_skipped_source_change_events,
            test_run_source_id: self.settings.test_run_source_id.clone(),
        }
    }

    /// The status.
    pub fn status(&self) -> (r: SourceChangeGeneratorStatus)
        ensures
            r == self@.status,
    {
        self.status
    }
}

/// `random` of `rand::rng`: a number drawn at random, of which nothing can be foretold.
#[verifier::external_body]
pub(crate) fn draw_seed() -> (r: u64) {
    rand::Rng::random(&mut rand::rng())
}

/// The RFC 3339 text, in UTC, of a time in nanoseconds since the epoch.
pub uninterp spec fn unix_time_text(nanos: u64) -> Seq<char>;

/// `OffsetDateTime::from_unix_timestamp_nanos` and `format` as RFC 3339. Every such time lies
/// between the years 1970 and 2554, where neither fails.
#[verifier::external_body]
fn print_unix_time(nanos: u64) -> (r: String)
    ensures
        r@ == unix_time_text(nanos),
{
    time::OffsetDateTime::from_unix_timestamp_nanos(nanos as i128)
        .expect("a time within range")
        .format(&time::format_description::well_known::Rfc3339)
        .expect("a time with a year of four digits")
}

/// What is reported of the state of a stream.
#[derive(Debug)]
pub struct ExternalState {
    pub error_messages: Vec<String>,
    pub event_seq_num: u64,
    pub next_event: Option<SourceChangeEvent>,
    pub previous_event: Option<ProcessedChangeEvent>,
    pub skips_remaining: u64,
    pub spacing_mode: SpacingMode,
    pub stats: GeneratorStats,
    pub status: SourceChangeGeneratorStatus,
    pub steps_remaining: u64,
    pub test_run_source_id: String,
    pub time_mode: TimeMode,
    pub virtual_time_ns_current: u64,
    pub virtual_time_ns_next: u64,
    pub virtual_time_ns_rebase_adjustment: i64,
    pub virtual_time_ns_start: u64,
}

/// What a report of the state of a stream says.
pub struct ExternalView {
    pub error_messages: Seq<Seq<char>>,
    pub event_seq_num: u64,
    pub next_event: Option<ChangeEventView>,
    pub previous_event: Option<ProcessedView>,
    pub skips_remaining: u64,
    pub spacing_mode: SpacingMode,
    pub stats: GeneratorStats,
    pub status: SourceChangeGeneratorStatus,
    pub steps_remaining: u64,
    pub test_run_source_id: Seq<char>,
    pub time_mode: TimeMode,
    pub virtual_time_ns_current: u64,
    pub virtual_time_ns_next: u64,
    pub virtual_time_ns_rebase_adjustment: i64,
    pub virtual_time_ns_start: u64,
}

impl View for ExternalState {
    type V = ExternalView;

    open spec fn view(&self) -> ExternalView {
        ExternalView {
            error_messages: texts(self.error_messages@),
            event_seq_num: self.event_seq_num,
            next_event: match self.next_event {
                Some(event) => Some(event@),
                None => None,
            },
            previous_event: match self.previous_event {
                Some(event) => Some(event@),
                None => None,
            },
            skips_remaining: self.skips_remaining,
            spacing_mode: self.spacing_mode,
            stats: self.stats,
            status: self.status,
            steps_remaining: self.steps_remaining,
            test_run_source_id: self.test_run_source_id@,
            time_mode: self.time_mode,
            virtual_time_ns_current: self.virtual_time_ns_current,
            virtual_time_ns_next: self.virtual_time_ns_next,
            virtual_time_ns_rebase_adjustment: self.virtual_time_ns_rebase_adjustment,
            virtual_time_ns_start: self.virtual_time_ns_start,
        }
    }
}

/// What is reported of a state.
pub open spec fn external_of(s: StreamView) -> ExternalView {
    ExternalView {
        error_messages: s.error_messages,
        event_seq_num: s.event_seq_num,
        next_event: s.next_event,
        previous_event: s.previous_event,
        skips_remaining: s.skips_remaining,
        spacing_mode: s.settings.spacing_mode,
        stats: s.stats,
        status: s.status,
        steps_remaining: s.steps_remaining,
        test_run_source_id: s.settings.test_run_source_id,
        time_mode: s.settings.time_mode,
        virtual_time_ns_current: s.virtual_time_ns_current,
        virtual_time_ns_next: s.virtual_time_ns_next,
        virtual_time_ns_rebase_adjustment: s.virtual_time_ns_rebase_adjustment,
        virtual_time_ns_start: s.virtual_time_ns_start,
    }
}

/// What is written down when a stream has ended.
#[derive(Debug)]
pub struct ResultSummary {
    pub actual_start_time: String,
    pub actual_start_time_ns: u64,
    pub actual_end_time: String,
    pub actual_end_time_ns: u64,
    pub run_duration_ns: u64,
    pub num_source_change_events: u64,
    pub num_skipped_source_events: u64,
    pub test_run_source_id: String,
}

/// The message that a command is refused with, for a generator of the given name.
pub open spec fn refusal_message(name: Seq<char>, error: GeneratorError) -> Seq<char> {
    match error {
        GeneratorError::AlreadyFinished => name + " is already finished. Reset to start over."@,
        GeneratorError::AlreadyStopped => name + " is already stopped. Reset to start over."@,
        GeneratorError::CurrentlySkipping(skips) => name + " is currently Skipping. "@ + decimal(
            skips as nat,
        ) + " skips remaining. Pause before Skip, Step, or Reset."@,
        GeneratorError::CurrentlyStepping(steps) => name + " is currently Stepping. "@ + decimal(
            steps as nat,
        ) + " steps remaining. Pause before Skip, Step, or Reset."@,
        GeneratorError::Error(status) => name + " is currently in an Error state - "@ + status_name(
            status,
        ),
        GeneratorError::PauseToSkip => name + " is currently Running. Pause before trying to Skip."@,
        GeneratorError::PauseToStep => name + " is currently Running. Pause before trying to Step."@,
        GeneratorError::PauseToReset => name
            + " is currently Running. Pause before trying to Reset."@,
    }
}

/// The name of a status.
pub open spec fn status_name(status: SourceChangeGeneratorStatus) -> Seq<char> {
    match status {
        SourceChangeGeneratorStatus::Running => "Running"@,
        SourceChangeGeneratorStatus::Stepping => "Stepping"@,
        SourceChangeGeneratorStatus::Skipping => "Skipping"@,
        SourceChangeGeneratorStatus::Paused => "Paused"@,
        SourceChangeGeneratorStatus::Stopped => "Stopped"@,
        SourceChangeGeneratorStatus::Finished => "Finished"@,
        SourceChangeGeneratorStatus::Error => "Error"@,
    }
}

fn status_text(status: SourceChangeGeneratorStatus) -> (r: &'static str)
    ensures
        r@ == status_name(status),
{
    match status {
        SourceChangeGeneratorStatus::Running => "Running",
        SourceChangeGeneratorStatus::Stepping => "Stepping",
        SourceChangeGeneratorStatus::Skipping => "Skipping",
        SourceChangeGeneratorStatus::Paused => "Paused",
        SourceChangeGeneratorStatus::Stopped => "Stopped",
        SourceChangeGeneratorStatus::Finished => "Finished",
        SourceChangeGeneratorStatus::Error => "Error",
    }
}

impl GeneratorError {
    /// The message that a command is refused with, for a generator of the given name.
    pub fn text(&self, name: &str) -> (r: String)
        ensures
            r@ == refusal_message(name@, *self),
    {
        let mut message = name.to_owned();
        match self {
            GeneratorError::AlreadyFinished => {
                message.append(" is already finished. Reset to start over.");
            },
            GeneratorError::AlreadyStopped => {
                message.append(" is already stopped. Reset to start over.");
            },
            GeneratorError::CurrentlySkipping(skips) => {
                message.append(" is currently Skipping. ");
                message.append(u64_text(*skips).as_str());
                message.append(" skips remaining. Pause before Skip, Step, or Reset.");
            },
            GeneratorError::CurrentlyStepping(steps) => {
                message.append(" is currently Stepping. ");
                message.append(u64_text(*steps).as_str());
                message.append(" steps remaining. Pause before Skip, Step, or Reset.");
            },
            GeneratorError::Error(status) => {
                message.append(" is currently in an Error state - ");
                message.append(status_text(*status));
            },
            GeneratorError::PauseToSkip => {
                message.append(" is currently Running. Pause before trying to Skip.");
            },
            GeneratorError::PauseToStep => {
                message.append(" is currently Running. Pause before trying to Step.");
            },
            GeneratorError::PauseToReset => {
                message.append(" is currently Running. Pause before trying to Reset.");
            },
        }
        message
    }
}

} // verus!
