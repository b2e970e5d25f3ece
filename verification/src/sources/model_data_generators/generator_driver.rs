//! The work of a generator, one step at a time: given what happened, what is to be done next.
//!
//! A command or a due change starts a piece of work. Each step hands out one thing to be done
//! outside and takes what came of it, until the work is done: a command has then been answered,
//! and a failed change has been noted.

use crate::scripts::{event_views, ChangeEventView, SourceChangeEvent};
use crate::sources::model_data_generators::change_stream::{
    after_change, after_change_failure, after_close, after_command, after_due, after_inserts,
    after_numbering, after_reset, after_update, can_complete, counting_failure, detailed,
    element_views, failed, initial_stream, insert_events, is_due, scheduled_times, times_fit,
    ChangeStep, ChangeStepView, ChangeStream, CommandStep, ElementInsert, FollowUp,
    GeneratorCommand, GeneratorError, ModelUpdate, ScheduledChangeEventMessage, StreamSettings,
    StreamView,
};
use vstd::prelude::*;
use vstd::string::*;

verus! {

/// Something that happened.
#[derive(Debug)]
pub enum GeneratorEvent {
    /// A command came.
    Command(GeneratorCommand),
    /// A scheduled change came due.
    ChangeDue(ScheduledChangeEventMessage),
    /// The test run host was handed to the dispatchers.
    DispatchersConfigured,
    /// The elements of the model were listed.
    ElementsListed(Vec<ElementInsert>),
    /// Events were dispatched.
    Dispatched(Result<(), String>),
    /// The rate allows the next change.
    RateReady,
    /// An interval was drawn.
    IntervalDrawn(u64),
    /// The model came up with its next change.
    ModelUpdated(ModelUpdate),
    /// A scheduled change was sent to be due.
    Sent(Result<(), String>),
    /// The dispatchers were closed.
    Closed(Result<(), String>),
    /// The dispatchers and the model were built anew.
    Rebuilt(Result<(), String>),
    /// An answer could not be given.
    ReplyFailed(String),
    /// No more commands will come.
    CommandsClosed,
    /// No more changes will come due.
    ChangesClosed,
}

/// The answer to a command.
#[derive(Debug)]
pub enum Reply {
    Done,
    Refused(GeneratorError),
    Failed(String),
}

/// Something to be done.
#[derive(Debug)]
pub enum GeneratorAction {
    /// Wait for the next command or change.
    Wait,
    /// Answer the command.
    Reply(Reply),
    /// Hand the test run host to the dispatchers.
    ConfigureDispatchers,
    /// List the elements of the model.
    ListElements,
    /// Dispatch events.
    Dispatch(Vec<SourceChangeEvent>),
    /// Wait until the rate allows the next change.
    AwaitRate,
    /// Draw an interval.
    DrawInterval,
    /// Have the model come up with its next change, due at the given time.
    GenerateUpdate(u64),
    /// Send a scheduled change to be due.
    Send(ScheduledChangeEventMessage),
    /// Close the dispatchers and write the summary.
    Close,
    /// Close the dispatchers, to build them anew.
    CloseToRebuild,
    /// Build the dispatchers and the model anew.
    Rebuild,
    /// A number has outgrown its type; there is no going on.
    Overflow,
    /// Stop working.
    Exit,
}

/// The answer to a command, in the model.
pub enum ReplyView {
    Done,
    Refused(GeneratorError),
    Failed(Seq<char>),
}

/// Something to be done, in the model.
pub enum ActionView {
    Wait,
    Reply(ReplyView),
    ConfigureDispatchers,
    ListElements,
    Dispatch(Seq<ChangeEventView>),
    AwaitRate,
    DrawInterval,
    GenerateUpdate(u64),
    Send(ScheduledChangeEventMessage),
    Close,
    CloseToRebuild,
    Rebuild,
    Overflow,
    Exit,
}

impl View for Reply {
    type V = ReplyView;

    open spec fn view(&self) -> ReplyView {
        match self {
            Reply::Done => ReplyView::Done,
            Reply::Refused(error) => ReplyView::Refused(*error),
            Reply::Failed(message) => ReplyView::Failed(message@),
        }
    }
}

impl View for GeneratorAction {
    type V = ActionView;

    open spec fn view(&self) -> ActionView {
        match self {
            GeneratorAction::Wait => ActionView::Wait,
            GeneratorAction::Reply(reply) => ActionView::Reply(reply@),
            GeneratorAction::ConfigureDispatchers => ActionView::ConfigureDispatchers,
            GeneratorAction::ListElements => ActionView::ListElements,
            GeneratorAction::Dispatch(events) => ActionView::Dispatch(event_views(events@)),
            GeneratorAction::AwaitRate => ActionView::AwaitRate,
            GeneratorAction::DrawInterval => ActionView::DrawInterval,
            GeneratorAction::GenerateUpdate(due_ns) => ActionView::GenerateUpdate(*due_ns),
            GeneratorAction::Send(message) => ActionView::Send(*message),
            GeneratorAction::Close => ActionView::Close,
            GeneratorAction::CloseToRebuild => ActionView::CloseToRebuild,
            GeneratorAction::Rebuild => ActionView::Rebuild,
            GeneratorAction::Overflow => ActionView::Overflow,
            GeneratorAction::Exit => ActionView::Exit,
        }
    }
}

/// What the generator is waiting for.
#[derive(Debug)]
enum Phase {
    /// A command or a change.
    Idle,
    Configuring,
    ListingElements,
    DispatchingInserts { count: usize },
    DispatchingChange { event: SourceChangeEvent, seq_num: u64 },
    AwaitingRate,
    /// An interval, since the given time.
    DrawingInterval { now_ns: u64 },
    /// A change of the model, since the given time.
    Generating { now_ns: u64 },
    Sending,
    Closing,
    ClosingToRebuild,
    Rebuilding,
}

/// What the generator is waiting for, in the model.
pub enum PhaseView {
    Idle,
    Configuring,
    ListingElements,
    DispatchingInserts { count: nat },
    DispatchingChange { event: ChangeEventView, seq_num: u64 },
    AwaitingRate,
    DrawingInterval { now_ns: u64 },
    Generating { now_ns: u64 },
    Sending,
    Closing,
    ClosingToRebuild,
    Rebuilding,
}

/// A generator at work.
#[derive(Debug)]
pub struct GeneratorDriver {
    stream: ChangeStream,
    phase: Phase,
    replying: bool,
}

/// A generator at work: its change stream, what it is waiting for, and whether a command is
/// to be answered.
pub struct DriverView {
    pub stream: StreamView,
    pub phase: PhaseView,
    pub replying: bool,
}

impl View for GeneratorDriver {
    type V = DriverView;

    closed spec fn view(&self) -> DriverView {
        DriverView {
            stream: self.stream@,
            phase: match self.phase {
                Phase::Idle => PhaseView::Idle,
                Phase::Configuring => PhaseView::Configuring,
                Phase::ListingElements => PhaseView::ListingElements,
                Phase::DispatchingInserts { count } => PhaseView::DispatchingInserts {
                    count: count as nat,
                },
                Phase::DispatchingChange { event, seq_num } => PhaseView::DispatchingChange {
                    event: event@,
                    seq_num,
                },
                Phase::AwaitingRate => PhaseView::AwaitingRate,
                Phase::DrawingInterval { now_ns } => PhaseView::DrawingInterval { now_ns },
                Phase::Generating { now_ns } => PhaseView::Generating { now_ns },
                Phase::Sending => PhaseView::Sending,
                Phase::Closing => PhaseView::Closing,
                Phase::ClosingToRebuild => PhaseView::ClosingToRebuild,
                Phase::Rebuilding => PhaseView::Rebuilding,
            },
            replying: self.replying,
        }
    }
}

/// The work is done: a command is answered, and the failure of a change noted.
pub open spec fn finished(d: DriverView, result: Result<(), Seq<char>>) -> (DriverView, ActionView) {
    let idle = DriverView { phase: PhaseView::Idle, replying: false, ..d };
    if d.replying {
        (
            idle,
            ActionView::Reply(
                match result {
                    Ok(_) => ReplyView::Done,
                    Err(error) => ReplyView::Failed(error),
                },
            ),
        )
    } else {
        match result {
            Ok(_) => (idle, ActionView::Wait),
            Err(error) => (
                DriverView { stream: after_change_failure(d.stream, error), ..idle },
                ActionView::Wait,
            ),
        }
    }
}

/// There is no going on.
pub open spec fn overflowed(d: DriverView) -> (DriverView, ActionView) {
    (DriverView { phase: PhaseView::Idle, replying: false, ..d }, ActionView::Overflow)
}

/// The next change is to be scheduled.
pub open spec fn to_schedule(d: DriverView) -> (DriverView, ActionView) {
    (DriverView { phase: PhaseView::AwaitingRate, ..d }, ActionView::AwaitRate)
}

/// The stream has ended.
pub open spec fn to_close(d: DriverView) -> (DriverView, ActionView) {
    (DriverView { phase: PhaseView::Closing, ..d }, ActionView::Close)
}

/// A change was dispatched or skipped.
pub open spec fn completed(d: DriverView, event: ChangeEventView, seq_num: u64, now_ns: u64) -> (
    DriverView,
    ActionView,
) {
    if !can_complete(d.stream) {
        overflowed(d)
    } else {
        let (stream, follow_up) = after_change(d.stream, event, seq_num, now_ns);
        let next = DriverView { stream, ..d };
        match follow_up {
            FollowUp::Close => to_close(next),
            FollowUp::Schedule => to_schedule(next),
        }
    }
}

/// The times of the next change are set.
pub open spec fn timed(d: DriverView, now_ns: u64, interval: Option<u64>) -> (
    DriverView,
    ActionView,
) {
    if !times_fit(d.stream, now_ns, interval) {
        overflowed(d)
    } else {
        let stream = scheduled_times(d.stream, now_ns, interval);
        (
            DriverView { stream, phase: PhaseView::Generating { now_ns }, ..d },
            ActionView::GenerateUpdate(stream.virtual_time_ns_next),
        )
    }
}

/// A command came.
pub open spec fn commanded(d: DriverView, command: GeneratorCommand, now_ns: u64) -> (
    DriverView,
    ActionView,
) {
    let (stream, step) = after_command(d.stream, command, now_ns);
    let next = DriverView { stream, replying: true, ..d };
    match step {
        CommandStep::Done => finished(next, Ok(())),
        CommandStep::Refuse(error) => (
            DriverView { replying: false, ..next },
            ActionView::Reply(ReplyView::Refused(error)),
        ),
        CommandStep::ConfigureDispatchers => (
            DriverView { phase: PhaseView::Configuring, ..next },
            ActionView::ConfigureDispatchers,
        ),
        CommandStep::Rebuild => (
            DriverView { phase: PhaseView::ClosingToRebuild, ..next },
            ActionView::CloseToRebuild,
        ),
        CommandStep::SendInitialInserts => (
            DriverView { phase: PhaseView::ListingElements, ..next },
            ActionView::ListElements,
        ),
        CommandStep::Schedule => to_schedule(next),
        CommandStep::Close => to_close(next),
    }
}

/// A scheduled change came due.
pub open spec fn change_due(d: DriverView, message: ScheduledChangeEventMessage, now_ns: u64) -> (
    DriverView,
    ActionView,
) {
    if !is_due(d.stream, message) {
        (d, ActionView::Wait)
    } else {
        let (stream, step) = after_due(d.stream, now_ns);
        let next = DriverView { stream, replying: false, ..d };
        match step {
            ChangeStepView::Dispatch(event) => (
                DriverView {
                    phase: PhaseView::DispatchingChange { event, seq_num: message.seq_num },
                    ..next
                },
                ActionView::Dispatch(seq![event]),
            ),
            ChangeStepView::Skip(event) => completed(next, event, message.seq_num, now_ns),
            ChangeStepView::Nothing => (next, ActionView::Wait),
            ChangeStepView::Failed(error) => finished(next, Err(error)),
        }
    }
}

/// The elements of the model were listed.
pub open spec fn elements_listed(d: DriverView, elements: Seq<ElementInsert>, now_ns: u64) -> (
    DriverView,
    ActionView,
) {
    if d.stream.event_seq_num + elements.len() > u64::MAX
        || d.stream.stats.num_source_change_events + elements.len() > u64::MAX {
        overflowed(d)
    } else if elements.len() == 0 {
        to_schedule(d)
    } else {
        (
            DriverView {
                stream: after_numbering(d.stream, elements.len()),
                phase: PhaseView::DispatchingInserts { count: elements.len() },
                ..d
            },
            ActionView::Dispatch(insert_events(d.stream, now_ns, element_views(elements))),
        )
    }
}

/// Initial inserts were dispatched.
pub open spec fn inserts_dispatched(d: DriverView, count: nat, outcome: Result<(), String>) -> (
    DriverView,
    ActionView,
) {
    if d.stream.stats.num_source_change_events + count > u64::MAX {
        overflowed(d)
    } else {
        let (stream, result) = after_inserts(d.stream, count, outcome);
        let next = DriverView { stream, ..d };
        match result {
            Ok(_) => to_schedule(next),
            Err(error) => finished(next, Err(error)),
        }
    }
}

/// A change was dispatched.
pub open spec fn change_dispatched(
    d: DriverView,
    event: ChangeEventView,
    seq_num: u64,
    outcome: Result<(), String>,
    now_ns: u64,
) -> (DriverView, ActionView) {
    if !can_complete(d.stream) {
        overflowed(d)
    } else {
        match counting_failure(d.stream.settings.failures, outcome) {
            Some(error) => finished(d, Err(error)),
            None => completed(d, event, seq_num, now_ns),
        }
    }
}

/// The model came up with its next change.
pub open spec fn model_updated(d: DriverView, update: ModelUpdate, now_ns: u64) -> (
    DriverView,
    ActionView,
) {
    let (stream, result) = after_update(d.stream, now_ns, update);
    let next = DriverView { stream, ..d };
    match result {
        Ok(Some(message)) => (
            DriverView { phase: PhaseView::Sending, ..next },
            ActionView::Send(message),
        ),
        Ok(None) => finished(next, Ok(())),
        Err(error) => finished(next, Err(error)),
    }
}

/// What is to be done about something that happened at a time. What is not waited for changes
/// nothing.
pub open spec fn step(d: DriverView, event: GeneratorEvent, now_ns: u64) -> (DriverView, ActionView) {
    match (d.phase, event) {
        (PhaseView::Idle, GeneratorEvent::Command(command)) => commanded(d, command, now_ns),
        (PhaseView::Idle, GeneratorEvent::ChangeDue(message)) => change_due(d, message, now_ns),
        (PhaseView::Idle, GeneratorEvent::ReplyFailed(detail)) => (
            DriverView {
                stream: failed(
                    d.stream,
                    detailed("Error calling process_command_message."@, detail@),
                ),
                ..d
            },
            ActionView::Wait,
        ),
        (PhaseView::Idle, GeneratorEvent::CommandsClosed) => (
            DriverView { stream: failed(d.stream, "Command channel closed."@), ..d },
            ActionView::Exit,
        ),
        (PhaseView::Idle, GeneratorEvent::ChangesClosed) => (
            DriverView { stream: failed(d.stream, "Change stream channel closed."@), ..d },
            ActionView::Exit,
        ),
        (PhaseView::Configuring, GeneratorEvent::DispatchersConfigured) => finished(d, Ok(())),
        (PhaseView::ListingElements, GeneratorEvent::ElementsListed(elements)) => elements_listed(
            d,
            elements@,
            now_ns,
        ),
        (PhaseView::DispatchingInserts { count }, GeneratorEvent::Dispatched(outcome)) =>
            inserts_dispatched(d, count, outcome),
        (
            PhaseView::DispatchingChange { event, seq_num },
            GeneratorEvent::Dispatched(outcome),
        ) => change_dispatched(d, event, seq_num, outcome, now_ns),
        (PhaseView::AwaitingRate, GeneratorEvent::RateReady) => if d.stream.previous_event is Some {
            (
                DriverView { phase: PhaseView::DrawingInterval { now_ns }, ..d },
                ActionView::DrawInterval,
            )
        } else {
            timed(d, now_ns, None)
        },
        (PhaseView::DrawingInterval { now_ns: since }, GeneratorEvent::IntervalDrawn(interval)) =>
            timed(d, since, Some(interval)),
        (PhaseView::Generating { now_ns: since }, GeneratorEvent::ModelUpdated(update)) =>
            model_updated(d, update, since),
        (PhaseView::Sending, GeneratorEvent::Sent(outcome)) => finished(
            d,
            match outcome {
                Ok(_) => Ok(()),
                Err(detail) => Err(
                    "Error sending ScheduledChangeEventMessage: "@ + detail@,
                ),
            },
        ),
        (PhaseView::Closing, GeneratorEvent::Closed(outcome)) => {
            let (stream, result) = after_close(d.stream, outcome);
            finished(DriverView { stream, ..d }, result)
        },
        (PhaseView::ClosingToRebuild, GeneratorEvent::Closed(outcome)) => match counting_failure(
            d.stream.settings.failures,
            outcome,
        ) {
            Some(error) => finished(d, Err(error)),
            None => (DriverView { phase: PhaseView::Rebuilding, ..d }, ActionView::Rebuild),
        },
        (PhaseView::Rebuilding, GeneratorEvent::Rebuilt(outcome)) => {
            let (stream, result) = after_reset(d.stream, Ok(()), outcome);
            finished(DriverView { stream, ..d }, result)
        },
        _ => (d, ActionView::Wait),
    }
}

/// A generator that waits for a command or a change owes no answer.
pub open spec fn owes_only_at_work(d: DriverView) -> bool {
    d.phase is Idle ==> !d.replying
}

/// Every command is answered once: at a command the answer is given or owed, what is owed stays
/// owed until it is given or there is no going on, and no answer is given that is not owed.
pub proof fn lemma_every_command_is_answered(d: DriverView, event: GeneratorEvent, now_ns: u64)
    requires
        owes_only_at_work(d),
    ensures
        ({
            let (next, action) = step(d, event, now_ns);
            let given = action is Reply;
            let owed = d.replying || (d.phase is Idle && event is Command);
            &&& owes_only_at_work(next)
            &&& given ==> owed && !next.replying
            &&& owed && !given ==> next.replying || action is Overflow
            &&& !owed ==> !next.replying
        }),
{
}

/// A generator at work takes neither commands nor changes.
pub proof fn lemma_one_thing_at_a_time(d: DriverView, event: GeneratorEvent, now_ns: u64)
    requires
        d.phase !is Idle,
        event is Command || event is ChangeDue,
    ensures
        step(d, event, now_ns) == (d, ActionView::Wait),
{
}

impl GeneratorDriver {
    /// The change stream is well formed, and no answer is owed while nothing is being done.
    pub closed spec fn wf(self) -> bool {
        self.stream.wf() && owes_only_at_work(self@)
    }

    /// A generator that has not started.
    pub fn new(settings: StreamSettings) -> (r: GeneratorDriver)
        ensures
            r.wf(),
            r@ == (DriverView {
                stream: initial_stream(settings@),
                phase: PhaseView::Idle,
                replying: false,
            }),
    {
        GeneratorDriver {
            stream: ChangeStream::new(settings),
            phase: Phase::Idle,
            replying: false,
        }
    }

    /// The change stream.
    pub fn stream(&self) -> (r: &ChangeStream)
        requires
            self.wf(),
        ensures
            r.wf(),
            r@ == self@.stream,
    {
        &self.stream
    }

    fn finish(&mut self, result: Result<(), String>) -> (action: GeneratorAction)
        requires
            old(self).stream.wf(),
        ensures
            final(self).stream.wf(),
            (final(self)@, action@) == finished(
                old(self)@,
                match result {
                    Ok(_) => Ok(()),
                    Err(error) => Err(error@),
                },
            ),
    {
        self.phase = Phase::Idle;
        if self.replying {
            self.replying = false;
            return GeneratorAction::Reply(
                match result {
                    Ok(_) => Reply::Done,
                    Err(error) => Reply::Failed(error),
                },
            );
        }
        match result {
            Ok(_) => {},
            Err(error) => {
                self.stream.on_change_failed(error.as_str());
            },
        }
        GeneratorAction::Wait
    }

    fn overflow(&mut self) -> (action: GeneratorAction)
        requires
            old(self).stream.wf(),
        ensures
            final(self).stream.wf(),
            (final(self)@, action@) == overflowed(old(self)@),
    {
        self.phase = Phase::Idle;
        self.replying = false;
        GeneratorAction::Overflow
    }

    fn go_to_schedule(&mut self) -> (action: GeneratorAction)
        requires
            old(self).stream.wf(),
        ensures
            final(self).stream.wf(),
            (final(self)@, action@) == to_schedule(old(self)@),
    {
        self.phase = Phase::AwaitingRate;
        GeneratorAction::AwaitRate
    }

    fn go_to_close(&mut self) -> (action: GeneratorAction)
        requires
            old(self).stream.wf(),
        ensures
            final(self).stream.wf(),
            (final(self)@, action@) == to_close(old(self)@),
    {
        self.phase = Phase::Closing;
        GeneratorAction::Close
    }

    fn complete(
        &mut self,
        event: SourceChangeEvent,
        seq_num: u64,
        outcome: Result<(), String>,
        now_ns: u64,
    ) -> (action: GeneratorAction)
        requires
            old(self).stream.wf(),
        ensures
            final(self).stream.wf(),
            (final(self)@, action@) == change_dispatched(
                old(self)@,
                event@,
                seq_num,
                outcome,
                now_ns,
            ),
    {
        if !self.stream.ready_to_complete() {
            return self.overflow();
        }
        match self.stream.complete_change(event, seq_num, now_ns, outcome) {
            Ok(FollowUp::Close) => self.go_to_close(),
            Ok(FollowUp::Schedule) => self.go_to_schedule(),
            Err(error) => self.finish(Err(error)),
        }
    }

    fn set_times(&mut self, now_ns: u64, interval: Option<u64>) -> (action: GeneratorAction)
        requires
            old(self).stream.wf(),
        ensures
            final(self).stream.wf(),
            (final(self)@, action@) == timed(old(self)@, now_ns, interval),
    {
        if !self.stream.can_schedule(now_ns, interval) {
            return self.overflow();
        }
        let due_ns = self.stream.schedule_times(now_ns, interval);
        self.phase = Phase::Generating { now_ns };
        GeneratorAction::GenerateUpdate(due_ns)
    }

    fn on_command(&mut self, command: GeneratorCommand, now_ns: u64) -> (action: GeneratorAction)
        requires
            old(self).stream.wf(),
            old(self)@.phase is Idle,
        ensures
            final(self).stream.wf(),
            (final(self)@, action@) == commanded(old(self)@, command, now_ns),
    {
        let step = self.stream.on_command(command, now_ns);
        self.replying = true;
        match step {
            CommandStep::Done => self.finish(Ok(())),
            CommandStep::Refuse(error) => {
                self.replying = false;
                GeneratorAction::Reply(Reply::Refused(error))
            },
            CommandStep::ConfigureDispatchers => {
                self.phase = Phase::Configuring;
                GeneratorAction::ConfigureDispatchers
            },
            CommandStep::Rebuild => {
                self.phase = Phase::ClosingToRebuild;
                GeneratorAction::CloseToRebuild
            },
            CommandStep::SendInitialInserts => {
                self.phase = Phase::ListingElements;
                GeneratorAction::ListElements
            },
            CommandStep::Schedule => self.go_to_schedule(),
            CommandStep::Close => self.go_to_close(),
        }
    }

    fn on_change_due(&mut self, message: ScheduledChangeEventMessage, now_ns: u64) -> (action:
        GeneratorAction)
        requires
            old(self).stream.wf(),
            old(self)@.phase is Idle,
        ensures
            final(self).stream.wf(),
            (final(self)@, action@) == change_due(old(self)@, message, now_ns),
    {
        if !self.stream.accepts(message) {
            return GeneratorAction::Wait;
        }
        self.replying = false;
        match self.stream.begin_change(now_ns) {
            ChangeStep::Dispatch(event) => {
                let events = vec![event.copy()];
                assert(event_views(events@) =~= seq![event@]);
                self.phase = Phase::DispatchingChange { event, seq_num: message.seq_num };
                GeneratorAction::Dispatch(events)
            },
            ChangeStep::Skip(event) => self.complete(event, message.seq_num, Ok(()), now_ns),
            ChangeStep::Nothing => GeneratorAction::Wait,
            ChangeStep::Failed(error) => self.finish(Err(error)),
        }
    }

    fn on_elements_listed(&mut self, elements: Vec<ElementInsert>, now_ns: u64) -> (action:
        GeneratorAction)
        requires
            old(self).stream.wf(),
        ensures
            final(self).stream.wf(),
            (final(self)@, action@) == elements_listed(old(self)@, elements@, now_ns),
    {
        if !self.stream.can_insert(elements.len()) {
            return self.overflow();
        }
        let count: usize = elements.len();
        if count == 0 {
            return self.go_to_schedule();
        }
        let events = self.stream.initial_inserts(elements, now_ns);
        self.phase = Phase::DispatchingInserts { count };
        GeneratorAction::Dispatch(events)
    }

    fn on_inserts_dispatched(&mut self, count: usize, outcome: Result<(), String>) -> (action:
        GeneratorAction)
        requires
            old(self).stream.wf(),
        ensures
            final(self).stream.wf(),
            (final(self)@, action@) == inserts_dispatched(old(self)@, count as nat, outcome),
    {
        if !self.stream.can_count(count) {
            return self.overflow();
        }
        match self.stream.on_inserts_dispatched(count, outcome) {
            Ok(_) => self.go_to_schedule(),
            Err(error) => self.finish(Err(error)),
        }
    }

    fn on_model_updated(&mut self, update: ModelUpdate, now_ns: u64) -> (action: GeneratorAction)
        requires
            old(self).stream.wf(),
        ensures
            final(self).stream.wf(),
            (final(self)@, action@) == model_updated(old(self)@, update, now_ns),
    {
        match self.stream.schedule_update(now_ns, update) {
            Ok(Some(message)) => {
                self.phase = Phase::Sending;
                GeneratorAction::Send(message)
            },
            Ok(None) => self.finish(Ok(())),
            Err(error) => self.finish(Err(error)),
        }
    }

    fn on_closed(&mut self, outcome: Result<(), String>, rebuild: bool) -> (action: GeneratorAction)
        requires
            old(self).stream.wf(),
        ensures
            final(self).stream.wf(),
            (final(self)@, action@) == if rebuild {
                match counting_failure(old(self)@.stream.settings.failures, outcome) {
                    Some(error) => finished(old(self)@, Err(error)),
                    None => (
                        DriverView { phase: PhaseView::Rebuilding, ..old(self)@ },
                        ActionView::Rebuild,
                    ),
                }
            } else {
                let (stream, result) = after_close(old(self)@.stream, outcome);
                finished(DriverView { stream, ..old(self)@ }, result)
            },
    {
        if !rebuild {
            let result = self.stream.on_closed(outcome);
            return self.finish(result);
        }
        if self.stream.reports_failures() {
            match outcome {
                Ok(_) => {},
                Err(error) => {
                    return self.finish(Err(error));
                },
            }
        }
        self.phase = Phase::Rebuilding;
        GeneratorAction::Rebuild
    }

    /// Takes something that happened at a time, and says what is to be done about it.
    pub fn handle(&mut self, event: GeneratorEvent, now_ns: u64) -> (action: GeneratorAction)
        requires
            old(self).wf(),
        ensures
            final(self).wf(),
            (final(self)@, action@) == step(old(self)@, event, now_ns),
    {
        proof {
            lemma_every_command_is_answered(self@, event, now_ns);
        }
        let mut phase = Phase::Idle;
        std::mem::swap(&mut self.phase, &mut phase);
        match (phase, event) {
            (Phase::Idle, GeneratorEvent::Command(command)) => self.on_command(command, now_ns),
            (Phase::Idle, GeneratorEvent::ChangeDue(message)) => self.on_change_due(message, now_ns),
            (Phase::Idle, GeneratorEvent::ReplyFailed(detail)) => {
                self.stream.on_command_failed(detail.as_str());
                GeneratorAction::Wait
            },
            (Phase::Idle, GeneratorEvent::CommandsClosed) => {
                self.stream.on_commands_closed();
                GeneratorAction::Exit
            },
            (Phase::Idle, GeneratorEvent::ChangesClosed) => {
                self.stream.on_changes_closed();
                GeneratorAction::Exit
            },
            (Phase::Configuring, GeneratorEvent::DispatchersConfigured) => self.finish(Ok(())),
            (Phase::ListingElements, GeneratorEvent::ElementsListed(elements)) => {
                self.phase = Phase::ListingElements;
                self.on_elements_listed(elements, now_ns)
            },
            (Phase::DispatchingInserts { count }, GeneratorEvent::Dispatched(outcome)) => {
                self.phase = Phase::DispatchingInserts { count };
                self.on_inserts_dispatched(count, outcome)
            },
            (
                Phase::DispatchingChange { event, seq_num },
                GeneratorEvent::Dispatched(outcome),
            ) => self.complete(event, seq_num, outcome, now_ns),
            (Phase::AwaitingRate, GeneratorEvent::RateReady) => {
                if self.stream.needs_interval() {
                    self.phase = Phase::DrawingInterval { now_ns };
                    GeneratorAction::DrawInterval
                } else {
                    self.set_times(now_ns, None)
                }
            },
            (Phase::DrawingInterval { now_ns: since }, GeneratorEvent::IntervalDrawn(interval)) =>
                self.set_times(since, Some(interval)),
            (Phase::Generating { now_ns: since }, GeneratorEvent::ModelUpdated(update)) =>
                self.on_model_updated(update, since),
            (Phase::Sending, GeneratorEvent::Sent(outcome)) => {
                let result = match outcome {
                    Ok(_) => Ok(()),
                    Err(detail) => {
                        let mut message = "Error sending ScheduledChangeEventMessage: ".to_owned();
                        message.append(detail.as_str());
                        Err(message)
                    },
                };
                self.finish(result)
            },
            (Phase::Closing, GeneratorEvent::Closed(outcome)) => self.on_closed(outcome, false),
            (Phase::ClosingToRebuild, GeneratorEvent::Closed(outcome)) => self.on_closed(
                outcome,
                true,
            ),
            (Phase::Rebuilding, GeneratorEvent::Rebuilt(outcome)) => {
                let result = self.stream.on_rebuilt(Ok(()), outcome);
                self.finish(result)
            },
            (phase, _) => {
                self.phase = phase;
                GeneratorAction::Wait
            },
        }
    }
}

} // verus!
