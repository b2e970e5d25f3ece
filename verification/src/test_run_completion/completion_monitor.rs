//! Waits for the components of a test run to finish, then has every completion handler called.

use crate::sources::source_change_generators::SourceChangeGeneratorStatus;
use crate::test_run_host::{
    completion_status, event_of, RunStatusView, SourceEvent, SourceEventView, SourceStatusTracker,
    TestRunStatus,
};
use crate::text::{join, texts};
use vstd::prelude::*;

verus! {

/// What a source said when its status was asked for: none where it did not answer.
#[derive(Debug)]
pub struct SourcePoll {
    pub source_id: String,
    pub status: Option<SourceChangeGeneratorStatus>,
}

/// Something that happened.
#[derive(Debug)]
pub enum MonitorEvent {
    /// A component reported something to the tracker; whether all components are finished.
    Reported { all_finished: bool },
    /// No more reports will come.
    ReportsClosed,
    /// The sources were asked for their statuses.
    Polled(Vec<SourcePoll>),
    /// The tracker was told of the sources; whether all components are finished.
    Told { all_finished: bool },
    /// The outputs of the reactions were collected.
    Collected,
    /// A completion handler was called.
    Handled(Result<(), String>),
}

/// Something to be done.
#[derive(Debug)]
pub enum MonitorAction {
    /// Wait for a report, or for the time to ask the sources.
    Wait,
    /// Tell the tracker of sources.
    Tell(Vec<(String, SourceEvent)>),
    /// Collect the outputs of the reactions.
    Collect,
    /// Call the handler with that index.
    Handle(usize),
    /// Set the status of the test run, and end.
    Fail(TestRunStatus),
    End,
}

/// Something to be done, in the model.
pub enum MonitorActionView {
    Wait,
    Tell(Seq<(Seq<char>, SourceEventView)>),
    Collect,
    Handle(nat),
    Fail(RunStatusView),
    End,
}

/// Source events with the names of their sources.
pub open spec fn told_views(list: Seq<(String, SourceEvent)>) -> Seq<(Seq<char>, SourceEventView)> {
    Seq::new(list.len(), |i: int| (list[i].0@, list[i].1@))
}

impl View for MonitorAction {
    type V = MonitorActionView;

    open spec fn view(&self) -> MonitorActionView {
        match self {
            MonitorAction::Wait => MonitorActionView::Wait,
            MonitorAction::Tell(events) => MonitorActionView::Tell(told_views(events@)),
            MonitorAction::Collect => MonitorActionView::Collect,
            MonitorAction::Handle(index) => MonitorActionView::Handle(*index as nat),
            MonitorAction::Fail(status) => MonitorActionView::Fail(status@),
            MonitorAction::End => MonitorActionView::End,
        }
    }
}

/// What the monitor is waiting for.
#[derive(Clone, Copy, Debug, PartialEq, Eq, Structural)]
pub enum MonitorPhase {
    Watching,
    Telling,
    Collecting,
    Handling,
    Ended,
}

/// Watches over the completion of a test run.
#[derive(Debug)]
pub struct CompletionMonitor {
    phase: MonitorPhase,
    statuses: SourceStatusTracker,
    handler_count: usize,
    handled: usize,
    errors: Vec<String>,
}

/// What a monitor knows.
pub struct MonitorView {
    pub phase: MonitorPhase,
    pub statuses: Map<Seq<char>, SourceChangeGeneratorStatus>,
    pub handler_count: nat,
    /// How many handlers were called.
    pub handled: nat,
    /// The messages of those that failed.
    pub errors: Seq<Seq<char>>,
}

impl View for CompletionMonitor {
    type V = MonitorView;

    closed spec fn view(&self) -> MonitorView {
        MonitorView {
            phase: self.phase,
            statuses: self.statuses@,
            handler_count: self.handler_count as nat,
            handled: self.handled as nat,
            errors: texts(self.errors@),
        }
    }
}

/// The statuses of sources after they were asked for. A source that did not answer keeps the
/// one that it was last seen in.
pub open spec fn statuses_after(
    statuses: Map<Seq<char>, SourceChangeGeneratorStatus>,
    polls: Seq<SourcePoll>,
) -> Map<Seq<char>, SourceChangeGeneratorStatus>
    decreases polls.len(),
{
    if polls.len() == 0 {
        statuses
    } else {
        let before = statuses_after(statuses, polls.drop_last());
        match polls.last().status {
            Some(status) => before.insert(polls.last().source_id@, status),
            None => before,
        }
    }
}

/// A source that answered is in another status than it was last seen in.
pub open spec fn is_news(
    statuses: Map<Seq<char>, SourceChangeGeneratorStatus>,
    poll: SourcePoll,
) -> bool {
    poll.status is Some && !(statuses.contains_key(poll.source_id@) && statuses[poll.source_id@]
        == poll.status->Some_0)
}

/// What the statuses of sources mean to the tracker, where they have changed.
pub open spec fn news_of(
    statuses: Map<Seq<char>, SourceChangeGeneratorStatus>,
    polls: Seq<SourcePoll>,
) -> Seq<(Seq<char>, SourceEventView)>
    decreases polls.len(),
{
    if polls.len() == 0 {
        Seq::empty()
    } else {
        let front = polls.drop_last();
        let last = polls.last();
        if is_news(statuses_after(statuses, front), last) {
            news_of(statuses, front).push((last.source_id@, event_of(last.status->Some_0)))
        } else {
            news_of(statuses, front)
        }
    }
}

/// What a monitor does next once it knows whether all components are finished.
pub open spec fn after_news(m: MonitorView, all_finished: bool) -> (MonitorView, MonitorActionView) {
    if all_finished {
        (MonitorView { phase: MonitorPhase::Collecting, ..m }, MonitorActionView::Collect)
    } else {
        (MonitorView { phase: MonitorPhase::Watching, ..m }, MonitorActionView::Wait)
    }
}

/// What a monitor does next while handlers are called: the next one, or, after the last one,
/// the status is set where some of them failed.
pub open spec fn next_handler(m: MonitorView) -> (MonitorView, MonitorActionView) {
    if m.handled < m.handler_count {
        (
            MonitorView { phase: MonitorPhase::Handling, ..m },
            MonitorActionView::Handle(m.handled),
        )
    } else {
        (
            MonitorView { phase: MonitorPhase::Ended, ..m },
            if m.errors.len() == 0 {
                MonitorActionView::End
            } else {
                MonitorActionView::Fail(RunStatusView::Error(join(m.errors, "; "@)))
            },
        )
    }
}

/// The monitor after a handler was called.
pub open spec fn after_handler(m: MonitorView, outcome: Result<(), String>) -> MonitorView {
    MonitorView {
        handled: m.handled + 1,
        errors: match outcome {
            Ok(_) => m.errors,
            Err(error) => m.errors.push(error@),
        },
        ..m
    }
}

/// What is to be done about something that happened. What is not waited for changes nothing.
pub open spec fn monitored(m: MonitorView, event: MonitorEvent) -> (MonitorView, MonitorActionView) {
    match (m.phase, event) {
        (MonitorPhase::Watching, MonitorEvent::Reported { all_finished }) => after_news(
            m,
            all_finished,
        ),
        (MonitorPhase::Watching, MonitorEvent::ReportsClosed) => (
            MonitorView { phase: MonitorPhase::Ended, ..m },
            MonitorActionView::End,
        ),
        (MonitorPhase::Watching, MonitorEvent::Polled(polls)) => (
            MonitorView {
                phase: MonitorPhase::Telling,
                statuses: statuses_after(m.statuses, polls@),
                ..m
            },
            MonitorActionView::Tell(news_of(m.statuses, polls@)),
        ),
        (MonitorPhase::Telling, MonitorEvent::Told { all_finished }) => after_news(m, all_finished),
        (MonitorPhase::Collecting, MonitorEvent::Collected) => next_handler(m),
        (MonitorPhase::Handling, MonitorEvent::Handled(outcome)) => next_handler(
            after_handler(m, outcome),
        ),
        _ => (m, MonitorActionView::Wait),
    }
}

impl CompletionMonitor {
    /// The statuses are well formed, and while handlers are called one is left.
    pub closed spec fn wf(self) -> bool {
        self.statuses.wf() && (self.phase == MonitorPhase::Handling ==> self.handled
            < self.handler_count)
    }

    /// A monitor that calls so many handlers in the end.
    pub fn new(handler_count: usize) -> (r: CompletionMonitor)
        ensures
            r.wf(),
            r@ == (MonitorView {
                phase: MonitorPhase::Watching,
                statuses: Map::empty(),
                handler_count: handler_count as nat,
                handled: 0,
                errors: Seq::empty(),
            }),
    {
        let r = CompletionMonitor {
            phase: MonitorPhase::Watching,
            statuses: SourceStatusTracker::new(),
            handler_count,
            handled: 0,
            errors: Vec::new(),
        };
        assert(r@.errors =~= Seq::empty());
        r
    }

    fn on_news(&mut self, all_finished: bool) -> (action: MonitorAction)
        requires
            old(self).wf(),
        ensures
            final(self).wf(),
            (final(self)@, action@) == after_news(old(self)@, all_finished),
    {
        if all_finished {
            self.phase = MonitorPhase::Collecting;
            MonitorAction::Collect
        } else {
            self.phase = MonitorPhase::Watching;
            MonitorAction::Wait
        }
    }

    fn go_to_next_handler(&mut self) -> (action: MonitorAction)
        requires
            old(self).statuses.wf(),
        ensures
            final(self).wf(),
            (final(self)@, action@) == next_handler(old(self)@),
    {
        if self.handled < self.handler_count {
            self.phase = MonitorPhase::Handling;
            return MonitorAction::Handle(self.handled);
        }
        self.phase = MonitorPhase::Ended;
        match completion_status(&self.errors) {
            Some(status) => MonitorAction::Fail(status),
            None => MonitorAction::End,
        }
    }

    fn on_polled(&mut self, polls: Vec<SourcePoll>) -> (action: MonitorAction)
        requires
            old(self).wf(),
        ensures
            final(self).wf(),
            final(self)@ == (MonitorView {
                phase: MonitorPhase::Telling,
                statuses: statuses_after(old(self)@.statuses, polls@),
                ..old(self)@
            }),
            action@ == MonitorActionView::Tell(news_of(old(self)@.statuses, polls@)),
    {
        let ghost before = self@;
        let mut news: Vec<(String, SourceEvent)> = Vec::new();
        assert(polls@.take(0) =~= Seq::empty());
        assert(told_views(news@) =~= Seq::empty());
        self.phase = MonitorPhase::Telling;
        let mut i: usize = 0;
        while i < polls.len()
            invariant
                0 <= i <= polls@.len(),
                self.statuses.wf(),
                self@ == (MonitorView {
                    phase: MonitorPhase::Telling,
                    statuses: statuses_after(before.statuses, polls@.take(i as int)),
                    ..before
                }),
                told_views(news@) == news_of(before.statuses, polls@.take(i as int)),
            decreases polls@.len() - i,
        {
            let ghost earlier = polls@.take(i as int);
            assert(polls@.take(i + 1).drop_last() =~= earlier);
            assert(polls@.take(i + 1).last() == polls@[i as int]);
            let ghost seen = news@;
            match polls[i].status {
                Some(status) => {
                    match self.statuses.observe(polls[i].source_id.as_str(), status) {
                        Some(event) => {
                            news.push((polls[i].source_id.clone(), event));
                            assert(told_views(news@) =~= told_views(seen).push(
                                (polls@[i as int].source_id@, event_of(status)),
                            ));
                        },
                        None => {},
                    }
                },
                None => {},
            }
            i = i + 1;
        }
        assert(polls@.take(polls@.len() as int) =~= polls@);
        MonitorAction::Tell(news)
    }

    fn on_handled(&mut self, outcome: Result<(), String>) -> (action: MonitorAction)
        requires
            old(self).wf(),
            old(self)@.phase == MonitorPhase::Handling,
        ensures
            final(self).wf(),
            (final(self)@, action@) == next_handler(after_handler(old(self)@, outcome)),
    {
        let ghost before = self@;
        let ghost errors = self.errors@;
        self.handled = self.handled + 1;
        match outcome {
            Ok(_) => {},
            Err(error) => {
                self.errors.push(error);
                assert(texts(self.errors@) =~= texts(errors).push(error@));
            },
        }
        assert(self@ == after_handler(before, outcome));
        self.go_to_next_handler()
    }

    /// Takes something that happened, and says what is to be done about it.
    pub fn handle(&mut self, event: MonitorEvent) -> (action: MonitorAction)
        requires
            old(self).wf(),
        ensures
            final(self).wf(),
            (final(self)@, action@) == monitored(old(self)@, event),
    {
        match (self.phase, event) {
            (MonitorPhase::Watching, MonitorEvent::Reported { all_finished }) => self.on_news(
                all_finished,
            ),
            (MonitorPhase::Watching, MonitorEvent::ReportsClosed) => {
                self.phase = MonitorPhase::Ended;
                MonitorAction::End
            },
            (MonitorPhase::Watching, MonitorEvent::Polled(polls)) => self.on_polled(polls),
            (MonitorPhase::Telling, MonitorEvent::Told { all_finished }) => self.on_news(
                all_finished,
            ),
            (MonitorPhase::Collecting, MonitorEvent::Collected) => self.go_to_next_handler(),
            (MonitorPhase::Handling, MonitorEvent::Handled(outcome)) => self.on_handled(outcome),
            _ => MonitorAction::Wait,
        }
    }
}

/// A monitor after handlers were called, each with what came of it.
pub open spec fn after_handlers(m: MonitorView, outcomes: Seq<Result<(), String>>) -> (
    MonitorView,
    MonitorActionView,
)
    decreases outcomes.len(),
{
    if outcomes.len() == 0 {
        monitored(m, MonitorEvent::Collected)
    } else {
        monitored(
            after_handlers(m, outcomes.drop_last()).0,
            MonitorEvent::Handled(outcomes.last()),
        )
    }
}

/// The messages of the outcomes that are failures.
pub open spec fn failures_among(outcomes: Seq<Result<(), String>>) -> Seq<Seq<char>>
    decreases outcomes.len(),
{
    if outcomes.len() == 0 {
        Seq::empty()
    } else {
        match outcomes.last() {
            Ok(_) => failures_among(outcomes.drop_last()),
            Err(error) => failures_among(outcomes.drop_last()).push(error@),
        }
    }
}

/// Every handler is called once, in order, whether or not others fail; the run then fails with
/// the messages of all that failed, or not at all.
pub proof fn lemma_every_handler_is_called(m: MonitorView, outcomes: Seq<Result<(), String>>)
    requires
        m.phase == MonitorPhase::Collecting,
        m.handled == 0,
        m.errors.len() == 0,
        outcomes.len() <= m.handler_count,
    ensures
        ({
            let (next, action) = after_handlers(m, outcomes);
            let failures = failures_among(outcomes);
            &&& next.handled == outcomes.len()
            &&& next.errors == failures
            &&& outcomes.len() < m.handler_count ==> action == MonitorActionView::Handle(
                outcomes.len(),
            )
            &&& outcomes.len() == m.handler_count ==> next.phase == MonitorPhase::Ended && action
                == if failures.len() == 0 {
                MonitorActionView::End
            } else {
                MonitorActionView::Fail(RunStatusView::Error(join(failures, "; "@)))
            }
        }),
{
    lemma_handlers_in_progress(m, outcomes);
}

proof fn lemma_handlers_in_progress(m: MonitorView, outcomes: Seq<Result<(), String>>)
    requires
        m.phase == MonitorPhase::Collecting,
        m.handled == 0,
        m.errors.len() == 0,
        outcomes.len() <= m.handler_count,
    ensures
        after_handlers(m, outcomes) == next_handler(
            MonitorView { handled: outcomes.len(), errors: failures_among(outcomes), ..m },
        ),
    decreases outcomes.len(),
{
    if outcomes.len() == 0 {
        assert(m.errors =~= Seq::empty());
    } else {
        lemma_handlers_in_progress(m, outcomes.drop_last());
    }
}

/// A source that was asked before and answers the same again is no news.
pub proof fn lemma_statuses_are_told_once(
    statuses: Map<Seq<char>, SourceChangeGeneratorStatus>,
    poll: SourcePoll,
)
    ensures
        news_of(statuses_after(statuses, seq![poll]), seq![poll]).len() == 0,
{
    let polls = seq![poll];
    let front = polls.drop_last();
    assert(front =~= Seq::empty());
    let after = statuses_after(statuses, polls);
    assert(statuses_after(statuses, front) == statuses);
    assert(statuses_after(after, front) == after);
    assert(news_of(after, front).len() == 0);
}

} // verus!
