//! What the monitor of a test run tells of sources, and when it calls the handlers.

use crate::sources::source_change_generators::SourceChangeGeneratorStatus;
use crate::test_run_completion::completion_monitor::{
    failures_among, monitored, news_of, statuses_after, MonitorActionView, MonitorEvent,
    MonitorPhase, MonitorView, SourcePoll,
};
use crate::test_run_host::{event_of, RunStatusView};
use crate::text::join;
use vstd::prelude::*;

verus! {

/// What is told of sources comes in the order in which they were asked, and what was told of
/// the first ones counts for the later ones. A source is told of exactly where it has a status,
/// and one other than the last that was known.
pub proof fn lemma_news_come_in_order(
    statuses: Map<Seq<char>, SourceChangeGeneratorStatus>,
    a: Seq<SourcePoll>,
    b: Seq<SourcePoll>,
    poll: SourcePoll,
)
    ensures
        statuses_after(statuses, a + b) == statuses_after(statuses_after(statuses, a), b),
        news_of(statuses, a + b) == news_of(statuses, a) + news_of(
            statuses_after(statuses, a),
            b,
        ),
        ({
            let known = statuses.contains_key(poll.source_id@);
            let told = news_of(statuses, seq![poll]);
            match poll.status {
                Some(status) => {
                    &&& statuses_after(statuses, seq![poll]) == statuses.insert(
                        poll.source_id@,
                        status,
                    )
                    &&& known && statuses[poll.source_id@] == status ==> told.len() == 0
                    &&& !(known && statuses[poll.source_id@] == status) ==> told.len() == 1
                        && told[0].0 == poll.source_id@ && told[0].1 == event_of(status)
                },
                None => told.len() == 0 && statuses_after(statuses, seq![poll]) == statuses,
            }
        }),
    decreases b.len(),
{
    reveal_with_fuel(news_of, 2);
    reveal_with_fuel(statuses_after, 2);
    assert(seq![poll].drop_last() =~= Seq::<SourcePoll>::empty());
    let between = statuses_after(statuses, a);
    if b.len() == 0 {
        assert(a + b =~= a);
        assert(news_of(statuses, a) + news_of(between, b) =~= news_of(statuses, a));
    } else {
        lemma_news_come_in_order(statuses, a, b.drop_last(), poll);
        assert((a + b).drop_last() =~= a + b.drop_last());
        assert((a + b).last() == b.last());
        assert(news_of(statuses, a + b) =~= news_of(statuses, a) + news_of(between, b));
    }
}

/// While the monitor watches, the first report that all components have finished, or the first
/// answer to what it told that says so, leads on to the outputs; otherwise it goes on watching.
pub proof fn lemma_completion_is_noticed(m: MonitorView, all_finished: bool)
    requires
        m.phase == MonitorPhase::Watching || m.phase == MonitorPhase::Telling,
    ensures
        ({
            let event = if m.phase == MonitorPhase::Watching {
                MonitorEvent::Reported { all_finished }
            } else {
                MonitorEvent::Told { all_finished }
            };
            let (next, action) = monitored(m, event);
            &&& all_finished ==> action == MonitorActionView::Collect && next.phase
                == MonitorPhase::Collecting
            &&& !all_finished ==> action == MonitorActionView::Wait && next.phase
                == MonitorPhase::Watching
            &&& next == MonitorView { phase: next.phase, ..m }
        }),
{
}

/// When no more reports will come, the monitor ends without calling any handler.
pub proof fn lemma_closed_reports_end_the_watch(m: MonitorView)
    requires
        m.phase == MonitorPhase::Watching,
    ensures
        ({
            let (next, action) = monitored(m, MonitorEvent::ReportsClosed);
            action == MonitorActionView::End && next == MonitorView {
                phase: MonitorPhase::Ended,
                ..m
            }
        }),
{
}

/// The sources that were asked are told of before the monitor watches on.
pub proof fn lemma_polls_are_told(m: MonitorView, polls: Vec<SourcePoll>)
    requires
        m.phase == MonitorPhase::Watching,
    ensures
        ({
            let (next, action) = monitored(m, MonitorEvent::Polled(polls));
            &&& action == MonitorActionView::Tell(news_of(m.statuses, polls@))
            &&& next.statuses == statuses_after(m.statuses, polls@)
            &&& next.phase == MonitorPhase::Telling
            &&& next.handled == m.handled
            &&& next.errors == m.errors
        }),
{
}

/// Once the last handler was called the monitor ends: with an error that joins what the failed
/// ones said, in their order, or with none where none failed.
pub proof fn lemma_failures_of_handlers_are_reported(m: MonitorView, outcome: Result<(), String>)
    requires
        m.phase == MonitorPhase::Handling,
        m.handled < m.handler_count,
    ensures
        ({
            let (next, action) = monitored(m, MonitorEvent::Handled(outcome));
            let errors = match outcome {
                Ok(_) => m.errors,
                Err(error) => m.errors.push(error@),
            };
            &&& next.handled == m.handled + 1
            &&& next.errors == errors
            &&& next.handled < m.handler_count ==> action == MonitorActionView::Handle(next.handled)
                && next.phase == MonitorPhase::Handling
            &&& next.handled == m.handler_count ==> next.phase == MonitorPhase::Ended && (
            errors.len() == 0 ==> action == MonitorActionView::End) && (errors.len() > 0 ==> action
                == MonitorActionView::Fail(RunStatusView::Error(join(errors, "; "@))))
        }),
{
}

/// The failures among outcomes keep their order: those of two lists put together are those of
/// the first, followed by those of the second.
pub proof fn lemma_failures_keep_their_order(
    a: Seq<Result<(), String>>,
    b: Seq<Result<(), String>>,
    outcome: Result<(), String>,
)
    ensures
        failures_among(a + b) == failures_among(a) + failures_among(b),
        failures_among(seq![outcome]) == (match outcome {
            Ok(_) => Seq::empty(),
            Err(error) => seq![error@],
        }),
    decreases b.len(),
{
    reveal_with_fuel(failures_among, 2);
    assert(seq![outcome].drop_last() =~= Seq::<Result<(), String>>::empty());
    if let Err(error) = outcome {
        assert(failures_among(seq![outcome]) =~= seq![error@]);
    }
    if b.len() == 0 {
        assert(a + b =~= a);
        assert(failures_among(a) + failures_among(b) =~= failures_among(a));
    } else {
        lemma_failures_keep_their_order(a, b.drop_last(), outcome);
        assert((a + b).drop_last() =~= a + b.drop_last());
        assert((a + b).last() == b.last());
        assert(failures_among(a + b) =~= failures_among(a) + failures_among(b));
    }
}

} // verus!
