//! What the events of a change stream carry, and what becomes of a command or a failure.

use crate::json::{Json, JsonView};
use crate::scripts::ChangeEventView;
use crate::sources::model_data_generators::change_stream::{
    after_change, after_change_failure, after_close, after_command, after_due, after_inserts,
    after_numbering, after_reset, after_update, bounded_interval, can_complete, detailed,
    external_of, failed, initial_stream, insert_events, is_due, refusal_message, scheduled_times,
    times_fit, ChangeStepView, CommandStep, ElementView, FailurePolicy, FollowUp, GeneratorCommand,
    GeneratorError, ModelUpdate, ScheduledChangeEventMessage, StreamSettingsView, StreamView,
};
use crate::sources::source_change_generators::SourceChangeGeneratorStatus;
use crate::test_repo_storage::models::TimeMode;
use crate::text::{contains_text, decimal};
use crate::text_laws::lemma_parts_are_contained;
use vstd::prelude::*;

verus! {

/// The event scheduled for a model's update carries the model's state before the update as its
/// before part and the state after it as its after part. It is an update of a node of the
/// stream's own source, numbered as the stream counts, made now and due at the next time; all
/// else in the stream stays as it is.
pub proof fn lemma_events_carry_the_update(s: StreamView, now_ns: u64, before: Json, after: Json)
    ensures
        ({
            let next = after_update(s, now_ns, ModelUpdate::Updated { before, after }).0;
            &&& next.next_event matches Some(event) && {
                &&& event.before == before@
                &&& event.after == after@
                &&& event.op == "u"@
                &&& event.table == "node"@
                &&& event.db == s.settings.test_source_id
                &&& event.lsn == s.event_seq_num
                &&& event.ts_ns == s.virtual_time_ns_next
                &&& event.reactivator_start_ns == now_ns
                &&& event.reactivator_end_ns == 0
            }
            &&& next == StreamView { next_event: next.next_event, ..s }
        }),
{
}

/// What a sink holds that takes over the after part of each event in turn.
pub open spec fn sink_state(start: JsonView, events: Seq<ChangeEventView>) -> JsonView {
    if events.len() == 0 {
        start
    } else {
        events.last().after
    }
}

/// What the model holds after so many of its updates.
pub open spec fn model_state(start: JsonView, updates: Seq<(Json, Json)>, n: int) -> JsonView {
    if n == 0 {
        start
    } else {
        updates[n - 1].1@
    }
}

/// A sink that takes over the after part of each event in turn holds the model's current state,
/// and before each event it holds what the event says was there before.
pub proof fn lemma_sinks_follow_the_model(
    start: JsonView,
    streams: Seq<StreamView>,
    times: Seq<u64>,
    updates: Seq<(Json, Json)>,
    events: Seq<ChangeEventView>,
)
    requires
        streams.len() == updates.len(),
        times.len() == updates.len(),
        events.len() == updates.len(),
        forall|i: int|
            0 <= i < updates.len() ==> (#[trigger] updates[i]).0@ == model_state(start, updates, i),
        forall|i: int|
            0 <= i < events.len() ==> Some(#[trigger] events[i]) == after_update(
                streams[i],
                times[i],
                ModelUpdate::Updated { before: updates[i].0, after: updates[i].1 },
            ).0.next_event,
    ensures
        sink_state(start, events) == model_state(start, updates, updates.len() as int),
        forall|i: int|
            0 <= i < events.len() ==> (#[trigger] events[i]).before == sink_state(
                start,
                events.take(i),
            ),
{
    assert forall|i: int| 0 <= i < events.len() implies (#[trigger] events[i]).before == sink_state(
        start,
        events.take(i),
    ) by {
        assert(updates[i].0@ == model_state(start, updates, i));
        if i > 0 {
            assert(events.take(i).last() == events[i - 1]);
        }
    }
    if events.len() > 0 {
        assert(events.last() == events[events.len() - 1]);
    }
}

/// A change that is due is dispatched, or skipped, as it was scheduled: only the time at which
/// that happens is added. The stream's time moves on to the time of the change.
pub proof fn lemma_due_events_are_the_scheduled_ones(s: StreamView, now_ns: u64)
    ensures
        ({
            let (next, step) = after_due(s, now_ns);
            let event = match step {
                ChangeStepView::Dispatch(event) => Some(event),
                ChangeStepView::Skip(event) => Some(event),
                _ => None,
            };
            &&& next.virtual_time_ns_current == s.virtual_time_ns_next
            &&& next.virtual_time_ns_next == s.virtual_time_ns_next
            &&& event matches Some(event) ==> {
                &&& s.next_event matches Some(scheduled) && event == ChangeEventView {
                    reactivator_end_ns: now_ns,
                    ..scheduled
                }
                &&& next.next_event == Some(event)
                &&& next.status == s.status
                &&& next.error_messages == s.error_messages
                &&& next.stats == s.stats
            }
            &&& s.next_event is Some && (s.status == SourceChangeGeneratorStatus::Running || (
            s.status == SourceChangeGeneratorStatus::Stepping && s.steps_remaining > 0)) ==> step
                is Dispatch
            &&& s.next_event is Some && s.status == SourceChangeGeneratorStatus::Skipping
                && s.skips_remaining > 0 ==> step is Skip
            &&& event is None ==> next.status == SourceChangeGeneratorStatus::Error
                && next.error_messages.len() == s.error_messages.len() + 1
                && next.error_messages.drop_last() == s.error_messages
        }),
{
    let (next, step) = after_due(s, now_ns);
    if !(step is Dispatch) && !(step is Skip) {
        assert(next.error_messages.drop_last() =~= s.error_messages);
    }
}

/// From its scheduling to its dispatch a change keeps both parts.
pub proof fn lemma_updates_reach_the_dispatchers(
    s: StreamView,
    scheduled_ns: u64,
    due_ns: u64,
    before: Json,
    after: Json,
)
    requires
        s.status == SourceChangeGeneratorStatus::Running,
    ensures
        ({
            let (next, r) = after_update(s, scheduled_ns, ModelUpdate::Updated { before, after });
            &&& r matches Ok(Some(message)) && is_due(next, message)
            &&& after_due(next, due_ns).1 matches ChangeStepView::Dispatch(event) && event.before
                == before@ && event.after == after@ && event.reactivator_start_ns == scheduled_ns
                && event.reactivator_end_ns == due_ns
        }),
{
}

/// A change that is complete is the one reported as the last processed, with its number and
/// with the status in which it was processed. The limit finishes the stream, and nothing else
/// does.
pub proof fn lemma_completed_changes_are_reported(
    s: StreamView,
    event: ChangeEventView,
    seq_num: u64,
    now_ns: u64,
)
    requires
        can_complete(s),
    ensures
        ({
            let (next, follow_up) = after_change(s, event, seq_num, now_ns);
            let done = s.stats.num_source_change_events + 1 >= s.settings.change_count;
            &&& next.previous_event matches Some(processed) && processed.event == event
                && processed.seq == seq_num && processed.dispatch_status == s.status
            &&& follow_up == if done {
                FollowUp::Close
            } else {
                FollowUp::Schedule
            }
            &&& next.status == SourceChangeGeneratorStatus::Finished <==> done
            &&& done ==> next.stats.actual_end_time_ns == now_ns
            &&& !done ==> next.stats.actual_end_time_ns == s.stats.actual_end_time_ns
            &&& next.stats.actual_start_time_ns == s.stats.actual_start_time_ns
            &&& next.stats.num_source_change_events == s.stats.num_source_change_events + 1
            &&& next.event_seq_num == s.event_seq_num + 1
            &&& next.settings == s.settings
            &&& next.error_messages == s.error_messages
            &&& next.next_event == s.next_event
            &&& next.virtual_time_ns_current == s.virtual_time_ns_current
            &&& next.virtual_time_ns_next == s.virtual_time_ns_next
        }),
{
}

/// The first change starts the stream's clock: now, or at the configured time. Any later one
/// moves it on by the interval from the time of the last change.
pub proof fn lemma_the_clock_starts_with_the_first_change(
    s: StreamView,
    now_ns: u64,
    interval: Option<u64>,
)
    requires
        times_fit(s, now_ns, interval),
    ensures
        ({
            let next = scheduled_times(s, now_ns, interval);
            &&& s.previous_event is None ==> {
                &&& next.stats.actual_start_time_ns == now_ns
                &&& next.virtual_time_ns_start == (match s.settings.time_mode {
                    TimeMode::Rebased(base_ns) => base_ns,
                    _ => now_ns,
                })
                &&& next.virtual_time_ns_current == next.virtual_time_ns_start
                &&& next.virtual_time_ns_next == next.virtual_time_ns_start
                &&& (next.virtual_time_ns_start - now_ns - next.virtual_time_ns_rebase_adjustment)
                    % 0x1_0000_0000_0000_0000 == 0
            }
            &&& s.previous_event is Some ==> {
                &&& interval matches Some(interval) && next.virtual_time_ns_next
                    == s.virtual_time_ns_current + interval
                &&& next.virtual_time_ns_current == s.virtual_time_ns_current
                &&& next.virtual_time_ns_start == s.virtual_time_ns_start
                &&& next.virtual_time_ns_rebase_adjustment == s.virtual_time_ns_rebase_adjustment
                &&& next.stats == s.stats
            }
            &&& next.stats.actual_end_time_ns == s.stats.actual_end_time_ns
            &&& next.next_event == s.next_event
            &&& next.previous_event == s.previous_event
        }),
{
}

/// An interval is the one drawn where that lies within its bounds, and else the bound that is
/// nearest to it.
pub proof fn lemma_intervals_stay_within_their_bounds(sample: u64, min: u64, max: u64)
    requires
        min <= max,
    ensures
        min <= bounded_interval(sample, min, max) <= max,
        min <= sample <= max ==> bounded_interval(sample, min, max) == sample,
        sample < min ==> bounded_interval(sample, min, max) == min,
        sample > max ==> bounded_interval(sample, min, max) == max,
{
}

/// Without an update of an element nothing is scheduled, and the reason is given.
pub proof fn lemma_other_model_changes_are_errors(s: StreamView, now_ns: u64, update: ModelUpdate)
    requires
        !(update is Updated),
    ensures
        after_update(s, now_ns, update).0 == s,
        after_update(s, now_ns, update).1 is Err,
        update matches ModelUpdate::Failed(error) ==> after_update(s, now_ns, update).1->Err_0
            == error@,
{
}

/// Pausing a stream that has not come to an end pauses it, with nothing left to step or skip
/// of what it was at. Nothing else changes.
pub proof fn lemma_pause_pauses(s: StreamView, now_ns: u64)
    requires
        !s.status.terminal(),
    ensures
        ({
            let (next, step) = after_command(s, GeneratorCommand::Pause, now_ns);
            &&& step == CommandStep::Done
            &&& next.status == SourceChangeGeneratorStatus::Paused
            &&& s.status == SourceChangeGeneratorStatus::Stepping ==> next.steps_remaining == 0
            &&& s.status != SourceChangeGeneratorStatus::Stepping ==> next.steps_remaining
                == s.steps_remaining
            &&& s.status == SourceChangeGeneratorStatus::Skipping ==> next.skips_remaining == 0
            &&& s.status != SourceChangeGeneratorStatus::Skipping ==> next.skips_remaining
                == s.skips_remaining
            &&& next == StreamView {
                status: next.status,
                steps_remaining: next.steps_remaining,
                skips_remaining: next.skips_remaining,
                ..s
            }
        }),
{
}

/// Stopping a stream that has not come to an end stops it at that time, with nothing left to
/// step or skip, and its dispatchers are closed. Nothing else changes.
pub proof fn lemma_stop_stops(s: StreamView, now_ns: u64)
    requires
        !s.status.terminal(),
    ensures
        ({
            let (next, step) = after_command(s, GeneratorCommand::Stop, now_ns);
            &&& step == CommandStep::Close
            &&& next.status == SourceChangeGeneratorStatus::Stopped
            &&& next.steps_remaining == 0
            &&& next.skips_remaining == 0
            &&& next.stats.actual_end_time_ns == now_ns
            &&& next.stats.actual_start_time_ns == s.stats.actual_start_time_ns
            &&& next.stats.num_source_change_events == s.stats.num_source_change_events
            &&& next.stats.num_skipped_source_change_events
                == s.stats.num_skipped_source_change_events
            &&& next == StreamView {
                status: next.status,
                steps_remaining: 0,
                skips_remaining: 0,
                stats: next.stats,
                ..s
            }
        }),
{
}

/// Only a paused stream is set going: by a start, which first inserts what the model holds
/// where that is configured, by so many steps or by so many skips. Whatever else it is at, the
/// command is refused with what stands in its way; starting a running stream changes nothing.
pub proof fn lemma_only_paused_streams_are_set_going(
    s: StreamView,
    command: GeneratorCommand,
    now_ns: u64,
)
    requires
        command is Start || command is Step || command is Skip,
    ensures
        ({
            let (next, step) = after_command(s, command, now_ns);
            match s.status {
                SourceChangeGeneratorStatus::Paused => {
                    &&& next == StreamView {
                        status: next.status,
                        steps_remaining: next.steps_remaining,
                        skips_remaining: next.skips_remaining,
                        ..s
                    }
                    &&& match command {
                        GeneratorCommand::Step { steps, .. } => next.status
                            == SourceChangeGeneratorStatus::Stepping && next.steps_remaining
                            == steps && next.skips_remaining == s.skips_remaining && step
                            == CommandStep::Schedule,
                        GeneratorCommand::Skip { skips, .. } => next.status
                            == SourceChangeGeneratorStatus::Skipping && next.skips_remaining
                            == skips && next.steps_remaining == s.steps_remaining && step
                            == CommandStep::Schedule,
                        _ => next.status == SourceChangeGeneratorStatus::Running
                            && next.steps_remaining == s.steps_remaining && next.skips_remaining
                            == s.skips_remaining && (s.settings.send_initial_inserts ==> step
                            == CommandStep::SendInitialInserts) && (
                        !s.settings.send_initial_inserts ==> step == CommandStep::Schedule),
                    }
                },
                SourceChangeGeneratorStatus::Running => next == s && (match command {
                    GeneratorCommand::Step { .. } => step == CommandStep::Refuse(
                        GeneratorError::PauseToStep,
                    ),
                    GeneratorCommand::Skip { .. } => step == CommandStep::Refuse(
                        GeneratorError::PauseToSkip,
                    ),
                    _ => step == CommandStep::Done,
                }),
                SourceChangeGeneratorStatus::Stepping => next == s && step == CommandStep::Refuse(
                    GeneratorError::CurrentlyStepping(s.steps_remaining),
                ),
                SourceChangeGeneratorStatus::Skipping => next == s && step == CommandStep::Refuse(
                    GeneratorError::CurrentlySkipping(s.skips_remaining),
                ),
                SourceChangeGeneratorStatus::Stopped => next == s && step == CommandStep::Refuse(
                    GeneratorError::AlreadyStopped,
                ),
                SourceChangeGeneratorStatus::Finished => next == s && step == CommandStep::Refuse(
                    GeneratorError::AlreadyFinished,
                ),
                SourceChangeGeneratorStatus::Error => next == s && step == CommandStep::Refuse(
                    GeneratorError::Error(SourceChangeGeneratorStatus::Error),
                ),
            }
        }),
{
}

/// A stream is built anew only at rest: while it works, a reset is refused with what it is at.
/// The reset itself changes nothing before the dispatchers and the model are there again.
pub proof fn lemma_resets_need_rest(s: StreamView, now_ns: u64)
    ensures
        after_command(s, GeneratorCommand::Reset, now_ns).0 == s,
        after_command(s, GeneratorCommand::Reset, now_ns).1 == (match s.status {
            SourceChangeGeneratorStatus::Running => CommandStep::Refuse(
                GeneratorError::PauseToReset,
            ),
            SourceChangeGeneratorStatus::Stepping => CommandStep::Refuse(
                GeneratorError::CurrentlyStepping(s.steps_remaining),
            ),
            SourceChangeGeneratorStatus::Skipping => CommandStep::Refuse(
                GeneratorError::CurrentlySkipping(s.skips_remaining),
            ),
            _ => CommandStep::Rebuild,
        }),
{
}

/// Pausing or stopping a stream that has come to an end is refused, with the end that it has
/// come to.
pub proof fn lemma_ended_streams_refuse(s: StreamView, command: GeneratorCommand, now_ns: u64)
    requires
        s.status.terminal(),
        command is Pause || command is Stop,
    ensures
        after_command(s, command, now_ns) == (
            s,
            CommandStep::Refuse(
                match s.status {
                    SourceChangeGeneratorStatus::Stopped => GeneratorError::AlreadyStopped,
                    SourceChangeGeneratorStatus::Finished => GeneratorError::AlreadyFinished,
                    _ => GeneratorError::Error(SourceChangeGeneratorStatus::Error),
                },
            ),
        ),
{
}

/// The test run host is handed on in every status, and that changes nothing.
pub proof fn lemma_the_host_is_always_handed_on(s: StreamView, now_ns: u64)
    ensures
        after_command(s, GeneratorCommand::SetTestRunHost, now_ns) == (
            s,
            CommandStep::ConfigureDispatchers,
        ),
{
}

/// A failure puts the stream into the error status and adds its message behind the earlier
/// ones. Nothing else changes.
pub proof fn lemma_failures_are_kept(s: StreamView, message: Seq<char>, detail: Seq<char>)
    ensures
        ({
            let next = failed(s, detailed(message, detail));
            &&& next.status == SourceChangeGeneratorStatus::Error
            &&& next.error_messages.len() == s.error_messages.len() + 1
            &&& next.error_messages.drop_last() == s.error_messages
            &&& next.error_messages.last().take(message.len() as int) == message
            &&& next.error_messages.last().skip(message.len() as int) == ": "@ + detail
            &&& next == StreamView {
                status: next.status,
                error_messages: next.error_messages,
                ..s
            }
        }),
{
    let next = failed(s, detailed(message, detail));
    assert(next.error_messages.drop_last() =~= s.error_messages);
    assert(next.error_messages.last().take(message.len() as int) =~= message);
    assert(next.error_messages.last().skip(message.len() as int) =~= ": "@ + detail);
}

/// Where failures of dispatchers are passed over, closing, inserting and resetting go on as if
/// all had gone well; where they are reported, the failure is the answer, and nothing that
/// failed is counted.
pub proof fn lemma_failures_of_dispatchers(
    s: StreamView,
    outcome: Result<(), String>,
    count: nat,
)
    requires
        s.stats.num_source_change_events + count <= u64::MAX,
    ensures
        ({
            let counts = outcome is Err && s.settings.failures == FailurePolicy::Report;
            let (closed, close_answer) = after_close(s, outcome);
            let (inserted, insert_answer) = after_inserts(s, count, outcome);
            let (reset, reset_answer) = after_reset(s, outcome, Ok(()));
            &&& !counts ==> {
                &&& closed == s
                &&& close_answer is Ok
                &&& insert_answer is Ok
                &&& inserted.stats.num_source_change_events == s.stats.num_source_change_events
                    + count
                &&& inserted.stats.num_skipped_source_change_events
                    == s.stats.num_skipped_source_change_events
                &&& inserted == StreamView { stats: inserted.stats, ..s }
                &&& reset_answer is Ok
                &&& reset == initial_stream(s.settings)
            }
            &&& counts ==> {
                &&& close_answer == Err::<(), Seq<char>>(outcome->Err_0@)
                &&& insert_answer == Err::<(), Seq<char>>(outcome->Err_0@)
                &&& reset_answer == Err::<(), Seq<char>>(outcome->Err_0@)
                &&& closed.status == SourceChangeGeneratorStatus::Error
                &&& inserted.status == SourceChangeGeneratorStatus::Error
                &&& closed.stats == s.stats
                &&& inserted.stats == s.stats
                &&& closed.error_messages == s.error_messages.push(
                    "Failed to close source dispatchers"@ + ": "@ + outcome->Err_0@,
                )
                &&& inserted.error_messages == s.error_messages.push(
                    "Failed to send initial inserts"@ + ": "@ + outcome->Err_0@,
                )
                &&& reset == s
            }
        }),
{
}

/// A reset whose dispatchers or model cannot be built leaves the stream as it is, and the
/// failure is the answer.
pub proof fn lemma_failed_resets_change_nothing(
    s: StreamView,
    closed: Result<(), String>,
    rebuilt: Result<(), String>,
)
    requires
        closed is Ok,
        rebuilt is Err,
    ensures
        after_reset(s, closed, rebuilt) == (s, Err::<(), Seq<char>>(rebuilt->Err_0@)),
{
}

/// A change that fails puts the stream into the error status; its message is added unless the
/// failure was reported before.
pub proof fn lemma_failed_changes(s: StreamView, detail: Seq<char>)
    ensures
        ({
            let next = after_change_failure(s, detail);
            &&& next.status == SourceChangeGeneratorStatus::Error
            &&& next == StreamView {
                status: next.status,
                error_messages: next.error_messages,
                ..s
            }
            &&& if s.settings.failures == FailurePolicy::Report && s.status
                == SourceChangeGeneratorStatus::Error {
                next.error_messages == s.error_messages
            } else {
                next.error_messages == s.error_messages.push(
                    "Error calling process_change_stream_message"@ + ": "@ + detail,
                )
            }
        }),
{
}

/// A new stream is paused, has processed nothing and has nothing to process.
pub proof fn lemma_new_streams_are_at_rest(settings: StreamSettingsView)
    ensures
        ({
            let s = initial_stream(settings);
            &&& s.settings == settings
            &&& s.status == SourceChangeGeneratorStatus::Paused
            &&& s.error_messages.len() == 0
            &&& s.next_event is None
            &&& s.previous_event is None
            &&& s.event_seq_num == 0
            &&& s.steps_remaining == 0
            &&& s.skips_remaining == 0
            &&& s.stats.num_source_change_events == 0
            &&& s.stats.num_skipped_source_change_events == 0
            &&& s.stats.actual_start_time_ns == 0
            &&& s.stats.actual_end_time_ns == 0
            &&& s.virtual_time_ns_current == 0
            &&& s.virtual_time_ns_next == 0
            &&& s.virtual_time_ns_start == 0
            &&& s.virtual_time_ns_rebase_adjustment == 0
        }),
{
}

/// The first inserts carry the listed elements one by one, in their order: each as the after
/// part of its own event, with nothing before it, and a relation as a relation.
pub proof fn lemma_inserts_carry_the_elements(
    s: StreamView,
    now_ns: u64,
    elements: Seq<ElementView>,
)
    requires
        s.event_seq_num + elements.len() <= u64::MAX,
    ensures
        insert_events(s, now_ns, elements).len() == elements.len(),
        forall|i: int|
            0 <= i < elements.len() ==> {
                let event = #[trigger] insert_events(s, now_ns, elements)[i];
                &&& event.op == "i"@
                &&& event.after == elements[i].after
                &&& event.before is Null
                &&& event.table == if elements[i].is_relation {
                    "relation"@
                } else {
                    "node"@
                }
                &&& event.db == s.settings.test_source_id
                &&& event.lsn == s.event_seq_num + i
                &&& event.ts_ns == s.virtual_time_ns_current
                &&& event.reactivator_start_ns == now_ns
                &&& event.reactivator_end_ns == 0
            },
        after_numbering(s, elements.len()) == (StreamView {
            event_seq_num: (s.event_seq_num + elements.len()) as u64,
            ..s
        }),
{
}

/// The state that is reported is the stream's own, item by item.
pub proof fn lemma_reports_are_faithful(s: StreamView)
    ensures
        external_of(s).error_messages == s.error_messages,
        external_of(s).event_seq_num == s.event_seq_num,
        external_of(s).next_event == s.next_event,
        external_of(s).previous_event == s.previous_event,
        external_of(s).skips_remaining == s.skips_remaining,
        external_of(s).steps_remaining == s.steps_remaining,
        external_of(s).spacing_mode == s.settings.spacing_mode,
        external_of(s).time_mode == s.settings.time_mode,
        external_of(s).test_run_source_id == s.settings.test_run_source_id,
        external_of(s).stats == s.stats,
        external_of(s).status == s.status,
        external_of(s).virtual_time_ns_current == s.virtual_time_ns_current,
        external_of(s).virtual_time_ns_next == s.virtual_time_ns_next,
        external_of(s).virtual_time_ns_rebase_adjustment == s.virtual_time_ns_rebase_adjustment,
        external_of(s).virtual_time_ns_start == s.virtual_time_ns_start,
{
}

/// A message is due exactly where it bears the number of the next change and the stream is at
/// work. One for another change is not.
pub proof fn lemma_only_the_next_change_is_due(s: StreamView, message: ScheduledChangeEventMessage)
    ensures
        is_due(s, message) <==> message.seq_num == s.event_seq_num && (s.status
            == SourceChangeGeneratorStatus::Running || s.status
            == SourceChangeGeneratorStatus::Stepping || s.status
            == SourceChangeGeneratorStatus::Skipping),
{
}

/// A refusal names the generator and says what stands in the way; while it steps or skips, with
/// the number that remains.
pub proof fn lemma_refusals_say_why(name: Seq<char>, error: GeneratorError, n: u64)
    ensures
        refusal_message(name, error).take(name.len() as int) == name,
        error == GeneratorError::CurrentlySkipping(n) ==> contains_text(
            refusal_message(name, error),
            " is currently Skipping. "@ + decimal(n as nat) + " skips remaining."@,
        ),
        error == GeneratorError::CurrentlyStepping(n) ==> contains_text(
            refusal_message(name, error),
            " is currently Stepping. "@ + decimal(n as nat) + " steps remaining."@,
        ),
        error == GeneratorError::AlreadyFinished ==> contains_text(
            refusal_message(name, error),
            " is already finished. "@,
        ),
        error == GeneratorError::AlreadyStopped ==> contains_text(
            refusal_message(name, error),
            " is already stopped. "@,
        ),
        error == GeneratorError::PauseToSkip ==> contains_text(
            refusal_message(name, error),
            "Pause before trying to Skip."@,
        ),
        error == GeneratorError::PauseToStep ==> contains_text(
            refusal_message(name, error),
            "Pause before trying to Step."@,
        ),
        error == GeneratorError::PauseToReset ==> contains_text(
            refusal_message(name, error),
            "Pause before trying to Reset."@,
        ),
{
    let message = refusal_message(name, error);
    let none = Seq::<char>::empty();
    assert(message.take(name.len() as int) =~= name);
    match error {
        GeneratorError::CurrentlySkipping(skips) => {
            reveal_strlit(" skips remaining.");
            reveal_strlit(" skips remaining. Pause before Skip, Step, or Reset.");
            let part = " is currently Skipping. "@ + decimal(skips as nat) + " skips remaining."@;
            let rest = " skips remaining. Pause before Skip, Step, or Reset."@.skip(17);
            assert(message =~= name + part + rest);
            lemma_parts_are_contained(name, part, rest);
        },
        GeneratorError::CurrentlyStepping(steps) => {
            reveal_strlit(" steps remaining.");
            reveal_strlit(" steps remaining. Pause before Skip, Step, or Reset.");
            let part = " is currently Stepping. "@ + decimal(steps as nat) + " steps remaining."@;
            let rest = " steps remaining. Pause before Skip, Step, or Reset."@.skip(17);
            assert(message =~= name + part + rest);
            lemma_parts_are_contained(name, part, rest);
        },
        GeneratorError::AlreadyFinished => {
            reveal_strlit(" is already finished. ");
            reveal_strlit(" is already finished. Reset to start over.");
            let part = " is already finished. "@;
            let rest = " is already finished. Reset to start over."@.skip(part.len() as int);
            assert(message =~= name + part + rest);
            lemma_parts_are_contained(name, part, rest);
        },
        GeneratorError::AlreadyStopped => {
            reveal_strlit(" is already stopped. ");
            reveal_strlit(" is already stopped. Reset to start over.");
            let part = " is already stopped. "@;
            let rest = " is already stopped. Reset to start over."@.skip(part.len() as int);
            assert(message =~= name + part + rest);
            lemma_parts_are_contained(name, part, rest);
        },
        GeneratorError::PauseToSkip => {
            reveal_strlit(" is currently Running. Pause before trying to Skip.");
            reveal_strlit("Pause before trying to Skip.");
            let front = name + " is currently Running. Pause before trying to Skip."@.take(23);
            assert(message =~= front + "Pause before trying to Skip."@ + none);
            lemma_parts_are_contained(front, "Pause before trying to Skip."@, none);
        },
        GeneratorError::PauseToStep => {
            reveal_strlit(" is currently Running. Pause before trying to Step.");
            reveal_strlit("Pause before trying to Step.");
            let front = name + " is currently Running. Pause before trying to Step."@.take(23);
            assert(message =~= front + "Pause before trying to Step."@ + none);
            lemma_parts_are_contained(front, "Pause before trying to Step."@, none);
        },
        GeneratorError::PauseToReset => {
            reveal_strlit(" is currently Running. Pause before trying to Reset.");
            reveal_strlit("Pause before trying to Reset.");
            let front = name + " is currently Running. Pause before trying to Reset."@.take(23);
            assert(message =~= front + "Pause before trying to Reset."@ + none);
            lemma_parts_are_contained(front, "Pause before trying to Reset."@, none);
        },
        _ => {},
    }
}

/// A change can be scheduled exactly where the numbers have room: an interval comes with every
/// change but the first, the next time must be within range, and so must the shift to the
/// configured time.
pub proof fn lemma_when_changes_can_be_scheduled(
    s: StreamView,
    now_ns: u64,
    interval: Option<u64>,
)
    ensures
        s.previous_event is Some && interval is Some ==> times_fit(s, now_ns, interval) == (
        s.virtual_time_ns_current + interval->0 <= u64::MAX),
        s.previous_event is None && interval is None && !(s.settings.time_mode is Rebased)
            ==> times_fit(s, now_ns, interval),
        s.previous_event is None && interval is None && now_ns <= i64::MAX && (
        s.settings.time_mode matches TimeMode::Rebased(base) && base <= i64::MAX) ==> times_fit(
            s,
            now_ns,
            interval,
        ),
        s.previous_event is Some != interval is Some ==> !times_fit(s, now_ns, interval),
{
}

/// A change can be completed exactly while the stream is at work, with a step or a skip left
/// where it counts them, and while its counters have room.
pub proof fn lemma_when_changes_can_be_completed(s: StreamView)
    ensures
        can_complete(s) <==> {
            &&& s.event_seq_num < u64::MAX
            &&& s.stats.num_source_change_events < u64::MAX
            &&& match s.status {
                SourceChangeGeneratorStatus::Running => true,
                SourceChangeGeneratorStatus::Stepping => s.steps_remaining > 0,
                SourceChangeGeneratorStatus::Skipping => s.skips_remaining > 0,
                _ => false,
            }
        },
{
}

} // verus!
