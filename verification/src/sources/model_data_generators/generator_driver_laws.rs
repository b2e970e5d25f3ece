//! How a generator goes about a command or a change, from its beginning to its end.

use crate::json::Json;
use crate::sources::model_data_generators::change_stream::{
    after_command, can_complete, element_views, initial_stream, times_fit, ElementInsert,
    FailurePolicy, GeneratorCommand, ModelUpdate, ScheduledChangeEventMessage,
};
use crate::sources::model_data_generators::generator_driver::{
    step, ActionView, DriverView, GeneratorEvent, PhaseView, ReplyView,
};
use crate::sources::source_change_generators::SourceChangeGeneratorStatus;
use vstd::prelude::*;

verus! {

/// What the model comes up with is sent to be due and, when it is due, dispatched by itself:
/// with the model's state before and after, and with the times at which it was made and
/// dispatched. Once dispatched, it counts as processed; the dispatchers are closed where the
/// limit is reached, and else the next change is scheduled.
pub proof fn lemma_a_change_from_model_to_dispatch(
    d: DriverView,
    made_ns: u64,
    sent_ns: u64,
    due_ns: u64,
    done_ns: u64,
    before: Json,
    after: Json,
)
    requires
        d.phase == (PhaseView::Generating { now_ns: made_ns }),
        d.stream.wf(),
        can_complete(d.stream),
        d.stream.status != SourceChangeGeneratorStatus::Skipping,
    ensures
        ({
            let made = GeneratorEvent::ModelUpdated(ModelUpdate::Updated { before, after });
            let (sending, send) = step(d, made, sent_ns);
            let (idle, answer) = step(sending, GeneratorEvent::Sent(Ok(())), sent_ns);
            &&& send matches ActionView::Send(message) && {
                &&& message.seq_num == d.stream.event_seq_num
                &&& message.delay_ns == d.stream.virtual_time_ns_next
                    - d.stream.virtual_time_ns_current
                &&& idle.phase is Idle
                &&& answer == if d.replying {
                    ActionView::Reply(ReplyView::Done)
                } else {
                    ActionView::Wait
                }
                &&& {
                    let (busy, dispatch) = step(idle, GeneratorEvent::ChangeDue(message), due_ns);
                    let (last, follow_up) = step(
                        busy,
                        GeneratorEvent::Dispatched(Ok(())),
                        done_ns,
                    );
                    &&& dispatch matches ActionView::Dispatch(events) && events.len() == 1 && {
                        &&& events[0].op == "u"@
                        &&& events[0].before == before@
                        &&& events[0].after == after@
                        &&& events[0].lsn == message.seq_num
                        &&& events[0].ts_ns == d.stream.virtual_time_ns_next
                        &&& events[0].reactivator_start_ns == made_ns
                        &&& events[0].reactivator_end_ns == due_ns
                        &&& last.stream.previous_event matches Some(processed) && processed.event
                            == events[0] && processed.seq == message.seq_num
                    }
                    &&& last.stream.stats.num_source_change_events
                        == d.stream.stats.num_source_change_events + 1
                    &&& last.stream.virtual_time_ns_current == d.stream.virtual_time_ns_next
                    &&& follow_up == if d.stream.stats.num_source_change_events + 1
                        >= d.stream.settings.change_count {
                        ActionView::Close
                    } else {
                        ActionView::AwaitRate
                    }
                }
            }
        }),
{
}

/// A change that is skipped is never dispatched, but counts as processed and as skipped.
pub proof fn lemma_skipped_changes_count(
    d: DriverView,
    message: ScheduledChangeEventMessage,
    now_ns: u64,
)
    requires
        d.phase is Idle,
        d.stream.wf(),
        can_complete(d.stream),
        d.stream.status == SourceChangeGeneratorStatus::Skipping,
        d.stream.next_event is Some,
        message.seq_num == d.stream.event_seq_num,
    ensures
        ({
            let (next, action) = step(d, GeneratorEvent::ChangeDue(message), now_ns);
            &&& action == if d.stream.stats.num_source_change_events + 1
                >= d.stream.settings.change_count {
                ActionView::Close
            } else {
                ActionView::AwaitRate
            }
            &&& next.stream.stats.num_source_change_events
                == d.stream.stats.num_source_change_events + 1
            &&& next.stream.stats.num_skipped_source_change_events
                == d.stream.stats.num_skipped_source_change_events + 1
        }),
{
}

/// A change whose time has passed, or that comes while the stream rests, is dropped.
pub proof fn lemma_stale_changes_are_dropped(
    d: DriverView,
    message: ScheduledChangeEventMessage,
    now_ns: u64,
)
    requires
        d.phase is Idle,
        message.seq_num != d.stream.event_seq_num || !(d.stream.status
            == SourceChangeGeneratorStatus::Running || d.stream.status
            == SourceChangeGeneratorStatus::Stepping || d.stream.status
            == SourceChangeGeneratorStatus::Skipping),
    ensures
        step(d, GeneratorEvent::ChangeDue(message), now_ns) == (d, ActionView::Wait),
{
}

/// Starting a stream that inserts what the model holds lists the elements, dispatches all of
/// them in one list, each as the after part of its own insert, and only then schedules the
/// first change. The elements count as changes.
pub proof fn lemma_first_inserts_come_before_changes(
    d: DriverView,
    elements: Vec<ElementInsert>,
    now_ns: u64,
    listed_ns: u64,
)
    requires
        d.phase is Idle,
        d.stream.status == SourceChangeGeneratorStatus::Paused,
        d.stream.settings.send_initial_inserts,
        d.stream.event_seq_num + elements@.len() <= u64::MAX,
        d.stream.stats.num_source_change_events + elements@.len() <= u64::MAX,
        elements@.len() > 0,
    ensures
        ({
            let (listing, list) = step(d, GeneratorEvent::Command(GeneratorCommand::Start), now_ns);
            let (busy, dispatch) = step(
                listing,
                GeneratorEvent::ElementsListed(elements),
                listed_ns,
            );
            let (next, action) = step(busy, GeneratorEvent::Dispatched(Ok(())), listed_ns);
            &&& list == ActionView::ListElements
            &&& dispatch matches ActionView::Dispatch(events) && events.len() == elements@.len()
                && forall|i: int|
                0 <= i < elements@.len() ==> (#[trigger] events[i]).after == elements@[i].after@
                    && events[i].op == "i"@ && events[i].before is Null && events[i].lsn
                    == d.stream.event_seq_num + i
            &&& action == ActionView::AwaitRate
            &&& next.stream.stats.num_source_change_events
                == d.stream.stats.num_source_change_events + elements@.len()
            &&& next.stream.event_seq_num == d.stream.event_seq_num + elements@.len()
            &&& next.stream.status == SourceChangeGeneratorStatus::Running
            &&& next.replying
        }),
{
    let (listing, list) = step(d, GeneratorEvent::Command(GeneratorCommand::Start), now_ns);
    let (busy, dispatch) = step(listing, GeneratorEvent::ElementsListed(elements), listed_ns);
    let events = dispatch->Dispatch_0;
    assert forall|i: int| 0 <= i < elements@.len() implies (#[trigger] events[i]).after
        == elements@[i].after@ by {
        assert(element_views(elements@)[i] == elements@[i]@);
    }
}

/// Without elements to insert the first change is scheduled at once.
pub proof fn lemma_nothing_to_insert(
    d: DriverView,
    elements: Vec<ElementInsert>,
    now_ns: u64,
)
    requires
        d.phase is ListingElements,
        elements@.len() == 0,
    ensures
        step(d, GeneratorEvent::ElementsListed(elements), now_ns).1 == ActionView::AwaitRate,
        step(d, GeneratorEvent::ElementsListed(elements), now_ns).0.stream == d.stream,
{
}

/// Once the rate allows it, the first change is asked of the model at once and any later one
/// after an interval was drawn; the model is asked for the time at which the change is due.
pub proof fn lemma_intervals_come_between_changes(
    d: DriverView,
    now_ns: u64,
    drawn_ns: u64,
    interval: u64,
)
    requires
        d.phase is AwaitingRate,
        d.stream.previous_event is None ==> times_fit(d.stream, now_ns, None),
        d.stream.previous_event is Some ==> d.stream.virtual_time_ns_current + interval <= u64::MAX,
    ensures
        ({
            let (next, action) = step(d, GeneratorEvent::RateReady, now_ns);
            if d.stream.previous_event is None {
                &&& action == ActionView::GenerateUpdate(next.stream.virtual_time_ns_next)
                &&& next.phase == PhaseView::Generating { now_ns }
                &&& next.stream.virtual_time_ns_next == next.stream.virtual_time_ns_start
                &&& next.stream.stats.actual_start_time_ns == now_ns
            } else {
                let (later, generate) = step(
                    next,
                    GeneratorEvent::IntervalDrawn(interval),
                    drawn_ns,
                );
                &&& action == ActionView::DrawInterval
                &&& next.stream == d.stream
                &&& later.phase == PhaseView::Generating { now_ns }
                &&& later.stream.virtual_time_ns_next == d.stream.virtual_time_ns_current + interval
                &&& generate == ActionView::GenerateUpdate(later.stream.virtual_time_ns_next)
            }
        }),
{
}

/// A reset closes the dispatchers, builds them and the model anew and answers that it is done;
/// the stream is then as it was before it ever started.
pub proof fn lemma_resets_lead_to_the_start(d: DriverView, now_ns: u64)
    requires
        d.phase is Idle,
        d.stream.status == SourceChangeGeneratorStatus::Paused || d.stream.status.terminal(),
    ensures
        ({
            let (closing, close) = step(
                d,
                GeneratorEvent::Command(GeneratorCommand::Reset),
                now_ns,
            );
            let (building, build) = step(closing, GeneratorEvent::Closed(Ok(())), now_ns);
            let (next, answer) = step(building, GeneratorEvent::Rebuilt(Ok(())), now_ns);
            &&& close == ActionView::CloseToRebuild
            &&& build == ActionView::Rebuild
            &&& answer == ActionView::Reply(ReplyView::Done)
            &&& next.phase is Idle
            &&& next.stream == initial_stream(d.stream.settings)
        }),
{
}

/// Stopping closes the dispatchers and then answers; the stream is stopped at that time.
pub proof fn lemma_stopping_closes(d: DriverView, now_ns: u64)
    requires
        d.phase is Idle,
        !d.stream.status.terminal(),
    ensures
        ({
            let (closing, close) = step(d, GeneratorEvent::Command(GeneratorCommand::Stop), now_ns);
            let (next, answer) = step(closing, GeneratorEvent::Closed(Ok(())), now_ns);
            &&& close == ActionView::Close
            &&& answer == ActionView::Reply(ReplyView::Done)
            &&& next.phase is Idle
            &&& next.stream.status == SourceChangeGeneratorStatus::Stopped
            &&& next.stream.stats.actual_end_time_ns == now_ns
            &&& next.stream.stats.num_source_change_events
                == d.stream.stats.num_source_change_events
        }),
{
}

/// A refused command is answered with its refusal, and nothing is done.
pub proof fn lemma_refusals_are_answered(d: DriverView, command: GeneratorCommand, now_ns: u64)
    requires
        d.phase is Idle,
        !d.replying,
        after_command(d.stream, command, now_ns).1 is Refuse,
    ensures
        step(d, GeneratorEvent::Command(command), now_ns) == (
            d,
            ActionView::Reply(
                ReplyView::Refused(after_command(d.stream, command, now_ns).1->Refuse_0),
            ),
        ),
{
}

/// A change that a dispatcher could not take counts only where such failures are passed over;
/// where they are reported, it is not counted, and the stream is in the error status unless a
/// command waits for the answer.
pub proof fn lemma_failed_dispatches(d: DriverView, detail: String, now_ns: u64)
    requires
        d.phase is DispatchingChange,
        d.stream.wf(),
        can_complete(d.stream),
    ensures
        ({
            let (next, action) = step(d, GeneratorEvent::Dispatched(Err(detail)), now_ns);
            if d.stream.settings.failures == FailurePolicy::Report {
                &&& next.phase is Idle
                &&& next.stream.stats == d.stream.stats
                &&& next.stream.previous_event == d.stream.previous_event
                &&& d.replying ==> action == ActionView::Reply(ReplyView::Failed(detail@))
                &&& !d.replying ==> action == ActionView::Wait && next.stream.status
                    == SourceChangeGeneratorStatus::Error
            } else {
                next == step(d, GeneratorEvent::Dispatched(Ok(())), now_ns).0 && action == step(
                    d,
                    GeneratorEvent::Dispatched(Ok(())),
                    now_ns,
                ).1
            }
        }),
{
}

/// When no more commands or no more changes will come, the generator stops working, in the
/// error status.
pub proof fn lemma_closed_channels_end_the_work(d: DriverView, event: GeneratorEvent, now_ns: u64)
    requires
        d.phase is Idle,
        event is CommandsClosed || event is ChangesClosed,
    ensures
        step(d, event, now_ns).1 == ActionView::Exit,
        step(d, event, now_ns).0.stream.status == SourceChangeGeneratorStatus::Error,
        step(d, event, now_ns).0.stream.error_messages == d.stream.error_messages.push(
            if event is CommandsClosed {
                "Command channel closed."@
            } else {
                "Change stream channel closed."@
            },
        ),
{
}

/// There is no going on only where a number has outgrown its type: the counters of a change or
/// of the first inserts, or the next time.
pub proof fn lemma_overflow_means_outgrown_numbers(
    d: DriverView,
    event: GeneratorEvent,
    now_ns: u64,
)
    requires
        step(d, event, now_ns).1 is Overflow,
    ensures
        step(d, event, now_ns).0.stream.stats.num_source_change_events
            == d.stream.stats.num_source_change_events,
        match (d.phase, event) {
            (PhaseView::Idle, GeneratorEvent::ChangeDue(_)) => d.stream.event_seq_num == u64::MAX
                || d.stream.stats.num_source_change_events == u64::MAX,
            (PhaseView::DispatchingChange { .. }, GeneratorEvent::Dispatched(_)) => !can_complete(
                d.stream,
            ),
            (PhaseView::ListingElements, GeneratorEvent::ElementsListed(elements)) =>
                d.stream.event_seq_num + elements@.len() > u64::MAX
                || d.stream.stats.num_source_change_events + elements@.len() > u64::MAX,
            (PhaseView::DispatchingInserts { count }, GeneratorEvent::Dispatched(_)) =>
                d.stream.stats.num_source_change_events + count > u64::MAX,
            (PhaseView::AwaitingRate, GeneratorEvent::RateReady) => d.stream.previous_event is None
                && !times_fit(d.stream, now_ns, None),
            (
                PhaseView::DrawingInterval { now_ns: since },
                GeneratorEvent::IntervalDrawn(interval),
            ) => !times_fit(d.stream, since, Some(interval)),
            _ => false,
        },
{
}

/// An update that the model fails to give, or a change that cannot be sent, ends with that
/// error: as the answer where a command waits for one, and else in the stream's messages.
pub proof fn lemma_failures_are_answered(d: DriverView, detail: String, now_ns: u64)
    requires
        d.stream.status != SourceChangeGeneratorStatus::Error,
    ensures
        ({
            let failed = GeneratorEvent::ModelUpdated(ModelUpdate::Failed(detail));
            let (next, action) = step(d, failed, now_ns);
            d.phase is Generating ==> {
                &&& next.phase is Idle
                &&& !next.replying
                &&& d.replying ==> action == ActionView::Reply(ReplyView::Failed(detail@))
                    && next.stream == d.stream
                &&& !d.replying ==> action == ActionView::Wait && next.stream.status
                    == SourceChangeGeneratorStatus::Error && next.stream.error_messages.len()
                    == d.stream.error_messages.len() + 1
            }
        }),
        ({
            let (next, action) = step(d, GeneratorEvent::Sent(Err(detail)), now_ns);
            d.phase is Sending ==> {
                &&& next.phase is Idle
                &&& !next.replying
                &&& d.replying ==> (action matches ActionView::Reply(ReplyView::Failed(message))
                    && message == "Error sending ScheduledChangeEventMessage: "@ + detail@)
                &&& !d.replying ==> action == ActionView::Wait && next.stream.status
                    == SourceChangeGeneratorStatus::Error
            }
        }),
{
}

/// An event that does not belong to what the generator is at changes nothing.
pub proof fn lemma_stray_events_change_nothing(d: DriverView, event: GeneratorEvent, now_ns: u64)
    requires
        match event {
            GeneratorEvent::Command(_) => !(d.phase is Idle),
            GeneratorEvent::ChangeDue(_) => !(d.phase is Idle),
            GeneratorEvent::ReplyFailed(_) => !(d.phase is Idle),
            GeneratorEvent::CommandsClosed => !(d.phase is Idle),
            GeneratorEvent::ChangesClosed => !(d.phase is Idle),
            GeneratorEvent::DispatchersConfigured => !(d.phase is Configuring),
            GeneratorEvent::ElementsListed(_) => !(d.phase is ListingElements),
            GeneratorEvent::Dispatched(_) => !(d.phase is DispatchingInserts) && !(d.phase
                is DispatchingChange),
            GeneratorEvent::RateReady => !(d.phase is AwaitingRate),
            GeneratorEvent::IntervalDrawn(_) => !(d.phase is DrawingInterval),
            GeneratorEvent::ModelUpdated(_) => !(d.phase is Generating),
            GeneratorEvent::Sent(_) => !(d.phase is Sending),
            GeneratorEvent::Closed(_) => !(d.phase is Closing) && !(d.phase is ClosingToRebuild),
            GeneratorEvent::Rebuilt(_) => !(d.phase is Rebuilding),
        },
    ensures
        step(d, event, now_ns) == (d, ActionView::Wait),
{
}

/// A command that needs nothing more to be done is answered at once, one that schedules a change
/// once the change is scheduled, and handing on the host once that is done.
pub proof fn lemma_commands_are_carried_out(
    d: DriverView,
    command: GeneratorCommand,
    now_ns: u64,
)
    requires
        d.phase is Idle,
    ensures
        ({
            let (stream, todo) = after_command(d.stream, command, now_ns);
            let (next, action) = step(d, GeneratorEvent::Command(command), now_ns);
            &&& next.stream == stream
            &&& todo is Done ==> action == ActionView::Reply(ReplyView::Done) && next.phase is Idle
                && !next.replying
            &&& todo is Schedule ==> action == ActionView::AwaitRate && next.phase is AwaitingRate
                && next.replying
            &&& todo is ConfigureDispatchers ==> {
                let (last, answer) = step(next, GeneratorEvent::DispatchersConfigured, now_ns);
                &&& action == ActionView::ConfigureDispatchers
                &&& answer == ActionView::Reply(ReplyView::Done)
                &&& last.phase is Idle
                &&& last.stream == stream
            }
        }),
{
}

/// An answer that cannot be given puts the stream into the error status, with what went wrong.
pub proof fn lemma_unanswerable_commands(d: DriverView, detail: String, now_ns: u64)
    requires
        d.phase is Idle,
    ensures
        ({
            let (next, action) = step(d, GeneratorEvent::ReplyFailed(detail), now_ns);
            &&& action == ActionView::Wait
            &&& next.phase is Idle
            &&& next.stream.status == SourceChangeGeneratorStatus::Error
            &&& next.stream.error_messages == d.stream.error_messages.push(
                "Error calling process_command_message."@ + ": "@ + detail@,
            )
            &&& next.stream.stats == d.stream.stats
        }),
{
}

/// Where failures of dispatchers are reported, dispatchers that cannot be closed fail the
/// command; those closed for a reset are not built anew.
pub proof fn lemma_failures_to_close(d: DriverView, detail: String, now_ns: u64)
    requires
        d.phase is Closing || d.phase is ClosingToRebuild,
        d.replying,
    ensures
        ({
            let (next, action) = step(d, GeneratorEvent::Closed(Err(detail)), now_ns);
            if d.stream.settings.failures == FailurePolicy::Report {
                &&& action == ActionView::Reply(ReplyView::Failed(detail@))
                &&& next.phase is Idle
                &&& d.phase is ClosingToRebuild ==> next.stream == d.stream
                &&& d.phase is Closing ==> next.stream.status == SourceChangeGeneratorStatus::Error
            } else {
                &&& d.phase is ClosingToRebuild ==> action == ActionView::Rebuild
                &&& d.phase is Closing ==> action == ActionView::Reply(ReplyView::Done)
                &&& next.stream == d.stream
            }
        }),
{
}

/// A model that cannot be built anew fails the reset and leaves the stream as it is.
pub proof fn lemma_failures_to_rebuild(d: DriverView, detail: String, now_ns: u64)
    requires
        d.phase is Rebuilding,
        d.replying,
    ensures
        ({
            let (next, action) = step(d, GeneratorEvent::Rebuilt(Err(detail)), now_ns);
            &&& action == ActionView::Reply(ReplyView::Failed(detail@))
            &&& next.phase is Idle
            &&& next.stream == d.stream
        }),
{
}

} // verus!
