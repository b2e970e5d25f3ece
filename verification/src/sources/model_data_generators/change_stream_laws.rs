//! What holds of a change stream whatever commands and changes it sees.

use crate::json::Json;
use crate::scripts::ChangeEventView;
use crate::sources::model_data_generators::change_stream::{
    after_change, after_command, after_due, after_inserts, after_numbering, after_reset,
    after_update, can_complete, initial_stream, insert_events, is_due, scheduled_times, times_fit,
    CommandStep, ElementView, FollowUp, GeneratorCommand, ModelUpdate, ScheduledChangeEventMessage,
    StreamView,
};
use crate::sources::source_change_generators::SourceChangeGeneratorStatus;
use vstd::prelude::*;

verus! {

/// How far a stream has come.
pub struct Progress {
    pub status: SourceChangeGeneratorStatus,
    pub steps: nat,
    pub skips: nat,
    pub events: nat,
    pub skipped: nat,
    pub seq_num: nat,
    pub limit: nat,
}

/// How far a stream has come.
pub open spec fn progress_of(s: StreamView) -> Progress {
    Progress {
        status: s.status,
        steps: s.steps_remaining as nat,
        skips: s.skips_remaining as nat,
        events: s.stats.num_source_change_events as nat,
        skipped: s.stats.num_skipped_source_change_events as nat,
        seq_num: s.event_seq_num as nat,
        limit: s.settings.change_count as nat,
    }
}

/// How far a stream has come after one more change.
pub open spec fn one_further(p: Progress) -> Progress {
    let counted = Progress {
        events: p.events + 1,
        seq_num: p.seq_num + 1,
        skipped: if p.status == SourceChangeGeneratorStatus::Skipping {
            p.skipped + 1
        } else {
            p.skipped
        },
        ..p
    };
    if counted.events >= p.limit {
        Progress { status: SourceChangeGeneratorStatus::Finished, steps: 0, skips: 0, ..counted }
    } else if p.status == SourceChangeGeneratorStatus::Stepping && p.steps > 0 {
        Progress {
            steps: (p.steps - 1) as nat,
            status: if p.steps == 1 {
                SourceChangeGeneratorStatus::Paused
            } else {
                p.status
            },
            ..counted
        }
    } else if p.status == SourceChangeGeneratorStatus::Skipping && p.skips > 0 {
        Progress {
            skips: (p.skips - 1) as nat,
            status: if p.skips == 1 {
                SourceChangeGeneratorStatus::Paused
            } else {
                p.status
            },
            ..counted
        }
    } else {
        counted
    }
}

/// How far a stream has come after so many more changes.
pub open spec fn further(p: Progress, n: nat) -> Progress
    decreases n,
{
    if n == 0 {
        p
    } else {
        one_further(further(p, (n - 1) as nat))
    }
}

/// Each change that is completed brings the stream one further, and scheduling brings it no
/// further.
pub proof fn lemma_changes_count(
    s: StreamView,
    event: ChangeEventView,
    seq_num: u64,
    now_ns: u64,
    interval: Option<u64>,
    update: ModelUpdate,
)
    requires
        s.wf(),
    ensures
        can_complete(s) ==> progress_of(after_change(s, event, seq_num, now_ns).0) == one_further(
            progress_of(s),
        ),
        progress_of(scheduled_times(s, now_ns, interval)) == progress_of(s),
        progress_of(after_update(s, now_ns, update).0) == progress_of(s),
        (after_due(s, now_ns).1 is Dispatch || after_due(s, now_ns).1 is Skip) ==> progress_of(
            after_due(s, now_ns).0,
        ) == progress_of(s),
{
}

/// A stream told to take `n` steps dispatches exactly `n` changes and is paused after the
/// last one, unless it comes to its limit first.
pub proof fn lemma_stepping(p: Progress, n: nat)
    requires
        p.status == SourceChangeGeneratorStatus::Stepping,
        n <= p.steps,
        p.events + n < p.limit,
    ensures
        further(p, n) == (Progress {
            status: if n == p.steps && n > 0 {
                SourceChangeGeneratorStatus::Paused
            } else {
                SourceChangeGeneratorStatus::Stepping
            },
            steps: (p.steps - n) as nat,
            events: p.events + n,
            seq_num: p.seq_num + n,
            ..p
        }),
    decreases n,
{
    if n > 0 {
        lemma_stepping(p, (n - 1) as nat);
    }
}

/// A stream told to skip `n` changes goes past exactly `n` and is paused after the last one,
/// unless it comes to its limit first.
pub proof fn lemma_skipping(p: Progress, n: nat)
    requires
        p.status == SourceChangeGeneratorStatus::Skipping,
        n <= p.skips,
        p.events + n < p.limit,
    ensures
        further(p, n) == (Progress {
            status: if n == p.skips && n > 0 {
                SourceChangeGeneratorStatus::Paused
            } else {
                SourceChangeGeneratorStatus::Skipping
            },
            skips: (p.skips - n) as nat,
            events: p.events + n,
            skipped: p.skipped + n,
            seq_num: p.seq_num + n,
            ..p
        }),
    decreases n,
{
    if n > 0 {
        lemma_skipping(p, (n - 1) as nat);
    }
}

/// A running stream runs until its changes come to the limit, and then is finished.
pub proof fn lemma_running(p: Progress, n: nat)
    requires
        p.status == SourceChangeGeneratorStatus::Running,
        p.events < p.limit,
        p.events + n <= p.limit,
    ensures
        further(p, n).events == p.events + n,
        further(p, n).seq_num == p.seq_num + n,
        further(p, n).skipped == p.skipped,
        p.events + n < p.limit ==> further(p, n).status == SourceChangeGeneratorStatus::Running,
        p.events + n == p.limit ==> further(p, n).status == SourceChangeGeneratorStatus::Finished,
        further(p, n).limit == p.limit,
    decreases n,
{
    if n > 0 {
        lemma_running(p, (n - 1) as nat);
    }
}

/// Out of the stopped, finished and error status only a reset leads; every other command
/// leaves the stream as it is.
pub proof fn lemma_only_reset_leads_out(s: StreamView, command: GeneratorCommand, now_ns: u64)
    requires
        s.status.terminal(),
    ensures
        after_command(s, command, now_ns).0 == s,
        after_command(s, command, now_ns).1 == CommandStep::Rebuild <==> command
            == GeneratorCommand::Reset,
        !(after_command(s, command, now_ns).1 is Schedule),
        !(after_command(s, command, now_ns).1 is SendInitialInserts),
{
}

/// Asking for the state changes nothing, whatever the status.
pub proof fn lemma_get_state_changes_nothing(s: StreamView, now_ns: u64)
    ensures
        after_command(s, GeneratorCommand::GetState, now_ns) == (s, CommandStep::Done),
{
}

/// A command that is refused leaves the stream as it is.
pub proof fn lemma_refusals_change_nothing(s: StreamView, command: GeneratorCommand, now_ns: u64)
    ensures
        after_command(s, command, now_ns).1 is Refuse ==> after_command(s, command, now_ns).0 == s,
{
}

/// A reset that succeeds leads to the stream as it was before it ever started.
pub proof fn lemma_reset_starts_over(s: StreamView, closed: Result<(), String>)
    requires
        closed is Ok,
    ensures
        after_reset(s, closed, Ok(())) == (initial_stream(s.settings), Ok::<(), Seq<char>>(())),
{
}

/// A change is processed once: when it is complete, its message is no longer due.
pub proof fn lemma_processed_once(
    s: StreamView,
    event: ChangeEventView,
    message: ScheduledChangeEventMessage,
    now_ns: u64,
)
    requires
        can_complete(s),
        is_due(s, message),
    ensures
        !is_due(after_change(s, event, message.seq_num, now_ns).0, message),
{
}

/// Changes are dispatched only while running or stepping, and skipped only while skipping.
pub proof fn lemma_skipped_changes_are_not_dispatched(s: StreamView, now_ns: u64)
    ensures
        after_due(s, now_ns).1 is Dispatch ==> s.status == SourceChangeGeneratorStatus::Running
            || s.status == SourceChangeGeneratorStatus::Stepping,
        after_due(s, now_ns).1 is Skip ==> s.status == SourceChangeGeneratorStatus::Skipping,
{
}

/// No change is due while a stream is paused, stopped, finished or in error.
pub proof fn lemma_nothing_due_at_rest(s: StreamView, message: ScheduledChangeEventMessage)
    requires
        !s.status.processing(),
    ensures
        !is_due(s, message),
{
}

/// A scheduled change is due after exactly the interval, and the first one at once; its
/// event bears the time at which it is due.
pub proof fn lemma_delay_is_the_interval(
    s: StreamView,
    now_ns: u64,
    interval: Option<u64>,
    before: Json,
    after: Json,
)
    requires
        s.wf(),
        s.status.processing(),
        times_fit(s, now_ns, interval),
    ensures
        ({
            let timed = scheduled_times(s, now_ns, interval);
            let (next, r) = after_update(timed, now_ns, ModelUpdate::Updated { before, after });
            &&& r matches Ok(message) && message matches Some(message) && message.delay_ns == (
            match interval {
                Some(interval) => interval,
                None => 0,
            }) && is_due(next, message)
            &&& next.next_event matches Some(event) && event.ts_ns == next.virtual_time_ns_next
        }),
{
}

/// Initial inserts bear consecutive numbers, and the first change after them the next one.
pub proof fn lemma_inserts_are_numbered(
    s: StreamView,
    now_ns: u64,
    elements: Seq<ElementView>,
    i: int,
)
    requires
        0 <= i < elements.len(),
        s.event_seq_num + elements.len() <= u64::MAX,
    ensures
        insert_events(s, now_ns, elements)[i].lsn == s.event_seq_num + i,
        after_numbering(s, elements.len()).event_seq_num == s.event_seq_num + elements.len(),
{
}

/// Initial inserts count towards the limit: where they come within one of it, the first
/// change after them finishes the stream.
pub proof fn lemma_inserts_count_towards_the_limit(
    s: StreamView,
    count: nat,
    event: ChangeEventView,
    seq_num: u64,
    now_ns: u64,
)
    requires
        s.stats.num_source_change_events + count < u64::MAX,
        s.stats.num_source_change_events + count + 1 >= s.settings.change_count,
    ensures
        ({
            let inserted = after_inserts(s, count, Ok(())).0;
            let (next, follow_up) = after_change(inserted, event, seq_num, now_ns);
            next.status == SourceChangeGeneratorStatus::Finished && follow_up == FollowUp::Close
        }),
{
}

} // verus!
