//! Changes that go to a gRPC endpoint.

use crate::grpc_converters::{
    convert_to_drasi_source_change, source_change_of, SourceChange, SourceChangeModel,
};
use crate::scripts::{event_views, ChangeEventView, SourceChangeEvent};
use crate::sequence::{Sequence, SequenceView};
use crate::test_repo_storage::models::GrpcSourceChangeDispatcherDefinition;
use crate::text::{decimal, u64_text};
use vstd::prelude::*;
use vstd::string::*;

verus! {

/// Where and how changes are sent.
#[derive(Debug, Clone)]
pub struct GrpcSourceChangeDispatcherSettings {
    pub host: String,
    pub port: u16,
    pub timeout_seconds: u64,
    pub batch_events: bool,
    pub source_id: String,
    pub tls: bool,
}

/// The address of a host and port.
pub open spec fn endpoint_address(tls: bool, host: Seq<char>, port: u16) -> Seq<char> {
    let scheme = if tls {
        "https"@
    } else {
        "http"@
    };
    scheme + "://"@ + host + ":"@ + decimal(port as nat)
}

impl GrpcSourceChangeDispatcherSettings {
    /// The settings that a definition asks for: a timeout of thirty seconds, batches and no
    /// encryption, where it does not say.
    pub fn new(definition: &GrpcSourceChangeDispatcherDefinition) -> (r: Result<
        GrpcSourceChangeDispatcherSettings,
        String,
    >)
        ensures
            r matches Ok(settings) && {
                &&& settings.host@ == definition.host@
                &&& settings.port == definition.port
                &&& settings.timeout_seconds == (match definition.timeout_seconds {
                    Some(seconds) => seconds,
                    None => 30,
                })
                &&& settings.batch_events == (match definition.batch_events {
                    Some(batch) => batch,
                    None => true,
                })
                &&& settings.source_id@ == definition.source_id@
                &&& settings.tls == (match definition.tls {
                    Some(tls) => tls,
                    None => false,
                })
            },
    {
        Ok(
            GrpcSourceChangeDispatcherSettings {
                host: definition.host.clone(),
                port: definition.port,
                timeout_seconds: definition.timeout_seconds.unwrap_or(30),
                batch_events: definition.batch_events.unwrap_or(true),
                source_id: definition.source_id.clone(),
                tls: definition.tls.unwrap_or(false),
            },
        )
    }

    /// The address that is connected to.
    pub fn endpoint_url(&self) -> (r: String)
        ensures
            r@ == endpoint_address(self.tls, self.host@, self.port),
    {
        let scheme = if self.tls {
            "https"
        } else {
            "http"
        };
        let mut url = scheme.to_owned();
        url.append("://");
        url.append(self.host.as_str());
        url.append(":");
        url.append(u64_text(self.port as u64).as_str());
        url
    }
}

/// What is to be sent.
#[derive(Debug)]
pub enum GrpcDispatchPlan {
    Nothing,
    /// All changes on one stream, whose answers acknowledge them.
    Batch(Vec<SourceChange>),
    /// Each change in a request of its own.
    Each(Vec<SourceChange>),
}

/// What is to be sent, in the model.
pub enum GrpcPlanView {
    Nothing,
    Batch(Seq<SourceChangeModel>),
    Each(Seq<SourceChangeModel>),
}

/// The views of a list of changes.
pub open spec fn change_views(changes: Seq<SourceChange>) -> Seq<SourceChangeModel> {
    Seq::new(changes.len(), |i: int| changes[i]@)
}

impl View for GrpcDispatchPlan {
    type V = GrpcPlanView;

    open spec fn view(&self) -> GrpcPlanView {
        match self {
            GrpcDispatchPlan::Nothing => GrpcPlanView::Nothing,
            GrpcDispatchPlan::Batch(changes) => GrpcPlanView::Batch(change_views(changes@)),
            GrpcDispatchPlan::Each(changes) => GrpcPlanView::Each(change_views(changes@)),
        }
    }
}

/// What is to be sent for a list of events: each as a change of the source.
pub open spec fn grpc_plan(batch: bool, source_id: Seq<char>, events: Seq<ChangeEventView>) -> GrpcPlanView {
    let changes = Seq::new(events.len(), |i: int| source_change_of(events[i], source_id));
    if events.len() == 0 {
        GrpcPlanView::Nothing
    } else if batch {
        GrpcPlanView::Batch(changes)
    } else {
        GrpcPlanView::Each(changes)
    }
}

impl GrpcSourceChangeDispatcherSettings {
    /// What is to be sent for a list of events.
    pub fn plan_dispatch(&self, events: &Vec<SourceChangeEvent>) -> (r: GrpcDispatchPlan)
        ensures
            r@ == grpc_plan(self.batch_events, self.source_id@, event_views(events@)),
    {
        if events.len() == 0 {
            return GrpcDispatchPlan::Nothing;
        }
        let mut changes: Vec<SourceChange> = Vec::new();
        let mut i: usize = 0;
        while i < events.len()
            invariant
                0 <= i <= events@.len(),
                changes@.len() == i,
                forall|j: int|
                    0 <= j < i ==> (#[trigger] changes@[j])@ == source_change_of(
                        events@[j]@,
                        self.source_id@,
                    ),
            decreases events@.len() - i,
        {
            changes.push(convert_to_drasi_source_change(&events[i], self.source_id.as_str()));
            i = i + 1;
        }
        let ghost views = event_views(events@);
        assert(change_views(changes@) =~= Seq::new(
            views.len(),
            |i: int| source_change_of(views[i], self.source_id@),
        ));
        if self.batch_events {
            GrpcDispatchPlan::Batch(changes)
        } else {
            GrpcDispatchPlan::Each(changes)
        }
    }
}

/// How many requests a plan takes; a stream is one.
pub open spec fn request_count(plan: GrpcPlanView) -> nat {
    match plan {
        GrpcPlanView::Nothing => 0,
        GrpcPlanView::Batch(_) => 1,
        GrpcPlanView::Each(changes) => changes.len(),
    }
}

impl GrpcDispatchPlan {
    /// The requests of a plan, to be sent one after another up to the first that fails.
    pub fn requests(&self) -> (r: Sequence)
        ensures
            r@ == (SequenceView { count: request_count(self@), taken: 0, failure: None }),
    {
        match self {
            GrpcDispatchPlan::Nothing => Sequence::new(0),
            GrpcDispatchPlan::Batch(_) => Sequence::new(1),
            GrpcDispatchPlan::Each(changes) => {
                assert(changes@.len() == change_views(changes@).len());
                Sequence::new(changes.len())
            },
        }
    }
}

/// The acknowledgments of a batch: how many changes were sent, and how many of them the
/// last acknowledgment covers.
#[derive(Debug)]
pub struct BatchAcknowledgments {
    pub expected: u64,
    pub processed: u64,
}

/// What makes an acknowledgment unacceptable, if anything: it reports a failure, covers
/// fewer changes than one before it, or more than were sent.
pub open spec fn acknowledgment_error(
    acknowledged: BatchAcknowledgments,
    success: bool,
    processed: u64,
    error: Seq<char>,
) -> Option<Seq<char>> {
    if !success {
        Some("Batch dispatch failed: "@ + error)
    } else if processed < acknowledged.processed || processed > acknowledged.expected {
        Some(
            "Invalid cumulative acknowledgment: previous "@ + decimal(
                acknowledged.processed as nat,
            ) + ", received "@ + decimal(processed as nat) + ", expected "@ + decimal(
                acknowledged.expected as nat,
            ),
        )
    } else {
        None
    }
}

impl BatchAcknowledgments {
    /// Takes a cumulative acknowledgment.
    pub fn observe(&mut self, success: bool, processed: u64, error: &str) -> (r: Result<(), String>)
        ensures
            final(self).expected == old(self).expected,
            match r {
                Ok(_) => acknowledgment_error(*old(self), success, processed, error@) is None
                    && final(self).processed == processed,
                Err(e) => acknowledgment_error(*old(self), success, processed, error@) == Some(e@)
                    && final(self).processed == old(self).processed,
            },
    {
        if !success {
            let mut message = "Batch dispatch failed: ".to_owned();
            message.append(error);
            return Err(message);
        }
        if processed < self.processed || processed > self.expected {
            let mut message = "Invalid cumulative acknowledgment: previous ".to_owned();
            message.append(u64_text(self.processed).as_str());
            message.append(", received ");
            message.append(u64_text(processed).as_str());
            message.append(", expected ");
            message.append(u64_text(self.expected).as_str());
            return Err(message);
        }
        self.processed = processed;
        Ok(())
    }

    /// Checks, at the end, that every change was acknowledged.
    pub fn finish(&self) -> (r: Result<(), String>)
        ensures
            match r {
                Ok(_) => self.processed == self.expected,
                Err(error) => self.processed != self.expected && error@
                    == "Batch acknowledgment mismatch: sent "@ + decimal(self.expected as nat)
                    + ", acknowledged "@ + decimal(self.processed as nat),
            },
    {
        if self.processed != self.expected {
            let mut message = "Batch acknowledgment mismatch: sent ".to_owned();
            message.append(u64_text(self.expected).as_str());
            message.append(", acknowledged ");
            message.append(u64_text(self.processed).as_str());
            return Err(message);
        }
        Ok(())
    }
}

/// What the answer to a single change comes to.
pub fn check_submission(success: bool, error: &str) -> (r: Result<(), String>)
    ensures
        match r {
            Ok(_) => success,
            Err(e) => !success && e@ == "Event submission failed: "@ + error@,
        },
{
    if success {
        Ok(())
    } else {
        let mut message = "Event submission failed: ".to_owned();
        message.append(error);
        Err(message)
    }
}

/// What a whole stream of successful acknowledgments comes to: the last number where they
/// never fall and never pass what was sent, nothing otherwise.
pub open spec fn acknowledged_total(expected: u64, numbers: Seq<u64>) -> Option<u64>
    decreases numbers.len(),
{
    if numbers.len() == 0 {
        Some(0)
    } else {
        match acknowledged_total(expected, numbers.drop_last()) {
            Some(before) => if acknowledgment_error(
                BatchAcknowledgments { expected, processed: before },
                true,
                numbers.last(),
                Seq::empty(),
            ) is None {
                Some(numbers.last())
            } else {
                None
            },
            None => None,
        }
    }
}

/// A stream of acknowledgments is accepted exactly where its numbers never fall and never
/// pass what was sent; it may repeat a number.
pub proof fn lemma_acknowledgments_are_cumulative(expected: u64, numbers: Seq<u64>)
    ensures
        acknowledged_total(expected, numbers) is Some <==> {
            &&& forall|i: int| 0 <= i < numbers.len() ==> #[trigger] numbers[i] <= expected
            &&& forall|i: int, j: int|
                0 <= i < j < numbers.len() ==> #[trigger] numbers[i] <= #[trigger] numbers[j]
        },
        acknowledged_total(expected, numbers) matches Some(total) ==> total == if numbers.len() == 0 {
            0
        } else {
            numbers.last()
        },
    decreases numbers.len(),
{
    if numbers.len() > 0 {
        let front = numbers.drop_last();
        lemma_acknowledgments_are_cumulative(expected, front);
        let last = numbers.last();
        assert(numbers[numbers.len() - 1] == last);
        if acknowledged_total(expected, numbers) is Some {
            assert forall|i: int, j: int| 0 <= i < j < numbers.len() implies #[trigger] numbers[i]
                <= #[trigger] numbers[j] by {
                if j < front.len() {
                    assert(front[i] <= front[j]);
                } else {
                    assert(front[i] == numbers[i]);
                    if i < front.len() - 1 {
                        assert(front[i] <= front[front.len() - 1]);
                    }
                }
            }
            assert forall|i: int| 0 <= i < numbers.len() implies #[trigger] numbers[i] <= expected by {
                if i < front.len() {
                    assert(front[i] == numbers[i]);
                }
            }
        }
        if (forall|i: int| 0 <= i < numbers.len() ==> #[trigger] numbers[i] <= expected) && (forall|
            i: int,
            j: int,
        |
            0 <= i < j < numbers.len() ==> #[trigger] numbers[i] <= #[trigger] numbers[j]) {
            assert forall|i: int, j: int| 0 <= i < j < front.len() implies #[trigger] front[i]
                <= #[trigger] front[j] by {
                assert(numbers[i] <= numbers[j]);
            }
            assert forall|i: int| 0 <= i < front.len() implies #[trigger] front[i] <= expected by {
                assert(numbers[i] <= expected);
            }
            if front.len() > 0 {
                assert(numbers[front.len() - 1] <= numbers[numbers.len() - 1]);
            }
        }
    }
}

} // verus!
