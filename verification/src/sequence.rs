//! Steps that are taken one after another, up to the first that fails.

use vstd::prelude::*;

verus! {

/// What comes next.
#[derive(Debug)]
pub enum NextStep {
    /// Take the step with that index.
    Take(usize),
    /// Every step was taken.
    Done,
    /// A step failed with that message; no other is taken.
    Failed(String),
}

/// What comes next, in the model.
pub enum NextStepView {
    Take(nat),
    Done,
    Failed(Seq<char>),
}

impl View for NextStep {
    type V = NextStepView;

    open spec fn view(&self) -> NextStepView {
        match self {
            NextStep::Take(index) => NextStepView::Take(*index as nat),
            NextStep::Done => NextStepView::Done,
            NextStep::Failed(message) => NextStepView::Failed(message@),
        }
    }
}

/// Steps that are being taken.
#[derive(Debug)]
pub struct Sequence {
    count: usize,
    taken: usize,
    failure: Option<String>,
}

/// How far steps have got.
pub struct SequenceView {
    pub count: nat,
    /// How many steps succeeded.
    pub taken: nat,
    /// The message of the step that failed.
    pub failure: Option<Seq<char>>,
}

impl View for Sequence {
    type V = SequenceView;

    closed spec fn view(&self) -> SequenceView {
        SequenceView {
            count: self.count as nat,
            taken: self.taken as nat,
            failure: match self.failure {
                Some(message) => Some(message@),
                None => None,
            },
        }
    }
}

/// What comes next after what was taken so far.
pub open spec fn next_of(s: SequenceView) -> NextStepView {
    match s.failure {
        Some(message) => NextStepView::Failed(message),
        None => if s.taken < s.count {
            NextStepView::Take(s.taken)
        } else {
            NextStepView::Done
        },
    }
}

/// The steps after one more outcome. Where no step is left to be taken, nothing changes.
pub open spec fn after_outcome(s: SequenceView, outcome: Result<(), String>) -> SequenceView {
    if next_of(s) is Take {
        match outcome {
            Ok(_) => SequenceView { taken: s.taken + 1, ..s },
            Err(message) => SequenceView { failure: Some(message@), ..s },
        }
    } else {
        s
    }
}

impl Sequence {
    /// So many steps, of which none was taken.
    pub fn new(count: usize) -> (r: Sequence)
        ensures
            r@ == (SequenceView { count: count as nat, taken: 0, failure: None }),
    {
        Sequence { count, taken: 0, failure: None }
    }

    /// What comes next.
    pub fn next(&self) -> (r: NextStep)
        ensures
            r@ == next_of(self@),
    {
        match &self.failure {
            Some(message) => NextStep::Failed(message.clone()),
            None => if self.taken < self.count {
                NextStep::Take(self.taken)
            } else {
                NextStep::Done
            },
        }
    }

    /// Takes the outcome of the step that came next.
    pub fn record(&mut self, outcome: Result<(), String>)
        ensures
            final(self)@ == after_outcome(old(self)@, outcome),
    {
        if self.failure.is_none() && self.taken < self.count {
            match outcome {
                Ok(_) => {
                    self.taken = self.taken + 1;
                },
                Err(message) => {
                    self.failure = Some(message);
                },
            }
        }
    }
}

/// The steps after several outcomes.
pub open spec fn after_outcomes(s: SequenceView, outcomes: Seq<Result<(), String>>) -> SequenceView
    decreases outcomes.len(),
{
    if outcomes.len() == 0 {
        s
    } else {
        after_outcome(after_outcomes(s, outcomes.drop_last()), outcomes.last())
    }
}

/// As long as every step succeeds they are taken one after another, each once, until all are.
pub proof fn lemma_steps_are_taken_in_order(s: SequenceView, outcomes: Seq<Result<(), String>>)
    requires
        s.taken == 0,
        s.failure is None,
        outcomes.len() <= s.count,
        forall|i: int| 0 <= i < outcomes.len() ==> (#[trigger] outcomes[i]) is Ok,
    ensures
        after_outcomes(s, outcomes) == (SequenceView { taken: outcomes.len(), ..s }),
        next_of(after_outcomes(s, outcomes)) == if outcomes.len() < s.count {
            NextStepView::Take(outcomes.len())
        } else {
            NextStepView::Done
        },
    decreases outcomes.len(),
{
    if outcomes.len() > 0 {
        let front = outcomes.drop_last();
        assert forall|i: int| 0 <= i < front.len() implies (#[trigger] front[i]) is Ok by {
            assert(front[i] == outcomes[i]);
        }
        lemma_steps_are_taken_in_order(s, front);
        assert(outcomes[outcomes.len() - 1] is Ok);
    }
}

/// The first failure is the last step: whatever else is said to have come of later ones, its
/// message stands and no other step is taken.
pub proof fn lemma_first_failure_stands(
    s: SequenceView,
    outcomes: Seq<Result<(), String>>,
    k: int,
)
    requires
        s.taken == 0,
        s.failure is None,
        0 <= k < outcomes.len(),
        k < s.count,
        outcomes[k] is Err,
        forall|i: int| 0 <= i < k ==> (#[trigger] outcomes[i]) is Ok,
    ensures
        after_outcomes(s, outcomes).taken == k,
        next_of(after_outcomes(s, outcomes)) == NextStepView::Failed(outcomes[k]->Err_0@),
    decreases outcomes.len(),
{
    let front = outcomes.drop_last();
    if k < front.len() {
        assert(front[k] == outcomes[k]);
        assert forall|i: int| 0 <= i < k implies (#[trigger] front[i]) is Ok by {
            assert(front[i] == outcomes[i]);
        }
        lemma_first_failure_stands(s, front, k);
    } else {
        assert forall|i: int| 0 <= i < front.len() implies (#[trigger] front[i]) is Ok by {
            assert(front[i] == outcomes[i]);
        }
        lemma_steps_are_taken_in_order(s, front);
    }
}

} // verus!
