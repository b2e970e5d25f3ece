//! The verification of a test run's final state, one step at a time: the candidate is written,
//! then the stored final state is read and compared, and the verdict on it is written.

use crate::ordered::listing;
use crate::test_repo_storage::models::MissingBaselinePolicy;
use crate::test_run_completion::completion_handlers::final_state_manifest::{
    failed_reactions, golden_judgement, judge_final_state, manifest_of, unnormalized,
    FinalStateManifest, FinalStateReaction, FinalStateVerdict, GoldenJudgement, GoldenRead,
    ReactionVerdictView, ReactionView, FINAL_STATE_SCHEMA_VERSION,
};
use crate::test_run_completion::completion_handlers::sha256_determinism::ReactionOutputs;
use crate::text::join;
use vstd::prelude::*;
use vstd::string::*;

verus! {

/// Something that happened.
#[derive(Debug)]
pub enum CheckEvent {
    /// The candidate was written, or could not be.
    CandidateWritten(Result<(), String>),
    /// It is not known where the stored final state is; with the message of the error.
    GoldenNotLocated(String),
    /// The stored final state was looked for at a path.
    GoldenRead { golden: GoldenRead, path: String },
    /// The verdict was written, or could not be.
    VerdictWritten(Result<(), String>),
}

/// Something to be done.
#[derive(Debug)]
pub enum CheckAction {
    /// Write the final state of the run as a candidate for being stored.
    WriteCandidate,
    /// Read the stored final state.
    ReadGolden,
    /// Write the verdict.
    WriteVerdict,
    /// End with a result.
    Finish(Result<(), String>),
}

/// Something to be done, in the model.
pub enum CheckActionView {
    WriteCandidate,
    ReadGolden,
    WriteVerdict,
    Finish(Result<(), Seq<char>>),
}

/// A result without a value, in the model.
pub open spec fn result_view(r: Result<(), String>) -> Result<(), Seq<char>> {
    match r {
        Ok(_) => Ok(()),
        Err(error) => Err(error@),
    }
}

impl View for CheckAction {
    type V = CheckActionView;

    open spec fn view(&self) -> CheckActionView {
        match self {
            CheckAction::WriteCandidate => CheckActionView::WriteCandidate,
            CheckAction::ReadGolden => CheckActionView::ReadGolden,
            CheckAction::WriteVerdict => CheckActionView::WriteVerdict,
            CheckAction::Finish(result) => CheckActionView::Finish(result_view(*result)),
        }
    }
}

/// What is to be done next.
#[derive(Debug)]
enum CheckPhase {
    WritingCandidate,
    ReadingGolden,
    WritingVerdict(FinalStateVerdict),
    Ended(Result<(), String>),
}

/// What is to be done next, in the model.
pub enum CheckPhaseView {
    WritingCandidate,
    ReadingGolden,
    WritingVerdict(Map<Seq<char>, ReactionVerdictView>),
    Ended(Result<(), Seq<char>>),
}

/// The verification of a run's final state.
#[derive(Debug)]
pub struct FinalStateCheck {
    phase: CheckPhase,
    candidate: FinalStateManifest,
    missing_baseline: MissingBaselinePolicy,
    diagnostic_limit: usize,
    test_run_id: String,
}

/// How far a verification has got, and what it is of.
pub struct CheckView {
    pub phase: CheckPhaseView,
    pub candidate: Map<Seq<char>, ReactionView>,
    pub missing_baseline: MissingBaselinePolicy,
    pub diagnostic_limit: usize,
    pub test_run_id: Seq<char>,
}

impl View for FinalStateCheck {
    type V = CheckView;

    closed spec fn view(&self) -> CheckView {
        CheckView {
            phase: match self.phase {
                CheckPhase::WritingCandidate => CheckPhaseView::WritingCandidate,
                CheckPhase::ReadingGolden => CheckPhaseView::ReadingGolden,
                CheckPhase::WritingVerdict(verdict) => CheckPhaseView::WritingVerdict(
                    verdict.results@,
                ),
                CheckPhase::Ended(result) => CheckPhaseView::Ended(result_view(result)),
            },
            candidate: self.candidate.reactions@,
            missing_baseline: self.missing_baseline,
            diagnostic_limit: self.diagnostic_limit,
            test_run_id: self.test_run_id@,
        }
    }
}

/// What is to be done next.
pub open spec fn action_of(c: CheckView) -> CheckActionView {
    match c.phase {
        CheckPhaseView::WritingCandidate => CheckActionView::WriteCandidate,
        CheckPhaseView::ReadingGolden => CheckActionView::ReadGolden,
        CheckPhaseView::WritingVerdict(_) => CheckActionView::WriteVerdict,
        CheckPhaseView::Ended(result) => CheckActionView::Finish(result),
    }
}

/// What a verdict comes to: a failure where some reaction did not pass.
pub open spec fn verdict_result(results: Map<Seq<char>, ReactionVerdictView>) -> Result<
    (),
    Seq<char>,
> {
    let failed = failed_reactions(listing::<String, ReactionVerdictView>(results));
    if failed.len() == 0 {
        Ok(())
    } else {
        Err(
            "Final-state mismatch for reactions: ["@ + join(failed, ", "@)
                + "]; see determinism_verdict.json"@,
        )
    }
}

/// What follows once the candidate is written: a failure where records could not be
/// normalized, or the comparison.
pub open spec fn phase_after_candidate(candidate: Map<Seq<char>, ReactionView>) -> CheckPhaseView {
    let list = unnormalized(listing::<String, ReactionView>(candidate));
    if list.len() == 0 {
        CheckPhaseView::ReadingGolden
    } else {
        CheckPhaseView::Ended(
            Err(
                "final-state materialization failed to normalize records for reactions: ["@ + join(
                    list,
                    ", "@,
                ) + "]"@,
            ),
        )
    }
}

/// What follows once the stored final state was looked for.
pub open spec fn phase_after_golden(c: CheckView, golden: GoldenRead, path: Seq<char>) -> CheckPhaseView {
    match golden_judgement(golden, c.candidate, c.missing_baseline, c.diagnostic_limit, path) {
        GoldenJudgement::Failure(error) => CheckPhaseView::Ended(Err(error)),
        GoldenJudgement::NothingToCompare => CheckPhaseView::Ended(Ok(())),
        GoldenJudgement::Verdict(results) => CheckPhaseView::WritingVerdict(results),
    }
}

/// The verification after something happened. What is not waited for changes nothing.
pub open spec fn checked(c: CheckView, event: CheckEvent) -> CheckView {
    let phase = match (c.phase, event) {
        (CheckPhaseView::WritingCandidate, CheckEvent::CandidateWritten(written)) => match written {
            Ok(_) => phase_after_candidate(c.candidate),
            Err(error) => CheckPhaseView::Ended(Err(error@)),
        },
        (CheckPhaseView::ReadingGolden, CheckEvent::GoldenNotLocated(error)) =>
            CheckPhaseView::Ended(Err(error@)),
        (CheckPhaseView::ReadingGolden, CheckEvent::GoldenRead { golden, path }) =>
            phase_after_golden(c, golden, path@),
        (CheckPhaseView::WritingVerdict(results), CheckEvent::VerdictWritten(written)) =>
            CheckPhaseView::Ended(
                match written {
                    Ok(_) => verdict_result(results),
                    Err(error) => Err(error@),
                },
            ),
        (phase, _) => phase,
    };
    CheckView { phase, ..c }
}

impl FinalStateCheck {
    /// The manifests and verdicts are well formed, the candidate is of the known version, and a
    /// verdict is the one on this run.
    pub closed spec fn wf(self) -> bool {
        &&& self.candidate.wf()
        &&& self.candidate.schema_version == FINAL_STATE_SCHEMA_VERSION
        &&& self.phase matches CheckPhase::WritingVerdict(verdict) ==> {
            &&& verdict.results.wf()
            &&& verdict.mode@ == "final_state"@
            &&& verdict.schema_version == FINAL_STATE_SCHEMA_VERSION
            &&& verdict.test_run_id@ == self.test_run_id@
            &&& verdict.diagnostic_limit == self.diagnostic_limit
        }
    }

    /// Reads the final state off the outputs of a completed run. `readings` holds, for each
    /// output, what reading its final-state summary gave.
    pub fn begin(
        outputs: &Vec<ReactionOutputs>,
        readings: Vec<Result<FinalStateReaction, String>>,
        missing_baseline: MissingBaselinePolicy,
        diagnostic_limit: usize,
        test_run_id: String,
    ) -> (r: Result<FinalStateCheck, String>)
        requires
            readings@.len() == outputs@.len(),
        ensures
            match r {
                Ok(check) => {
                    &&& check.wf()
                    &&& check@.phase == CheckPhaseView::WritingCandidate
                    &&& manifest_of(outputs@, readings@) == Ok::<
                        Map<Seq<char>, ReactionView>,
                        Seq<char>,
                    >(check@.candidate)
                    &&& check@.missing_baseline == missing_baseline
                    &&& check@.diagnostic_limit == diagnostic_limit
                    &&& check@.test_run_id == test_run_id@
                },
                Err(error) => manifest_of(outputs@, readings@) == Err::<
                    Map<Seq<char>, ReactionView>,
                    Seq<char>,
                >(error@),
            },
    {
        match FinalStateManifest::from_completion_summary(outputs, readings) {
            Ok(candidate) => Ok(
                FinalStateCheck {
                    phase: CheckPhase::WritingCandidate,
                    candidate,
                    missing_baseline,
                    diagnostic_limit,
                    test_run_id,
                },
            ),
            Err(error) => Err(error),
        }
    }

    /// The final state of the run.
    pub fn candidate(&self) -> (r: &FinalStateManifest)
        requires
            self.wf(),
        ensures
            r.wf(),
            r.schema_version == FINAL_STATE_SCHEMA_VERSION,
            r.reactions@ == self@.candidate,
    {
        &self.candidate
    }

    /// The verdict that is to be written.
    pub fn verdict(&self) -> (r: Option<&FinalStateVerdict>)
        requires
            self.wf(),
        ensures
            match r {
                Some(verdict) => {
                    &&& self@.phase == CheckPhaseView::WritingVerdict(verdict.results@)
                    &&& verdict.results.wf()
                    &&& verdict.mode@ == "final_state"@
                    &&& verdict.schema_version == FINAL_STATE_SCHEMA_VERSION
                    &&& verdict.test_run_id@ == self@.test_run_id
                    &&& verdict.diagnostic_limit == self@.diagnostic_limit
                },
                None => !(self@.phase is WritingVerdict),
            },
    {
        match &self.phase {
            CheckPhase::WritingVerdict(verdict) => Some(verdict),
            _ => None,
        }
    }

    /// What is to be done next.
    pub fn action(&self) -> (r: CheckAction)
        requires
            self.wf(),
        ensures
            r@ == action_of(self@),
    {
        match &self.phase {
            CheckPhase::WritingCandidate => CheckAction::WriteCandidate,
            CheckPhase::ReadingGolden => CheckAction::ReadGolden,
            CheckPhase::WritingVerdict(_) => CheckAction::WriteVerdict,
            CheckPhase::Ended(Ok(_)) => CheckAction::Finish(Ok(())),
            CheckPhase::Ended(Err(error)) => CheckAction::Finish(Err(error.clone())),
        }
    }

    fn phase_after_golden(&self, golden: GoldenRead, path: &str) -> (r: CheckPhase)
        requires
            self.wf(),
            golden matches GoldenRead::Manifest(manifest) ==> manifest.wf(),
        ensures
            (FinalStateCheck { phase: r, ..*self }).wf(),
            (FinalStateCheck { phase: r, ..*self })@.phase == phase_after_golden(
                self@,
                golden,
                path@,
            ),
    {
        match judge_final_state(
            golden,
            &self.candidate,
            self.missing_baseline,
            self.diagnostic_limit,
            path,
            self.test_run_id.as_str(),
        ) {
            Ok(Some(verdict)) => CheckPhase::WritingVerdict(verdict),
            Ok(None) => CheckPhase::Ended(Ok(())),
            Err(error) => CheckPhase::Ended(Err(error)),
        }
    }

    /// Takes something that happened.
    pub fn handle(&mut self, event: CheckEvent)
        requires
            old(self).wf(),
            event matches CheckEvent::GoldenRead { golden: GoldenRead::Manifest(manifest), .. }
                ==> manifest.wf(),
        ensures
            final(self).wf(),
            final(self)@ == checked(old(self)@, event),
    {
        let mut phase = CheckPhase::WritingCandidate;
        std::mem::swap(&mut self.phase, &mut phase);
        let next = match (phase, event) {
            (CheckPhase::WritingCandidate, CheckEvent::CandidateWritten(Ok(_))) => {
                match self.candidate.check_normalization() {
                    Ok(_) => CheckPhase::ReadingGolden,
                    Err(error) => CheckPhase::Ended(Err(error)),
                }
            },
            (CheckPhase::WritingCandidate, CheckEvent::CandidateWritten(Err(error))) => {
                CheckPhase::Ended(Err(error))
            },
            (CheckPhase::ReadingGolden, CheckEvent::GoldenNotLocated(error)) => CheckPhase::Ended(
                Err(error),
            ),
            (CheckPhase::ReadingGolden, CheckEvent::GoldenRead { golden, path }) => {
                self.phase_after_golden(golden, path.as_str())
            },
            (CheckPhase::WritingVerdict(verdict), CheckEvent::VerdictWritten(Ok(_))) => {
                CheckPhase::Ended(verdict.outcome())
            },
            (CheckPhase::WritingVerdict(_), CheckEvent::VerdictWritten(Err(error))) => {
                CheckPhase::Ended(Err(error))
            },
            (phase, _) => phase,
        };
        self.phase = next;
    }
}

/// A verification after several things happened.
pub open spec fn checked_all(c: CheckView, events: Seq<CheckEvent>) -> CheckView
    decreases events.len(),
{
    if events.len() == 0 {
        c
    } else {
        checked(checked_all(c, events.drop_last()), events.last())
    }
}

/// The candidate comes first: nothing else is done, and nothing fails, unless it was written or
/// could not be.
pub proof fn lemma_candidate_comes_first(c: CheckView, events: Seq<CheckEvent>)
    requires
        c.phase == CheckPhaseView::WritingCandidate,
        !(action_of(checked_all(c, events)) is WriteCandidate),
    ensures
        exists|i: int| 0 <= i < events.len() && (#[trigger] events[i]) is CandidateWritten,
    decreases events.len(),
{
    if events.len() > 0 {
        let front = events.drop_last();
        if action_of(checked_all(c, front)) is WriteCandidate {
            assert(checked_all(c, front).phase is WritingCandidate);
            assert(events[events.len() - 1] is CandidateWritten);
        } else {
            lemma_candidate_comes_first(c, front);
            let i = choose|i: int| 0 <= i < front.len() && (#[trigger] front[i]) is CandidateWritten;
            assert(events[i] == front[i]);
        }
    }
}

/// A failure to normalize is found after the candidate was written, and ends the verification
/// before the stored final state is looked at.
pub proof fn lemma_failures_to_normalize_leave_a_candidate(c: CheckView)
    requires
        c.phase == CheckPhaseView::WritingCandidate,
        unnormalized(listing::<String, ReactionView>(c.candidate)).len() > 0,
    ensures
        action_of(c) == CheckActionView::WriteCandidate,
        ({
            let next = checked(c, CheckEvent::CandidateWritten(Ok(())));
            action_of(next) matches CheckActionView::Finish(result) && result is Err
        }),
{
}

/// Where no final state is stored, no verdict is written: the end is a good one where the policy
/// only warns, and a failure otherwise.
pub proof fn lemma_missing_goldens_have_no_verdict(c: CheckView, error: String, path: String)
    requires
        c.phase == CheckPhaseView::ReadingGolden,
    ensures
        ({
            let golden = GoldenRead::NotFound(error);
            let next = checked(c, CheckEvent::GoldenRead { golden, path });
            action_of(next) matches CheckActionView::Finish(result) && result is Ok == (
            c.missing_baseline == MissingBaselinePolicy::Warn)
        }),
{
}

/// Once a verification has ended, nothing that happens changes it.
pub proof fn lemma_ends_are_final(c: CheckView, event: CheckEvent)
    requires
        c.phase is Ended,
    ensures
        checked(c, event) == c,
{
}

/// A verification ends well only where the comparison passed, or there was nothing to compare
/// with.
pub proof fn lemma_passing_needs_a_reason(c: CheckView, event: CheckEvent)
    requires
        !(c.phase is Ended),
        checked(c, event).phase == CheckPhaseView::Ended(Ok(())),
    ensures
        match (c.phase, event) {
            (CheckPhaseView::ReadingGolden, CheckEvent::GoldenRead { golden, .. }) => golden
                is NotFound && c.missing_baseline == MissingBaselinePolicy::Warn,
            (CheckPhaseView::WritingVerdict(results), CheckEvent::VerdictWritten(written)) => {
                written is Ok && failed_reactions(
                    listing::<String, ReactionVerdictView>(results),
                ).len() == 0
            },
            _ => false,
        },
{
}

} // verus!
