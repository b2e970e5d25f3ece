//! Generators of a source's changes.

use vstd::prelude::*;

verus! {

/// What a generator of changes is doing.
#[derive(Clone, Copy, Debug, PartialEq, Eq, Structural)]
pub enum SourceChangeGeneratorStatus {
    Running,
    Stepping,
    Skipping,
    Paused,
    Stopped,
    Finished,
    Error,
}

impl SourceChangeGeneratorStatus {
    /// Changes are being processed.
    pub open spec fn processing(self) -> bool {
        self == SourceChangeGeneratorStatus::Running || self == SourceChangeGeneratorStatus::Stepping
            || self == SourceChangeGeneratorStatus::Skipping
    }

    /// Whether changes are being processed.
    pub fn is_processing(&self) -> (r: bool)
        ensures
            r == self.processing(),
    {
        matches!(
            self,
            SourceChangeGeneratorStatus::Running | SourceChangeGeneratorStatus::Stepping
                | SourceChangeGeneratorStatus::Skipping
        )
    }

    /// Only a reset leads out of this status.
    pub open spec fn terminal(self) -> bool {
        self == SourceChangeGeneratorStatus::Stopped || self == SourceChangeGeneratorStatus::Finished
            || self == SourceChangeGeneratorStatus::Error
    }
}

} // verus!
