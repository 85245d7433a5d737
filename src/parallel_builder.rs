//! A group of steps run concurrently as one step: every child is started, the
//! group waits for all of them, and a failure cancels nothing.

use vstd::prelude::*;
use crate::build_step::{BuildStep, StepOutcome};

verus! {

pub struct ParallelBuildStep {
    pub steps: Vec<BuildStep>,
}

/// The group's outcome: none while a child is still running, a failure when
/// any child failed, success otherwise.
pub open spec fn group_outcome(outcomes: Seq<Option<StepOutcome>>) -> Option<StepOutcome> {
    if exists|i: int| 0 <= i < outcomes.len() && outcomes[i] is None {
        None
    } else if exists|i: int| 0 <= i < outcomes.len() && outcomes[i] == Some(StepOutcome::Failed) {
        Some(StepOutcome::Failed)
    } else {
        Some(StepOutcome::Succeeded)
    }
}

/// A running group: the outcome of each child, `None` until it arrives.
pub struct ParallelRun {
    outcomes: Vec<Option<StepOutcome>>,
}

impl View for ParallelRun {
    type V = Seq<Option<StepOutcome>>;

    closed spec fn view(&self) -> Seq<Option<StepOutcome>> {
        self.outcomes@
    }
}

impl ParallelBuildStep {
    /// Starts the group: every child is to be run at once with the same
    /// context, none has reported yet.
    pub fn build(&self) -> (r: ParallelRun)
        ensures
            r@.len() == self.steps@.len(),
            forall|i: int| 0 <= i < r@.len() ==> r@[i] is None,
    {
        let mut outcomes: Vec<Option<StepOutcome>> = Vec::new();
        let mut i: usize = 0;
        while i < self.steps.len()
            invariant
                i <= self.steps@.len(),
                outcomes@.len() == i,
                forall|j: int| 0 <= j < i ==> outcomes@[j] is None,
            decreases self.steps@.len() - i,
        {
            outcomes.push(None);
            i += 1;
        }
        ParallelRun { outcomes }
    }
}

impl ParallelRun {
    /// Records what child `index` reported.
    pub fn record(&mut self, index: usize, outcome: StepOutcome)
        requires
            index < old(self)@.len(),
            old(self)@[index as int] is None,
        ensures
            final(self)@ == old(self)@.update(index as int, Some(outcome)),
    {
        self.outcomes.set(index, Some(outcome));
    }

    pub fn outcome(&self) -> (r: Option<StepOutcome>)
        ensures
            r == group_outcome(self@),
    {
        let mut failed = false;
        let mut i: usize = 0;
        while i < self.outcomes.len()
            invariant
                i <= self.outcomes@.len(),
                forall|j: int| 0 <= j < i ==> self.outcomes@[j] is Some,
                failed <==> exists|j: int|
                    0 <= j < i && self.outcomes@[j] == Some(StepOutcome::Failed),
            decreases self.outcomes@.len() - i,
        {
            match self.outcomes[i] {
                None => {
                    return None;
                },
                Some(StepOutcome::Failed) => {
                    failed = true;
                },
                Some(StepOutcome::Succeeded) => {},
            }
            i += 1;
        }
        if failed {
            Some(StepOutcome::Failed)
        } else {
            Some(StepOutcome::Succeeded)
        }
    }

    /// Every child's outcome, in the order of the group's steps.
    pub fn report(&self) -> (r: Vec<StepOutcome>)
        requires
            group_outcome(self@) is Some,
        ensures
            r@.len() == self@.len(),
            forall|i: int| 0 <= i < r@.len() ==> self@[i] == Some(r@[i]),
    {
        let mut r: Vec<StepOutcome> = Vec::new();
        let mut i: usize = 0;
        while i < self.outcomes.len()
            invariant
                i <= self.outcomes@.len(),
                group_outcome(self@) is Some,
                r@.len() == i,
                forall|j: int| 0 <= j < i ==> self@[j] == Some(r@[j]),
            decreases self.outcomes@.len() - i,
        {
            assert(self@[i as int] is Some);
            match self.outcomes[i] {
                Some(o) => r.push(o),
                None => {},
            }
            i += 1;
        }
        r
    }
}

/// A group of steps where one failed and all others succeeded: the group is
/// not finished while any outcome is missing, keeps every outcome, and reports
/// failure once all have arrived.
pub proof fn lemma_group_waits_for_all(outcomes: Seq<Option<StepOutcome>>, k: int)
    requires
        0 <= k < outcomes.len(),
        outcomes[k] == Some(StepOutcome::Failed),
        forall|i: int| 0 <= i < outcomes.len() && i != k ==> outcomes[i] == Some(StepOutcome::Succeeded),
    ensures
        group_outcome(outcomes) == Some(StepOutcome::Failed),
        forall|j: int| 0 <= j < outcomes.len() ==> #[trigger] group_outcome(outcomes.update(j, None)) is None,
{
    assert forall|j: int| 0 <= j < outcomes.len() implies #[trigger] group_outcome(
        outcomes.update(j, None),
    ) is None by {
        assert(outcomes.update(j, None)[j] is None);
    }
}

} // verus!
