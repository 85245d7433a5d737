//! A resource's build configuration: its name and ordered steps, and the run
//! that executes them in declared order without stopping at a failure.

use vstd::prelude::*;
use crate::build_step::{BuildStep, StepOutcome};

verus! {

pub struct BuildConfig {
    pub name: String,
    pub steps: Vec<BuildStep>,
}

/// How many of `outcomes` are failures.
pub open spec fn failures_in(outcomes: Seq<StepOutcome>) -> nat
    decreases outcomes.len(),
{
    if outcomes.len() == 0 {
        0
    } else {
        failures_in(outcomes.drop_last()) + if outcomes.last() == StepOutcome::Failed {
            1nat
        } else {
            0nat
        }
    }
}

/// One run of a resource's steps: how many there are and what each finished
/// one reported, in order.
pub struct ResourceRun {
    total: usize,
    outcomes: Vec<StepOutcome>,
}

impl BuildConfig {
    pub fn from_steps(name: String, steps: Vec<BuildStep>) -> (r: BuildConfig)
        ensures
            r.name == name,
            r.steps@ == steps@,
    {
        BuildConfig { name, steps }
    }

    pub fn step_count(&self) -> (r: usize)
        ensures
            r == self.steps@.len(),
    {
        self.steps.len()
    }

    pub fn step(&self, i: usize) -> (r: &BuildStep)
        requires
            i < self.steps@.len(),
        ensures
            *r == self.steps@[i as int],
    {
        &self.steps[i]
    }

    /// A configuration without steps is legal but likely a mistake.
    pub fn warns_empty(&self) -> (r: bool)
        ensures
            r == (self.steps@.len() == 0),
    {
        self.steps.len() == 0
    }

    /// Starts a run of the steps, in declared order.
    pub fn build(&self) -> (r: ResourceRun)
        ensures
            r.total() == self.steps@.len(),
            r.outcomes().len() == 0,
            r.wf(),
    {
        ResourceRun { total: self.steps.len(), outcomes: Vec::new() }
    }
}

impl ResourceRun {
    pub closed spec fn total(&self) -> nat {
        self.total as nat
    }

    pub closed spec fn outcomes(&self) -> Seq<StepOutcome> {
        self.outcomes@
    }

    pub open spec fn wf(&self) -> bool {
        self.outcomes().len() <= self.total()
    }

    /// The step to run next: the one after those that reported, whatever they
    /// reported; `None` once all have.
    pub fn next_step(&self) -> (r: Option<usize>)
        requires
            self.wf(),
        ensures
            r == if self.outcomes().len() < self.total() {
                Some(self.outcomes().len() as usize)
            } else {
                None::<usize>
            },
    {
        if self.outcomes.len() < self.total {
            Some(self.outcomes.len())
        } else {
            None
        }
    }

    /// Records what the step just run reported.
    pub fn record(&mut self, outcome: StepOutcome)
        requires
            old(self).outcomes().len() < old(self).total(),
        ensures
            final(self).total() == old(self).total(),
            final(self).outcomes() == old(self).outcomes().push(outcome),
            final(self).wf(),
    {
        self.outcomes.push(outcome);
    }

    pub fn is_finished(&self) -> (r: bool)
        ensures
            r == (self.outcomes().len() >= self.total()),
    {
        self.outcomes.len() >= self.total
    }

    pub fn failures(&self) -> (r: usize)
        ensures
            r == failures_in(self.outcomes()),
    {
        let mut count: usize = 0;
        let mut i: usize = 0;
        while i < self.outcomes.len()
            invariant
                i <= self.outcomes@.len(),
                count == failures_in(self.outcomes@.subrange(0, i as int)),
                count <= i,
            decreases self.outcomes@.len() - i,
        {
            assert(self.outcomes@.subrange(0, i + 1).drop_last() == self.outcomes@.subrange(
                0,
                i as int,
            ));
            if self.outcomes[i] == StepOutcome::Failed {
                count += 1;
            }
            i += 1;
        }
        assert(self.outcomes@.subrange(0, self.outcomes@.len() as int) == self.outcomes@);
        count
    }
}

} // verus!
