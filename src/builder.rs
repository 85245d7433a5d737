//! The set of resources of one invocation.

use vstd::prelude::*;
use crate::build_config::{BuildConfig, ResourceRun};

verus! {

pub struct Builder {
    configs: Vec<BuildConfig>,
}

/// The first configuration named `name`.
pub open spec fn first_named(configs: Seq<BuildConfig>, name: Seq<char>) -> Option<int>
    decreases configs.len(),
{
    if configs.len() == 0 {
        None
    } else if configs[0].name@ == name {
        Some(0)
    } else {
        match first_named(configs.drop_first(), name) {
            Some(i) => Some(i + 1),
            None => None,
        }
    }
}

proof fn lemma_first_named_bounds(configs: Seq<BuildConfig>, name: Seq<char>)
    ensures
        first_named(configs, name) matches Some(i) ==> 0 <= i < configs.len() && configs[i].name@
            == name,
        first_named(configs, name) is None ==> forall|i: int|
            0 <= i < configs.len() ==> configs[i].name@ != name,
    decreases configs.len(),
{
    if configs.len() > 0 {
        lemma_first_named_bounds(configs.drop_first(), name);
        assert forall|i: int| 0 < i < configs.len() implies configs[i] == configs.drop_first()[i
            - 1] by {}
    }
}

impl Builder {
    pub closed spec fn configs(&self) -> Seq<BuildConfig> {
        self.configs@
    }

    pub fn new(configs: Vec<BuildConfig>) -> (r: Builder)
        ensures
            r.configs() == configs@,
    {
        Builder { configs }
    }

    /// Starts a run of every resource, in order.
    pub fn build(&self) -> (r: Vec<ResourceRun>)
        ensures
            r@.len() == self.configs().len(),
            forall|i: int|
                0 <= i < r@.len() ==> r@[i].total() == self.configs()[i].steps@.len()
                    && r@[i].outcomes().len() == 0 && r@[i].wf(),
    {
        let mut runs: Vec<ResourceRun> = Vec::new();
        let mut i: usize = 0;
        while i < self.configs.len()
            invariant
                i <= self.configs@.len(),
                runs@.len() == i,
                forall|j: int|
                    0 <= j < i ==> runs@[j].total() == self.configs@[j].steps@.len()
                        && runs@[j].outcomes().len() == 0 && runs@[j].wf(),
            decreases self.configs@.len() - i,
        {
            runs.push(self.configs[i].build());
            i += 1;
        }
        runs
    }

    /// Starts a run of the first resource named `resource`, if there is one.
    pub fn build_resource(&self, resource: &String) -> (r: Option<ResourceRun>)
        ensures
            r is Some <==> first_named(self.configs(), resource@) is Some,
            r matches Some(run) ==> run.total() == self.configs()[first_named(
                self.configs(),
                resource@,
            )->0].steps@.len() && run.outcomes().len() == 0 && run.wf(),
            r is None ==> forall|i: int|
                0 <= i < self.configs().len() ==> self.configs()[i].name@ != resource@,
    {
        proof {
            lemma_first_named_bounds(self.configs@, resource@);
        }
        let mut i: usize = 0;
        assert(self.configs@.subrange(0, self.configs@.len() as int) == self.configs@);
        while i < self.configs.len()
            invariant
                i <= self.configs@.len(),
                first_named(self.configs@, resource@) == match first_named(
                    self.configs@.subrange(i as int, self.configs@.len() as int),
                    resource@,
                ) {
                    Some(j) => Some(j + i),
                    None => None,
                },
            decreases self.configs@.len() - i,
        {
            let ghost rest = self.configs@.subrange(i as int, self.configs@.len() as int);
            assert(rest.drop_first() == self.configs@.subrange(i + 1, self.configs@.len() as int));
            if self.configs[i].name == *resource {
                return Some(self.configs[i].build());
            }
            i += 1;
        }
        None
    }

    pub fn len(&self) -> (r: usize)
        ensures
            r == self.configs().len(),
    {
        self.configs.len()
    }
}

} // verus!
