//! The unit of work of a resource build and what running it reports.

use vstd::prelude::*;
use crate::bundle_step::BundleStep;
use crate::js_builder::JSBuildStep;
use crate::manifest_generator::ManifestGenerationStep;
use crate::parallel_builder::ParallelBuildStep;

verus! {

/// A build step: one of the four kinds a configuration declares.
pub enum BuildStep {
    Js(JSBuildStep),
    Bundle(BundleStep),
    Manifest(ManifestGenerationStep),
    Parallel(ParallelBuildStep),
}

/// What a step reported once it ran.
#[derive(PartialEq, Eq, Structural, Clone, Copy, Debug)]
pub enum StepOutcome {
    Succeeded,
    Failed,
}

} // verus!
