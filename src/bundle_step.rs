//! The step that bundles a tree of script modules into one file.

use vstd::prelude::*;

verus! {

/// Paths are relative to the resource's base path, normalized; the entry point
/// and the output carry the script extension.
pub struct BundleStep {
    pub name: String,
    pub output: String,
    pub source_dir: String,
    pub entrypoint: String,
}

} // verus!
