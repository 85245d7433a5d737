//! Relative paths, as written in configuration files and import statements.

use vstd::prelude::*;

verus! {

/// The normal form of a relative path: `.` components dropped, `..` components
/// resolved against what precedes them, separators collapsed.
pub uninterp spec fn normalized_path_of(p: Seq<char>) -> Seq<char>;

/// A relative path whose file name carries the extension `ext`, replacing the
/// extension it had.
pub uninterp spec fn with_extension_of(p: Seq<char>, ext: Seq<char>) -> Seq<char>;

/// Extension of script files, modules and bundles alike.
pub const SCRIPT_EXTENSION: &'static str = "lua";

/// A relative path turned into the path of a script file.
pub open spec fn script_path_of(p: Seq<char>) -> Seq<char> {
    with_extension_of(p, SCRIPT_EXTENSION@)
}

/// Relies on `relative_path::RelativePath::normalize`: a function of the path
/// text alone.
#[verifier::external_body]
pub(crate) fn normalize(p: &str) -> (r: String)
    ensures
        r@ == normalized_path_of(p@),
{
    relative_path::RelativePath::new(p).normalize().into_string()
}

/// Relies on `relative_path::RelativePath::with_extension`: a function of the
/// path text and the extension alone.
#[verifier::external_body]
pub(crate) fn with_extension(p: &str, ext: &str) -> (r: String)
    ensures
        r@ == with_extension_of(p@, ext@),
{
    relative_path::RelativePath::new(p).with_extension(ext).into_string()
}

pub fn script_path(p: &str) -> (r: String)
    ensures
        r@ == script_path_of(p@),
{
    with_extension(p, SCRIPT_EXTENSION)
}

} // verus!
