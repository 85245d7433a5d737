//! Script sources as the bundler sees them: each file's text with the module
//! ids its import statements name, and the files read so far under a source
//! root.

use vstd::prelude::*;
use crate::text::strings_view;

verus! {

/// The import statement: `require("<module-id>")`; its first group is the id.
pub const REQUIRE_PATTERN: &'static str = "require\\(\"([^\"]+)\"\\)";

/// What matching `pattern` against `text` yields: `None` where the pattern does
/// not compile, else, for each successive non-overlapping match, the text of
/// its first group (`None` where that group took no part in the match).
pub uninterp spec fn first_groups_of(pattern: Seq<char>, text: Seq<char>) -> Option<
    Seq<Option<Seq<char>>>,
>;

pub open spec fn group_views(gs: Seq<Option<String>>) -> Seq<Option<Seq<char>>> {
    gs.map_values(|g: Option<String>| match g {
        Some(s) => Some(s@),
        None => None,
    })
}

/// Relies on `regex::Regex::new` and `regex::Regex::captures_iter`: whether the
/// pattern compiles, and the first groups of its matches, depend on the pattern
/// and the text alone.
#[verifier::external_body]
fn first_groups(pattern: &str, text: &str) -> (r: Option<Vec<Option<String>>>)
    ensures
        r is None ==> first_groups_of(pattern@, text@) is None,
        r matches Some(v) ==> first_groups_of(pattern@, text@) == Some(group_views(v@)),
{
    match regex::Regex::new(pattern) {
        Ok(re) => Some(
            re.captures_iter(text).map(|c| c.get(1).map(|m| m.as_str().to_string())).collect(),
        ),
        Err(_) => None,
    }
}

/// The groups that took part in their match, in order.
pub open spec fn present_groups(gs: Seq<Option<Seq<char>>>) -> Seq<Seq<char>>
    decreases gs.len(),
{
    if gs.len() == 0 {
        seq![]
    } else {
        let rest = present_groups(gs.drop_last());
        match gs.last() {
            Some(g) => rest.push(g),
            None => rest,
        }
    }
}

/// The module ids that the import statements of `text` name, in order of
/// appearance, repeats included.
pub open spec fn require_targets_of(text: Seq<char>) -> Option<Seq<Seq<char>>> {
    match first_groups_of(REQUIRE_PATTERN@, text) {
        Some(gs) => Some(present_groups(gs)),
        None => None,
    }
}

/// The module ids named by the import statements of `text`.
pub fn scan_requires(text: &str) -> (r: Option<Vec<String>>)
    ensures
        r is None <==> require_targets_of(text@) is None,
        r matches Some(v) ==> require_targets_of(text@) == Some(strings_view(v@)),
{
    match first_groups(REQUIRE_PATTERN, text) {
        None => None,
        Some(groups) => {
            let ghost gv = group_views(groups@);
            let mut out: Vec<String> = Vec::new();
            let mut i: usize = 0;
            while i < groups.len()
                invariant
                    i <= groups@.len(),
                    gv == group_views(groups@),
                    strings_view(out@) == present_groups(gv.subrange(0, i as int)),
                decreases groups@.len() - i,
            {
                assert(gv.subrange(0, i + 1).drop_last() == gv.subrange(0, i as int));
                match &groups[i] {
                    Some(g) => {
                        out.push(g.clone());
                        assert(strings_view(out@) == strings_view(out@.drop_last()).push(g@));
                    },
                    None => {},
                }
                i += 1;
            }
            assert(gv.subrange(0, groups@.len() as int) == gv);
            Some(out)
        },
    }
}

/// One script file: its text and the module ids its import statements name.
pub struct SourceFile {
    pub contents: String,
    pub imports: Vec<String>,
}

impl SourceFile {
    pub open spec fn imports_view(&self) -> Seq<Seq<char>> {
        strings_view(self.imports@)
    }

    /// The file with the given text, its imports scanned; `None` only where the
    /// import pattern cannot be matched at all.
    pub fn new(contents: String) -> (r: Option<SourceFile>)
        ensures
            r is None <==> require_targets_of(contents@) is None,
            r matches Some(f) ==> f.contents == contents && require_targets_of(contents@) == Some(
                f.imports_view(),
            ),
    {
        match scan_requires(contents.as_str()) {
            Some(imports) => Some(SourceFile { contents, imports }),
            None => None,
        }
    }
}

/// What is known of the file at `path`: `None` when it was never looked up,
/// `Some(None)` when it does not exist, `Some(Some(f))` when it was read. A
/// later entry for the same path supersedes an earlier one.
pub open spec fn lookup(files: Seq<(String, Option<SourceFile>)>, path: Seq<char>) -> Option<
    Option<SourceFile>,
>
    decreases files.len(),
{
    if files.len() == 0 {
        None
    } else if files.last().0@ == path {
        Some(files.last().1)
    } else {
        lookup(files.drop_last(), path)
    }
}

/// The files looked up so far under one source root, keyed by their path
/// relative to it.
pub struct SourceTree {
    pub files: Vec<(String, Option<SourceFile>)>,
}

impl SourceTree {
    pub open spec fn known(&self, path: Seq<char>) -> Option<Option<SourceFile>> {
        lookup(self.files@, path)
    }

    pub fn new() -> (r: SourceTree)
        ensures
            r.files@.len() == 0,
    {
        SourceTree { files: Vec::new() }
    }

    /// Records what was found at `path`: the file, or `None` where there is none.
    pub fn insert(&mut self, path: String, file: Option<SourceFile>)
        ensures
            final(self).files@ == old(self).files@.push((path, file)),
            final(self).known(path@) == Some(file),
    {
        let ghost p = path@;
        self.files.push((path, file));
        assert(final(self).files@.last().0@ == p);
    }

    /// The index of the entry that holds what is known of `path`.
    pub fn find(&self, path: &str) -> (r: Option<usize>)
        ensures
            r is None ==> self.known(path@) is None,
            r matches Some(i) ==> i < self.files@.len() && self.files@[i as int].0@ == path@
                && self.known(path@) == Some(self.files@[i as int].1),
    {
        let key = String::from_str(path);
        let mut i: usize = self.files.len();
        assert(self.files@.subrange(0, i as int) == self.files@);
        while i > 0
            invariant
                i <= self.files@.len(),
                key@ == path@,
                lookup(self.files@, path@) == lookup(self.files@.subrange(0, i as int), path@),
            decreases i,
        {
            let ghost sub = self.files@.subrange(0, i as int);
            assert(sub.drop_last() == self.files@.subrange(0, i - 1));
            if self.files[i - 1].0 == key {
                return Some(i - 1);
            }
            i -= 1;
        }
        None
    }
}

} // verus!
