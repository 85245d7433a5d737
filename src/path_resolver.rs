//! Locating resources and their build configuration files.

use vstd::prelude::*;
use crate::text::{same_text, strings_view};

verus! {

/// Name of the configuration file that marks a directory as a resource.
pub const BUILD_CONFIG_FILE: &'static str = "jade.xml";

/// Name of the configuration file for an optional environment tag:
/// `<env>.jade.xml` with a tag, `jade.xml` without.
pub open spec fn config_file_name(env: Option<Seq<char>>) -> Seq<char> {
    match env {
        Some(e) => e + "."@ + BUILD_CONFIG_FILE@,
        None => BUILD_CONFIG_FILE@,
    }
}

pub fn get_build_config_file(env: Option<&String>) -> (r: String)
    ensures
        r@ == config_file_name(
            match env {
                Some(e) => Some(e@),
                None => None,
            },
        ),
{
    match env {
        Some(env) => {
            let mut name = env.clone();
            name.append(".");
            name.append(BUILD_CONFIG_FILE);
            name
        },
        None => String::from_str(BUILD_CONFIG_FILE),
    }
}

/// Name of the directory that holds all resources.
pub const RESOURCES_DIR: &'static str = "resources";

/// How many leading components the deepest `resources` directory on a path
/// keeps, the path given by its components.
pub open spec fn resources_prefix(comps: Seq<Seq<char>>) -> Option<nat>
    decreases comps.len(),
{
    if comps.len() == 0 {
        None
    } else if comps.last() == RESOURCES_DIR@ {
        Some(comps.len())
    } else {
        resources_prefix(comps.drop_last())
    }
}

/// The innermost directory named `resources` among the path and its
/// ancestors, paths given by their components.
pub fn find_resources_dir(current_path: &Vec<String>) -> (r: Option<Vec<String>>)
    ensures
        match resources_prefix(strings_view(current_path@)) {
            None => r is None,
            Some(k) => r matches Some(v) && v@ == current_path@.subrange(0, k as int),
        },
{
    let ghost comps = strings_view(current_path@);
    let mut n: usize = current_path.len();
    assert(comps.subrange(0, n as int) == comps);
    while n > 0
        invariant
            n <= current_path@.len(),
            comps == strings_view(current_path@),
            resources_prefix(comps) == resources_prefix(comps.subrange(0, n as int)),
        decreases n,
    {
        assert(comps.subrange(0, n as int).drop_last() == comps.subrange(0, n - 1));
        if same_text(current_path[n - 1].as_str(), RESOURCES_DIR) {
            let mut v: Vec<String> = Vec::new();
            let mut i: usize = 0;
            while i < n
                invariant
                    i <= n <= current_path@.len(),
                    v@ == current_path@.subrange(0, i as int),
                decreases n - i,
            {
                v.push(current_path[i].clone());
                i += 1;
            }
            return Some(v);
        }
        n -= 1;
    }
    None
}

/// Whether a directory, given by the names of its entries, holds the
/// configuration file.
pub fn is_dir_a_buildable_resource(entry_names: &Vec<String>, build_config_file: &String) -> (r:
    bool)
    ensures
        r == strings_view(entry_names@).contains(build_config_file@),
{
    let mut i: usize = 0;
    while i < entry_names.len()
        invariant
            i <= entry_names@.len(),
            forall|j: int| 0 <= j < i ==> entry_names@[j]@ != build_config_file@,
        decreases entry_names@.len() - i,
    {
        if entry_names[i] == *build_config_file {
            assert(strings_view(entry_names@)[i as int] == build_config_file@);
            return true;
        }
        i += 1;
    }
    false
}

/// A bracket-named directory groups resources; it is not one itself.
pub open spec fn is_container_name(name: Seq<char>) -> bool {
    name.len() > 0 && name[0] == '[' && name.last() == ']'
}

pub fn is_container(name: &str) -> (r: bool)
    ensures
        r == is_container_name(name@),
{
    let n = name.unicode_len();
    n > 0 && name.get_char(0) == '[' && name.get_char(n - 1) == ']'
}

/// One entry of a directory listing.
pub struct DirEntry {
    pub name: String,
    pub is_dir: bool,
}

/// The directory listings read so far under the resources directory, each
/// keyed by the components of its path relative to it.
pub struct DirTree {
    pub listings: Vec<(Vec<String>, Vec<DirEntry>)>,
}

/// The listing of `dir`, if it was read; a later entry supersedes an earlier
/// one.
pub open spec fn listing_of(listings: Seq<(Vec<String>, Vec<DirEntry>)>, dir: Seq<Seq<char>>) -> Option<
    Seq<DirEntry>,
>
    decreases listings.len(),
{
    if listings.len() == 0 {
        None
    } else if strings_view(listings.last().0@) == dir {
        Some(listings.last().1@)
    } else {
        listing_of(listings.drop_last(), dir)
    }
}

/// The longest path among the listings.
pub open spec fn max_depth(listings: Seq<(Vec<String>, Vec<DirEntry>)>) -> nat
    decreases listings.len(),
{
    if listings.len() == 0 {
        0
    } else {
        let rest = max_depth(listings.drop_last());
        if listings.last().0@.len() > rest {
            listings.last().0@.len()
        } else {
            rest
        }
    }
}

pub open spec fn has_subdir(entries: Seq<DirEntry>, name: Seq<char>) -> bool {
    exists|k: int| 0 <= k < entries.len() && entries[k].is_dir && #[trigger] entries[k].name@ == name
}

pub open spec fn has_entry(entries: Seq<DirEntry>, name: Seq<char>) -> bool {
    exists|k: int| 0 <= k < entries.len() && #[trigger] entries[k].name@ == name
}

/// `d` is `base` or lies below it through bracket-named directories only,
/// each listed as a subdirectory of the one before.
pub open spec fn within(
    listings: Seq<(Vec<String>, Vec<DirEntry>)>,
    base: Seq<Seq<char>>,
    d: Seq<Seq<char>>,
) -> bool
    decreases d.len() - base.len(),
{
    if d.len() <= base.len() {
        d == base
    } else {
        &&& d.subrange(0, base.len() as int) == base
        &&& is_container_name(d[base.len() as int])
        &&& listing_of(listings, base) matches Some(es) && has_subdir(es, d[base.len() as int])
        &&& within(listings, base.push(d[base.len() as int]), d)
    }
}

/// Directory `name` of `d`, within `base`, is a resource: not bracket-named,
/// and its listing holds the configuration file.
pub open spec fn resource_in(
    listings: Seq<(Vec<String>, Vec<DirEntry>)>,
    base: Seq<Seq<char>>,
    d: Seq<Seq<char>>,
    name: Seq<char>,
    file: Seq<char>,
) -> bool {
    &&& within(listings, base, d)
    &&& listing_of(listings, d) matches Some(es) && has_subdir(es, name)
    &&& !is_container_name(name)
    &&& listing_of(listings, d.push(name)) matches Some(es) && has_entry(es, file)
}

pub open spec fn found_names(found: Seq<(String, Vec<String>)>) -> Seq<Seq<char>> {
    found.map_values(|e: (String, Vec<String>)| e.0@)
}

/// Each found resource is named once, by the last component of its path,
/// and is a resource reached from the resources directory.
pub open spec fn found_wf(
    listings: Seq<(Vec<String>, Vec<DirEntry>)>,
    found: Seq<(String, Vec<String>)>,
    file: Seq<char>,
) -> bool {
    &&& found_names(found).no_duplicates()
    &&& forall|j: int|
        0 <= j < found.len() ==> {
            let p = strings_view(#[trigger] found[j].1@);
            &&& p.len() > 0
            &&& p.last() == found[j].0@
            &&& resource_in(listings, Seq::<Seq<char>>::empty(), p.drop_last(), found[j].0@, file)
        }
}

/// A listing the walk reads: a directory reached from the resources
/// directory, or a subdirectory of one that may be a resource.
pub open spec fn needed_listing(listings: Seq<(Vec<String>, Vec<DirEntry>)>, p: Seq<Seq<char>>) -> bool {
    ||| within(listings, Seq::<Seq<char>>::empty(), p)
    ||| {
        &&& p.len() > 0
        &&& within(listings, Seq::<Seq<char>>::empty(), p.drop_last())
        &&& !is_container_name(p.last())
        &&& listing_of(listings, p.drop_last()) matches Some(es) && has_subdir(es, p.last())
    }
}

proof fn lemma_within_extend(
    listings: Seq<(Vec<String>, Vec<DirEntry>)>,
    base: Seq<Seq<char>>,
    dir: Seq<Seq<char>>,
    c: Seq<char>,
)
    requires
        within(listings, base, dir),
        is_container_name(c),
        listing_of(listings, dir) matches Some(es) && has_subdir(es, c),
    ensures
        within(listings, base, dir.push(c)),
    decreases dir.len() - base.len(),
{
    let d = dir.push(c);
    if dir.len() <= base.len() {
        assert(dir == base);
        assert(d.subrange(0, base.len() as int) == base);
        assert(d[base.len() as int] == c);
        assert(base.push(c) == d);
        assert(within(listings, base.push(c), d));
    } else {
        let c0 = dir[base.len() as int];
        lemma_within_extend(listings, base.push(c0), dir, c);
        assert(d.subrange(0, base.len() as int) == dir.subrange(0, base.len() as int));
        assert(d[base.len() as int] == c0);
    }
}

proof fn lemma_listing_depth(listings: Seq<(Vec<String>, Vec<DirEntry>)>, dir: Seq<Seq<char>>)
    requires
        listing_of(listings, dir) is Some,
    ensures
        dir.len() <= max_depth(listings),
    decreases listings.len(),
{
    if strings_view(listings.last().0@) != dir {
        lemma_listing_depth(listings.drop_last(), dir);
    }
}

impl DirTree {
    /// The index of the listing that holds what is known of `dir`.
    pub fn find(&self, dir: &Vec<String>) -> (r: Option<usize>)
        ensures
            r is None ==> listing_of(self.listings@, strings_view(dir@)) is None,
            r matches Some(i) ==> i < self.listings@.len() && listing_of(
                self.listings@,
                strings_view(dir@),
            ) == Some(self.listings@[i as int].1@),
    {
        let mut i: usize = self.listings.len();
        assert(self.listings@.subrange(0, i as int) == self.listings@);
        while i > 0
            invariant
                i <= self.listings@.len(),
                listing_of(self.listings@, strings_view(dir@)) == listing_of(
                    self.listings@.subrange(0, i as int),
                    strings_view(dir@),
                ),
            decreases i,
        {
            let ghost sub = self.listings@.subrange(0, i as int);
            assert(sub.drop_last() == self.listings@.subrange(0, i - 1));
            if same_path(&self.listings[i - 1].0, dir) {
                return Some(i - 1);
            }
            i -= 1;
        }
        None
    }
}

/// Whether two paths have the same components.
pub fn same_path(a: &Vec<String>, b: &Vec<String>) -> (r: bool)
    ensures
        r == (strings_view(a@) == strings_view(b@)),
{
    if a.len() != b.len() {
        assert(strings_view(a@).len() != strings_view(b@).len());
        return false;
    }
    let mut i: usize = 0;
    while i < a.len()
        invariant
            i <= a@.len(),
            a@.len() == b@.len(),
            forall|j: int| 0 <= j < i ==> a@[j]@ == b@[j]@,
        decreases a@.len() - i,
    {
        if a[i] != b[i] {
            assert(strings_view(a@)[i as int] != strings_view(b@)[i as int]);
            return false;
        }
        i += 1;
    }
    assert(strings_view(a@) =~= strings_view(b@));
    true
}

/// Records resource `name` at `path`, replacing an earlier one of that name.
fn upsert(found: &mut Vec<(String, Vec<String>)>, name: String, path: Vec<String>)
    requires
        found_names(old(found)@).no_duplicates(),
    ensures
        found_names(final(found)@).no_duplicates(),
        found_names(final(found)@).contains(name@),
        forall|n: Seq<char>| found_names(old(found)@).contains(n) ==> found_names(final(found)@).contains(n),
        forall|j: int|
            0 <= j < final(found)@.len() ==> final(found)@[j] == (name, path) || (exists|m: int|
                0 <= m < old(found)@.len() && final(found)@[j] == old(found)@[m]),
{
    let ghost before = found@;
    let mut i: usize = 0;
    while i < found.len()
        invariant
            i <= found@.len(),
            found@ == before,
            before == old(found)@,
            found_names(before).no_duplicates(),
            forall|j: int| 0 <= j < i ==> found@[j].0@ != name@,
        decreases found@.len() - i,
    {
        if found[i].0 == name {
            let ghost key = name@;
            found.set(i, (name, path));
            assert(found_names(found@) =~= found_names(before));
            assert(found_names(found@)[i as int] == key);
            assert forall|n: Seq<char>| found_names(before).contains(n) implies found_names(
                found@,
            ).contains(n) by {}
            assert forall|j: int| 0 <= j < found@.len() && j != i implies found@[j] == before[j] by {}
            return;
        }
        i += 1;
    }
    found.push((name, path));
    assert(found_names(found@) =~= found_names(before).push(name@));
    assert(found_names(found@)[before.len() as int] == name@);
    assert forall|n: Seq<char>| found_names(before).contains(n) implies found_names(
        found@,
    ).contains(n) by {
        let m = choose|m: int| 0 <= m < found_names(before).len() && found_names(before)[m] == n;
        assert(found_names(found@)[m] == n);
    }
    assert forall|j: int| 0 <= j < found@.len() && j != before.len() implies found@[j] == before[j] by {}
}

/// The path of entry `name` of `dir`.
fn child_path(dir: &Vec<String>, name: &String) -> (r: Vec<String>)
    ensures
        r@ == dir@.push(*name),
{
    let mut r: Vec<String> = Vec::new();
    let mut i: usize = 0;
    while i < dir.len()
        invariant
            i <= dir@.len(),
            r@ == dir@.subrange(0, i as int),
        decreases dir@.len() - i,
    {
        r.push(dir[i].clone());
        i += 1;
    }
    r.push(name.clone());
    r
}

fn has_file(entries: &Vec<DirEntry>, file: &String) -> (r: bool)
    ensures
        r == has_entry(entries@, file@),
{
    let mut i: usize = 0;
    while i < entries.len()
        invariant
            i <= entries@.len(),
            forall|j: int| 0 <= j < i ==> entries@[j].name@ != file@,
        decreases entries@.len() - i,
    {
        if entries[i].name == *file {
            return true;
        }
        i += 1;
    }
    false
}

/// Walks `dir` and the bracket-named directories below it, recording each
/// resource in `found`; returns the first directory whose listing is needed
/// and was not read.
fn scan(tree: &DirTree, dir: &Vec<String>, file: &String, found: &mut Vec<(String, Vec<String>)>) -> (r:
    Option<Vec<String>>)
    requires
        found_wf(tree.listings@, old(found)@, file@),
        dir@.len() <= max_depth(tree.listings@) + 1,
        within(tree.listings@, Seq::<Seq<char>>::empty(), strings_view(dir@)),
    ensures
        found_wf(tree.listings@, final(found)@, file@),
        forall|n: Seq<char>|
            found_names(old(found)@).contains(n) ==> found_names(final(found)@).contains(n),
        r matches Some(p) ==> listing_of(tree.listings@, strings_view(p@)) is None
            && needed_listing(tree.listings@, strings_view(p@)),
        r is None ==> forall|d: Seq<Seq<char>>, n: Seq<char>|
            #[trigger] resource_in(tree.listings@, strings_view(dir@), d, n, file@) ==> found_names(
                final(found)@,
            ).contains(n),
    decreases max_depth(tree.listings@) + 1 - dir@.len(),
{
    let li = match tree.find(dir) {
        None => {
            return Some(copy_path(dir));
        },
        Some(i) => i,
    };
    let ghost listings = tree.listings@;
    let ghost base = strings_view(dir@);
    proof {
        lemma_listing_depth(listings, base);
    }
    let entries = &tree.listings[li].1;
    let mut k: usize = 0;
    while k < entries.len()
        invariant
            k <= entries@.len(),
            listings == tree.listings@,
            base == strings_view(dir@),
            listing_of(listings, base) == Some(entries@),
            within(listings, Seq::<Seq<char>>::empty(), base),
            dir@.len() <= max_depth(listings),
            found_wf(listings, found@, file@),
            forall|n: Seq<char>|
                found_names(old(found)@).contains(n) ==> found_names(found@).contains(n),
            forall|j: int|
                0 <= j < k && entries@[j].is_dir && is_container_name(entries@[j].name@) ==> forall|
                    d: Seq<Seq<char>>,
                    n: Seq<char>,
                | #[trigger]
                    resource_in(listings, base.push(entries@[j].name@), d, n, file@)
                        ==> found_names(found@).contains(n),
            forall|j: int|
                0 <= j < k && entries@[j].is_dir && !is_container_name(entries@[j].name@) && (
                listing_of(listings, base.push(entries@[j].name@)) matches Some(es) && has_entry(
                    es,
                    file@,
                )) ==> found_names(found@).contains(entries@[j].name@),
        decreases entries@.len() - k,
    {
        let entry = &entries[k];
        let ghost names_before = found_names(found@);
        if entry.is_dir {
            let child = child_path(dir, &entry.name);
            assert(strings_view(child@) =~= base.push(entry.name@));
            assert(entries@[k as int].name@ == entry.name@);
            if is_container(entry.name.as_str()) {
                proof {
                    lemma_within_extend(listings, Seq::<Seq<char>>::empty(), base, entry.name@);
                }
                match scan(tree, &child, file, found) {
                    Some(p) => {
                        return Some(p);
                    },
                    None => {},
                }
            } else {
                match tree.find(&child) {
                    None => {
                        assert(strings_view(child@).drop_last() == base);
                        return Some(child);
                    },
                    Some(ci) => {
                        if has_file(&tree.listings[ci].1, file) {
                            assert(resource_in(
                                listings,
                                Seq::<Seq<char>>::empty(),
                                base,
                                entry.name@,
                                file@,
                            ));
                            assert(strings_view(child@).drop_last() == base);
                            let ghost old_found = found@;
                            let ghost new_entry = (entry.name@, strings_view(child@));
                            upsert(found, entry.name.clone(), child);
                            assert forall|j: int| 0 <= j < found@.len() implies {
                                let p = strings_view(#[trigger] found@[j].1@);
                                &&& p.len() > 0
                                &&& p.last() == found@[j].0@
                                &&& resource_in(
                                    listings,
                                    Seq::<Seq<char>>::empty(),
                                    p.drop_last(),
                                    found@[j].0@,
                                    file@,
                                )
                            } by {
                                if exists|m: int|
                                    0 <= m < old_found.len() && found@[j] == old_found[m] {
                                    let m = choose|m: int|
                                        0 <= m < old_found.len() && found@[j] == old_found[m];
                                    assert(old_found[m].1@ == found@[j].1@);
                                } else {
                                    assert((found@[j].0@, strings_view(found@[j].1@)) == new_entry);
                                }
                            }
                        }
                    },
                }
            }
        }
        assert(forall|n: Seq<char>| names_before.contains(n) ==> found_names(found@).contains(n));
        k += 1;
    }
    assert forall|d: Seq<Seq<char>>, n: Seq<char>| #[trigger]
        resource_in(listings, base, d, n, file@) implies found_names(found@).contains(n) by {
        if d.len() <= base.len() {
            let m = choose|m: int| 0 <= m < entries@.len() && entries@[m].is_dir && #[trigger] entries@[m].name@ == n;
            assert(entries@[m].name@ == n);
        } else {
            let c = d[base.len() as int];
            let m = choose|m: int| 0 <= m < entries@.len() && entries@[m].is_dir && #[trigger] entries@[m].name@ == c;
            assert(entries@[m].name@ == c);
            assert(resource_in(listings, base.push(c), d, n, file@));
        }
    }
    None
}

/// A copy of a path.
fn copy_path(dir: &Vec<String>) -> (r: Vec<String>)
    ensures
        r@ == dir@,
{
    let mut r: Vec<String> = Vec::new();
    let mut i: usize = 0;
    while i < dir.len()
        invariant
            i <= dir@.len(),
            r@ == dir@.subrange(0, i as int),
        decreases dir@.len() - i,
    {
        r.push(dir[i].clone());
        i += 1;
    }
    r
}

/// What walking the resources directory gave.
pub enum Enumeration {
    /// Each resource's name with its directory, relative to the resources
    /// directory.
    Found(Vec<(String, Vec<String>)>),
    /// The listing of this directory must be read first.
    NeedListing(Vec<String>),
}

/// The resources under the resources directory: its subdirectories that hold
/// the configuration file, bracket-named directories being walked through as if
/// their subdirectories stood in their place. A later resource of the same
/// name replaces an earlier one.
pub fn enumerate_buildable_resources(tree: &DirTree, build_env: Option<&String>) -> (r: Enumeration)
    ensures
        ({
            let file = config_file_name(
                match build_env {
                    Some(e) => Some(e@),
                    None => None,
                },
            );
            &&& r matches Enumeration::Found(v) ==> found_wf(tree.listings@, v@, file) && forall|
                d: Seq<Seq<char>>,
                n: Seq<char>,
            | #[trigger]
                resource_in(tree.listings@, Seq::<Seq<char>>::empty(), d, n, file) ==> found_names(
                    v@,
                ).contains(n)
            &&& r matches Enumeration::NeedListing(p) ==> listing_of(
                tree.listings@,
                strings_view(p@),
            ) is None && needed_listing(tree.listings@, strings_view(p@))
        }),
{
    let file = get_build_config_file(build_env);
    let root: Vec<String> = Vec::new();
    let mut found: Vec<(String, Vec<String>)> = Vec::new();
    assert(found_names(found@) =~= Seq::<Seq<char>>::empty());
    assert(strings_view(root@) =~= Seq::<Seq<char>>::empty());
    match scan(tree, &root, &file, &mut found) {
        Some(p) => Enumeration::NeedListing(p),
        None => Enumeration::Found(found),
    }
}

} // verus!
