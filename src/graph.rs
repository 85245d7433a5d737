//! The modules a bundle is made of: each module id with the node of the file
//! it was resolved to.

use vstd::prelude::*;
use crate::relative::{normalize, normalized_path_of, script_path, script_path_of};
use crate::text::{dots_to_slashes, replace_dots};

verus! {

/// The file that a module id names, relative to the source root: dots become
/// separators, the path is normalized and takes the script extension.
pub open spec fn module_file_of(id: Seq<char>) -> Seq<char> {
    script_path_of(normalized_path_of(dots_to_slashes(id)))
}

pub fn module_file(id: &str) -> (r: String)
    ensures
        r@ == module_file_of(id@),
{
    let slashed = replace_dots(id);
    let normal = normalize(slashed.as_str());
    script_path(normal.as_str())
}

/// One source module, known by the path of its file.
pub struct DependencyNode {
    pub path: String,
}

impl DependencyNode {
    pub fn new(path: String) -> (r: DependencyNode)
        ensures
            r.path == path,
    {
        DependencyNode { path }
    }
}

/// Module ids with their nodes, in order of discovery.
pub struct ModuleGraph {
    entries: Vec<(String, DependencyNode)>,
}

pub open spec fn ids_of(entries: Seq<(Seq<char>, Seq<char>)>) -> Seq<Seq<char>> {
    entries.map_values(|e: (Seq<char>, Seq<char>)| e.0)
}

impl View for ModuleGraph {
    /// Each module id with the path of its node.
    type V = Seq<(Seq<char>, Seq<char>)>;

    closed spec fn view(&self) -> Seq<(Seq<char>, Seq<char>)> {
        self.entries@.map_values(|e: (String, DependencyNode)| (e.0@, e.1.path@))
    }
}

impl ModuleGraph {
    pub open spec fn ids(&self) -> Seq<Seq<char>> {
        ids_of(self@)
    }

    /// No module id appears twice.
    pub open spec fn wf(&self) -> bool {
        self.ids().no_duplicates()
    }

    pub fn new() -> (r: ModuleGraph)
        ensures
            r@.len() == 0,
            r.wf(),
    {
        let r = ModuleGraph { entries: Vec::new() };
        assert(r@ == Seq::<(Seq<char>, Seq<char>)>::empty());
        r
    }

    pub fn len(&self) -> (r: usize)
        ensures
            r == self@.len(),
    {
        self.entries.len()
    }

    pub fn contains_key(&self, id: &str) -> (r: bool)
        ensures
            r == self.ids().contains(id@),
    {
        let key = String::from_str(id);
        let mut i: usize = 0;
        while i < self.entries.len()
            invariant
                i <= self.entries@.len(),
                key@ == id@,
                self@.len() == self.entries@.len(),
                forall|j: int| 0 <= j < i ==> self.ids()[j] != id@,
            decreases self.entries@.len() - i,
        {
            assert(self.ids()[i as int] == self.entries@[i as int].0@);
            if self.entries[i].0 == key {
                assert(self.ids()[i as int] == id@);
                return true;
            }
            i += 1;
        }
        false
    }

    pub fn insert(&mut self, id: String, node: DependencyNode)
        requires
            old(self).wf(),
            !old(self).ids().contains(id@),
        ensures
            final(self)@ == old(self)@.push((id@, node.path@)),
            final(self).wf(),
    {
        let ghost before = self@;
        let ghost key = id@;
        self.entries.push((id, node));
        assert(self@ == before.push((key, node.path@)));
        assert(self.ids() == ids_of(before).push(key));
    }

    pub fn id_at(&self, i: usize) -> (r: &String)
        requires
            i < self@.len(),
        ensures
            r@ == self@[i as int].0,
    {
        &self.entries[i].0
    }

    pub fn node_at(&self, i: usize) -> (r: &DependencyNode)
        requires
            i < self@.len(),
        ensures
            r.path@ == self@[i as int].1,
    {
        &self.entries[i].1
    }
}

} // verus!
