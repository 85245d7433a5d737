//! Discovery of the modules an entry module needs: the transitive closure of
//! its import statements over the files read so far.

use vstd::prelude::*;
use vstd::seq_lib::*;
use vstd::set_lib::*;
use crate::graph::{module_file, module_file_of, DependencyNode, ModuleGraph};
use crate::source::{lookup, SourceFile, SourceTree};
use crate::text::{extend_strings, strings_view};

verus! {

/// The module ids that module `id` imports, as far as its file was read.
pub open spec fn edges(files: Seq<(String, Option<SourceFile>)>, id: Seq<char>) -> Seq<Seq<char>> {
    match lookup(files, module_file_of(id)) {
        Some(Some(f)) => f.imports_view(),
        _ => seq![],
    }
}

/// `chain` starts at a root and each of its ids imports the next one.
pub open spec fn is_import_chain(
    files: Seq<(String, Option<SourceFile>)>,
    roots: Seq<Seq<char>>,
    chain: Seq<Seq<char>>,
) -> bool {
    &&& chain.len() > 0
    &&& roots.contains(chain[0])
    &&& forall|i: int|
        0 <= i < chain.len() - 1 ==> #[trigger] edges(files, chain[i]).contains(chain[i + 1])
}

/// Some import chain from the roots ends at `id`.
pub open spec fn reachable(
    files: Seq<(String, Option<SourceFile>)>,
    roots: Seq<Seq<char>>,
    id: Seq<char>,
) -> bool {
    exists|chain: Seq<Seq<char>>| #[trigger]
        is_import_chain(files, roots, chain) && chain.last() == id
}

/// Every module transitively imported from `roots`.
pub open spec fn closure(files: Seq<(String, Option<SourceFile>)>, roots: Seq<Seq<char>>) -> Set<
    Seq<char>,
> {
    Set::new(|id: Seq<char>| reachable(files, roots, id))
}

/// The file of every module in the closure was read.
pub open spec fn all_present(files: Seq<(String, Option<SourceFile>)>, roots: Seq<Seq<char>>) -> bool {
    forall|id: Seq<char>| #[trigger]
        reachable(files, roots, id) ==> lookup(files, module_file_of(id)) matches Some(Some(_))
}

/// Every id that any file read so far imports.
pub open spec fn all_imports(files: Seq<(String, Option<SourceFile>)>) -> Seq<Seq<char>>
    decreases files.len(),
{
    if files.len() == 0 {
        seq![]
    } else {
        all_imports(files.drop_last()) + match files.last().1 {
            Some(f) => f.imports_view(),
            None => seq![],
        }
    }
}

pub proof fn lemma_root_reachable(
    files: Seq<(String, Option<SourceFile>)>,
    roots: Seq<Seq<char>>,
    id: Seq<char>,
)
    requires
        roots.contains(id),
    ensures
        reachable(files, roots, id),
{
    let chain = seq![id];
    assert(is_import_chain(files, roots, chain));
}

pub proof fn lemma_edge_reachable(
    files: Seq<(String, Option<SourceFile>)>,
    roots: Seq<Seq<char>>,
    k: Seq<char>,
    t: Seq<char>,
)
    requires
        reachable(files, roots, k),
        edges(files, k).contains(t),
    ensures
        reachable(files, roots, t),
{
    let chain = choose|chain: Seq<Seq<char>>| #[trigger]
        is_import_chain(files, roots, chain) && chain.last() == k;
    let longer = chain.push(t);
    assert forall|i: int| 0 <= i < longer.len() - 1 implies #[trigger] edges(
        files,
        longer[i],
    ).contains(longer[i + 1]) by {
        if i < chain.len() - 1 {
            assert(edges(files, chain[i]).contains(chain[i + 1]));
        }
    }
    assert(is_import_chain(files, roots, longer));
}

/// A set of ids that holds the roots and every import of its members holds
/// every id of an import chain.
pub proof fn lemma_closed_holds_chain(
    files: Seq<(String, Option<SourceFile>)>,
    roots: Seq<Seq<char>>,
    s: Seq<Seq<char>>,
    chain: Seq<Seq<char>>,
    i: int,
)
    requires
        forall|r: Seq<char>| roots.contains(r) ==> s.contains(r),
        forall|k: Seq<char>, t: Seq<char>|
            s.contains(k) && #[trigger] edges(files, k).contains(t) ==> s.contains(t),
        is_import_chain(files, roots, chain),
        0 <= i < chain.len(),
    ensures
        s.contains(chain[i]),
    decreases i,
{
    if i > 0 {
        lemma_closed_holds_chain(files, roots, s, chain, i - 1);
        let j = i - 1;
        assert(edges(files, chain[j]).contains(chain[j + 1]));
    }
}

proof fn lemma_imports_in_all(files: Seq<(String, Option<SourceFile>)>, path: Seq<char>, t: Seq<char>)
    requires
        lookup(files, path) matches Some(Some(f)) && f.imports_view().contains(t),
    ensures
        all_imports(files).contains(t),
    decreases files.len(),
{
    let rest = all_imports(files.drop_last());
    if files.last().0@ == path {
        let f = files.last().1->0;
        let i = choose|i: int| 0 <= i < f.imports_view().len() && f.imports_view()[i] == t;
        assert(all_imports(files)[rest.len() + i] == t);
    } else {
        lemma_imports_in_all(files.drop_last(), path, t);
        let i = choose|i: int| 0 <= i < rest.len() && rest[i] == t;
        assert(all_imports(files)[i] == t);
    }
}

proof fn lemma_unique_within<A>(a: Seq<A>, b: Seq<A>)
    requires
        a.no_duplicates(),
        forall|x: A| a.contains(x) ==> b.contains(x),
    ensures
        a.len() <= b.len(),
{
    a.unique_seq_to_set();
    b.lemma_cardinality_of_set();
    assert(a.to_set().subset_of(b.to_set()));
    lemma_len_subset(a.to_set(), b.to_set());
}

/// The outcome of resolving the imports of an entry module.
pub enum Resolution {
    /// Every module of the closure, each once.
    Resolved(ModuleGraph),
    /// The file at this path, relative to the source root, must be looked up
    /// before resolution can go on.
    NeedFile(String),
    /// The module with this id has no file; the path is where it was looked for.
    MissingModule(String, String),
}

/// Walks the imports from `roots` over the files of `tree`, each module once.
pub fn resolve_modules(roots: &Vec<String>, tree: &SourceTree) -> (r: Resolution)
    ensures
        r is Resolved <==> all_present(tree.files@, strings_view(roots@)),
        r matches Resolution::Resolved(g) ==> {
            &&& g.wf()
            &&& g.ids().to_set() == closure(tree.files@, strings_view(roots@))
            &&& forall|i: int| 0 <= i < g@.len() ==> g@[i].1 == module_file_of(g@[i].0)
        },
        r matches Resolution::NeedFile(p) ==> tree.known(p@) is None && exists|id: Seq<char>|
            reachable(tree.files@, strings_view(roots@), id) && module_file_of(id) == p@,
        r matches Resolution::MissingModule(id, p) ==> {
            &&& reachable(tree.files@, strings_view(roots@), id@)
            &&& p@ == module_file_of(id@)
            &&& tree.known(p@) == Some(None::<SourceFile>)
        },
{
    let ghost files = tree.files@;
    let ghost rv = strings_view(roots@);
    let ghost universe = rv + all_imports(files);
    let mut graph = ModuleGraph::new();
    let mut pending: Vec<String> = Vec::new();
    extend_strings(&mut pending, roots);
    assert(strings_view(pending@) == rv);
    assert forall|x: Seq<char>| rv.contains(x) implies reachable(files, rv, x) && universe.contains(
        x,
    ) by {
        lemma_root_reachable(files, rv, x);
        let j = choose|j: int| 0 <= j < rv.len() && rv[j] == x;
        assert(universe[j] == x);
    }
    while pending.len() > 0
        invariant
            files == tree.files@,
            rv == strings_view(roots@),
            universe == rv + all_imports(files),
            graph.wf(),
            forall|i: int|
                0 <= i < graph@.len() ==> graph@[i].1 == module_file_of(graph@[i].0) && lookup(
                    files,
                    graph@[i].1,
                ) matches Some(Some(_)),
            forall|k: Seq<char>|
                #[trigger] graph.ids().contains(k) ==> reachable(files, rv, k) && universe.contains(
                    k,
                ),
            forall|x: Seq<char>|
                #[trigger] strings_view(pending@).contains(x) ==> reachable(files, rv, x)
                    && universe.contains(x),
            forall|x: Seq<char>|
                #[trigger] rv.contains(x) ==> graph.ids().contains(x) || strings_view(
                    pending@,
                ).contains(x),
            forall|k: Seq<char>, t: Seq<char>|
                graph.ids().contains(k) && #[trigger] edges(files, k).contains(t) ==> graph.ids().contains(t)
                    || strings_view(pending@).contains(t),
        decreases universe.len() - graph@.len(), pending@.len(),
    {
        proof {
            lemma_unique_within(graph.ids(), universe);
        }
        let ghost before = strings_view(pending@);
        let id = pending.pop().unwrap();
        assert(before == strings_view(pending@).push(id@));
        assert(forall|x: Seq<char>|
            before.contains(x) ==> x == id@ || strings_view(pending@).contains(x));
        assert forall|x: Seq<char>| strings_view(pending@).contains(x) implies before.contains(x) by {
            let j = choose|j: int|
                0 <= j < strings_view(pending@).len() && strings_view(pending@)[j] == x;
            assert(before[j] == x);
        }
        assert(before[before.len() - 1] == id@);
        assert(before.contains(id@));
        assert(reachable(files, rv, id@) && universe.contains(id@));
        assert forall|x: Seq<char>| #[trigger]
            strings_view(pending@).contains(x) implies reachable(files, rv, x) && universe.contains(
            x,
        ) by {
            assert(before.contains(x));
        }
        if graph.contains_key(id.as_str()) {
            continue;
        }
        let path = module_file(id.as_str());
        match tree.find(path.as_str()) {
            None => {
                return Resolution::NeedFile(path);
            },
            Some(i) => {
                match &tree.files[i].1 {
                    None => {
                        return Resolution::MissingModule(id, path);
                    },
                    Some(f) => {
                        let ghost old_ids = graph.ids();
                        let ghost popped = strings_view(pending@);
                        assert(edges(files, id@) == f.imports_view());
                        graph.insert(id.clone(), DependencyNode::new(path));
                        extend_strings(&mut pending, &f.imports);
                        assert(strings_view(pending@) == popped + f.imports_view());
                        assert(graph.ids() == old_ids.push(id@));
                        assert forall|t: Seq<char>| #[trigger]
                            f.imports_view().contains(t) implies reachable(
                            files,
                            rv,
                            t,
                        ) && universe.contains(t) by {
                            lemma_edge_reachable(files, rv, id@, t);
                            lemma_imports_in_all(files, path@, t);
                            let j = choose|j: int|
                                0 <= j < all_imports(files).len() && all_imports(files)[j] == t;
                            assert(universe[rv.len() + j] == t);
                        }
                        assert forall|x: Seq<char>| #[trigger] popped.contains(x) implies strings_view(
                            pending@,
                        ).contains(x) by {
                            let j = choose|j: int| 0 <= j < popped.len() && popped[j] == x;
                            assert(strings_view(pending@)[j] == x);
                        }
                        assert forall|x: Seq<char>| #[trigger]
                            f.imports_view().contains(x) implies strings_view(
                            pending@,
                        ).contains(x) by {
                            let j = choose|j: int|
                                0 <= j < f.imports_view().len() && f.imports_view()[j] == x;
                            assert(strings_view(pending@)[popped.len() + j] == x);
                        }
                        assert forall|x: Seq<char>| #[trigger]
                            graph.ids().contains(x) implies reachable(files, rv, x)
                            && universe.contains(x) by {
                            if x != id@ {
                                let j = choose|j: int|
                                    0 <= j < graph.ids().len() && graph.ids()[j] == x;
                                assert(old_ids[j] == x);
                                assert(old_ids.contains(x));
                            }
                        }
                        assert forall|x: Seq<char>| #[trigger]
                            strings_view(pending@).contains(x) implies reachable(files, rv, x)
                            && universe.contains(x) by {
                            let j = choose|j: int|
                                0 <= j < strings_view(pending@).len() && strings_view(pending@)[j]
                                    == x;
                            if j < popped.len() {
                                assert(popped[j] == x);
                                assert(popped.contains(x));
                            } else {
                                assert(f.imports_view()[j - popped.len()] == x);
                                assert(f.imports_view().contains(x));
                            }
                        }
                        assert forall|x: Seq<char>| #[trigger]
                            rv.contains(x) implies graph.ids().contains(x) || strings_view(
                            pending@,
                        ).contains(x) by {
                            if x == id@ {
                                assert(graph.ids()[graph.ids().len() - 1] == x);
                            } else if old_ids.contains(x) {
                                let j = choose|j: int| 0 <= j < old_ids.len() && old_ids[j] == x;
                                assert(graph.ids()[j] == x);
                            } else {
                                assert(before.contains(x));
                                assert(popped.contains(x));
                            }
                        }
                        assert forall|k: Seq<char>, t: Seq<char>|
                            graph.ids().contains(k) && #[trigger] edges(files, k).contains(
                                t,
                            ) implies graph.ids().contains(t) || strings_view(pending@).contains(
                            t,
                        ) by {
                            if t == id@ {
                                assert(graph.ids()[graph.ids().len() - 1] == t);
                            } else if k == id@ {
                                assert(f.imports_view().contains(t));
                            } else {
                                let j = choose|j: int|
                                    0 <= j < graph.ids().len() && graph.ids()[j] == k;
                                assert(old_ids[j] == k);
                                assert(old_ids.contains(k));
                                if old_ids.contains(t) {
                                    let m = choose|m: int| 0 <= m < old_ids.len() && old_ids[m] == t;
                                    assert(graph.ids()[m] == t);
                                } else {
                                    assert(before.contains(t));
                                    assert(popped.contains(t));
                                }
                            }
                        }
                        proof {
                            lemma_unique_within(graph.ids(), universe);
                        }
                    },
                }
            },
        }
    }
    let ghost ids = graph.ids();
    assert forall|id: Seq<char>| closure(files, rv).contains(id) implies ids.contains(id) by {
        let chain = choose|chain: Seq<Seq<char>>| #[trigger]
            is_import_chain(files, rv, chain) && chain.last() == id;
        lemma_closed_holds_chain(files, rv, ids, chain, chain.len() - 1);
    }
    assert forall|id: Seq<char>| ids.contains(id) implies closure(files, rv).contains(id) by {}
    assert(ids.to_set() =~= closure(files, rv));
    assert forall|id: Seq<char>| #[trigger] reachable(files, rv, id) implies lookup(
        files,
        module_file_of(id),
    ) matches Some(Some(_)) by {
        assert(closure(files, rv).contains(id));
        let i = choose|i: int| 0 <= i < ids.len() && ids[i] == id;
        assert(graph@[i].0 == id);
    }
    Resolution::Resolved(graph)
}

} // verus!
