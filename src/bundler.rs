//! The bundle file: a lazy-loading preamble, one registry entry per module and
//! the entry module's text, and the bundler that resolves and writes it.

use vstd::prelude::*;
use crate::bundle_step::BundleStep;
use crate::graph::{ids_of, module_file_of, DependencyNode, ModuleGraph};
use crate::resolver::{
    all_present, closure, edges, is_import_chain, lemma_closed_holds_chain, lemma_edge_reachable,
    lemma_root_reachable, reachable, resolve_modules, Resolution,
};
use crate::source::{lookup, SourceFile, SourceTree};

verus! {

/// Defines the registry of deferred module initializers, the cache of their
/// values, and an import function that runs each initializer once, on first
/// use, and serves the cached value afterwards.
pub const BUNDLE_PREAMBLE: &'static str = "--[[Generated with Jade (https://github.com/JaRoLoz)]]
local ____bundle__dict, ____bundle__cache = {}, {}
require = function(module)
    if ____bundle__cache[module] then
        return ____bundle__cache[module]
    end
    local module_func = ____bundle__dict[module]()
    ____bundle__cache[module] = module_func
    return module_func
end
";

pub const REGISTRY_OPEN: &'static str = "____bundle__dict[\"";

pub const REGISTRY_BODY: &'static str = "\"] = function()\n";

pub const REGISTRY_CLOSE: &'static str = "\nend\n";

/// The registry assignment of one module: a deferred block around its text.
pub open spec fn registry_entry(id: Seq<char>, contents: Seq<char>) -> Seq<char> {
    REGISTRY_OPEN@ + id + REGISTRY_BODY@ + contents + REGISTRY_CLOSE@
}

/// The registry assignments of `modules` (id and text), in order.
pub open spec fn registry_section(modules: Seq<(Seq<char>, Seq<char>)>) -> Seq<char>
    decreases modules.len(),
{
    if modules.len() == 0 {
        seq![]
    } else {
        registry_section(modules.drop_last()) + registry_entry(
            modules.last().0,
            modules.last().1,
        )
    }
}

/// The whole bundle: preamble, registry, then the entry module's text verbatim.
pub open spec fn bundle_text(modules: Seq<(Seq<char>, Seq<char>)>, entry: Seq<char>) -> Seq<char> {
    BUNDLE_PREAMBLE@ + registry_section(modules) + entry
}

/// The text read for `path`, empty where none was.
pub open spec fn file_contents(files: Seq<(String, Option<SourceFile>)>, path: Seq<char>) -> Seq<
    char,
> {
    match lookup(files, path) {
        Some(Some(f)) => f.contents@,
        _ => seq![],
    }
}

/// Each module id of `graph` with the text of its file.
pub open spec fn module_sources(
    graph: Seq<(Seq<char>, Seq<char>)>,
    files: Seq<(String, Option<SourceFile>)>,
) -> Seq<(Seq<char>, Seq<char>)> {
    graph.map_values(|e: (Seq<char>, Seq<char>)| (e.0, file_contents(files, e.1)))
}

/// How far bundling got.
pub enum BundleStatus {
    /// Every module the entry needs was found; the bundle can be written.
    Bundled,
    /// The file at this path, relative to the source root, must be looked up
    /// first.
    NeedFile(String),
    /// The module with this id has no file; the path is where it was looked for.
    MissingModule(String, String),
}

pub struct Bundler {
    entrypoint: String,
    main_node: Option<DependencyNode>,
    modules: ModuleGraph,
}

impl Bundler {
    /// Path of the entry module's file.
    pub closed spec fn entry_path(&self) -> Seq<char> {
        self.entrypoint@
    }

    /// Whether the entry module was resolved.
    pub closed spec fn is_bundled(&self) -> bool {
        self.main_node is Some
    }

    /// The modules of the bundle: each id with the path of its file.
    pub closed spec fn modules(&self) -> Seq<(Seq<char>, Seq<char>)> {
        self.modules@
    }

    pub fn new(config: &BundleStep) -> (r: Bundler)
        ensures
            r.entry_path() == config.entrypoint@,
            !r.is_bundled(),
            r.modules().len() == 0,
    {
        Bundler { entrypoint: config.entrypoint.clone(), main_node: None, modules: ModuleGraph::new() }
    }

    /// Resolves the modules that `entry`, the text of the entry point, needs,
    /// over the files of `tree`. On anything but success the bundler is left as
    /// it was.
    pub fn bundle(&mut self, entry: &SourceFile, tree: &SourceTree) -> (r: BundleStatus)
        ensures
            r is Bundled <==> all_present(tree.files@, entry.imports_view()),
            r is Bundled ==> {
                &&& final(self).is_bundled()
                &&& final(self).entry_path() == old(self).entry_path()
                &&& ids_of(final(self).modules()).no_duplicates()
                &&& ids_of(final(self).modules()).to_set() == closure(
                    tree.files@,
                    entry.imports_view(),
                )
                &&& forall|i: int|
                    0 <= i < final(self).modules().len() ==> final(self).modules()[i].1
                        == module_file_of(final(self).modules()[i].0)
            },
            !(r is Bundled) ==> *final(self) == *old(self),
            r matches BundleStatus::NeedFile(p) ==> tree.known(p@) is None && exists|id: Seq<char>|
                reachable(tree.files@, entry.imports_view(), id) && module_file_of(id) == p@,
            r matches BundleStatus::MissingModule(id, p) ==> {
                &&& reachable(tree.files@, entry.imports_view(), id@)
                &&& p@ == module_file_of(id@)
                &&& tree.known(p@) == Some(None::<SourceFile>)
            },
    {
        match resolve_modules(&entry.imports, tree) {
            Resolution::Resolved(graph) => {
                self.main_node = Some(DependencyNode::new(self.entrypoint.clone()));
                self.modules = graph;
                BundleStatus::Bundled
            },
            Resolution::NeedFile(p) => BundleStatus::NeedFile(p),
            Resolution::MissingModule(id, p) => BundleStatus::MissingModule(id, p),
        }
    }

    /// Appends the bundle to `out`: the preamble, one registry entry per module
    /// with the text `tree` holds for its file, then the entry's text.
    pub fn write_bundle(&self, entry: &SourceFile, tree: &SourceTree, out: &mut String)
        requires
            self.is_bundled(),
        ensures
            final(out)@ == old(out)@ + bundle_text(
                module_sources(self.modules(), tree.files@),
                entry.contents@,
            ),
    {
        let ghost sources = module_sources(self.modules@, tree.files@);
        out.append(BUNDLE_PREAMBLE);
        let mut i: usize = 0;
        while i < self.modules.len()
            invariant
                i <= self.modules@.len(),
                sources == module_sources(self.modules@, tree.files@),
                out@ == old(out)@ + BUNDLE_PREAMBLE@ + registry_section(
                    sources.subrange(0, i as int),
                ),
            decreases self.modules@.len() - i,
        {
            let ghost before = out@;
            let id = self.modules.id_at(i);
            let node = self.modules.node_at(i);
            out.append(REGISTRY_OPEN);
            out.append(id.as_str());
            out.append(REGISTRY_BODY);
            let ghost mid = out@;
            match tree.find(node.path.as_str()) {
                Some(j) => match &tree.files[j].1 {
                    Some(f) => out.append(f.contents.as_str()),
                    None => {},
                },
                None => {},
            }
            assert(out@ == mid + file_contents(tree.files@, node.path@));
            out.append(REGISTRY_CLOSE);
            assert(sources.subrange(0, i + 1).drop_last() == sources.subrange(0, i as int));
            assert(out@ == before + registry_entry(id@, file_contents(tree.files@, node.path@)));
            i += 1;
        }
        assert(sources.subrange(0, self.modules@.len() as int) == sources);
        out.append(entry.contents.as_str());
    }
}

/// Cyclic or not, a bundled graph puts in the registry exactly the modules
/// transitively imported from the entry, each under a single entry.
pub proof fn lemma_registry_holds_closure_once(
    files: Seq<(String, Option<SourceFile>)>,
    roots: Seq<Seq<char>>,
    graph: Seq<(Seq<char>, Seq<char>)>,
)
    requires
        ids_of(graph).no_duplicates(),
        ids_of(graph).to_set() == closure(files, roots),
    ensures
        forall|id: Seq<char>|
            ids_of(module_sources(graph, files)).contains(id) <==> reachable(files, roots, id),
        ids_of(module_sources(graph, files)).no_duplicates(),
{
    assert(ids_of(module_sources(graph, files)) =~= ids_of(graph));
    assert forall|id: Seq<char>|
        ids_of(module_sources(graph, files)).contains(id) <==> reachable(files, roots, id) by {
        assert(ids_of(graph).to_set().contains(id) == ids_of(graph).contains(id));
    }
}

/// Two modules importing each other, the entry importing the first: the
/// closure is those two modules, and a bundled graph holds each exactly once.
pub proof fn lemma_cycle_bundles_both_once(
    files: Seq<(String, Option<SourceFile>)>,
    a: Seq<char>,
    b: Seq<char>,
    graph: Seq<(Seq<char>, Seq<char>)>,
)
    requires
        a != b,
        edges(files, a) == seq![b],
        edges(files, b) == seq![a],
        ids_of(graph).no_duplicates(),
        ids_of(graph).to_set() == closure(files, seq![a]),
    ensures
        closure(files, seq![a]) == set![a, b],
        all_present(files, seq![a]),
        graph.len() == 2,
{
    let roots = seq![a];
    let s = seq![a, b];
    assert(roots[0] == a);
    assert(edges(files, a)[0] == b);
    assert(edges(files, b)[0] == a);
    lemma_root_reachable(files, roots, a);
    lemma_edge_reachable(files, roots, a, b);
    assert(s[0] == a && s[1] == b);
    assert forall|id: Seq<char>| reachable(files, roots, id) implies id == a || id == b by {
        let chain = choose|chain: Seq<Seq<char>>| #[trigger]
            is_import_chain(files, roots, chain) && chain.last() == id;
        assert forall|k: Seq<char>, t: Seq<char>|
            s.contains(k) && #[trigger] edges(files, k).contains(t) implies s.contains(t) by {
            if k == a {
                assert(t == b);
            } else {
                assert(t == a);
            }
        }
        lemma_closed_holds_chain(files, roots, s, chain, chain.len() - 1);
    }
    assert(closure(files, roots) =~= set![a, b]);
    assert forall|id: Seq<char>| #[trigger]
        reachable(files, roots, id) implies lookup(files, module_file_of(id)) matches Some(
        Some(_),
    ) by {
        if id == a {
            assert(edges(files, a).len() == 1);
        } else {
            assert(edges(files, b).len() == 1);
        }
    }
    ids_of(graph).unique_seq_to_set();
    assert(set![a, b].len() == 2) by {
        assert(set![a, b] == set![a].insert(b));
    }
}

/// A module reachable from the entry whose file is known not to exist rules
/// out a bundle, so no output is written for it.
pub proof fn lemma_missing_module_blocks_bundle(
    files: Seq<(String, Option<SourceFile>)>,
    roots: Seq<Seq<char>>,
    id: Seq<char>,
)
    requires
        reachable(files, roots, id),
        lookup(files, module_file_of(id)) == Some(None::<SourceFile>),
    ensures
        !all_present(files, roots),
{
}

/// An entry module with no import: the bundle is the preamble followed by the
/// entry's text.
pub proof fn lemma_bundle_without_imports(
    files: Seq<(String, Option<SourceFile>)>,
    graph: Seq<(Seq<char>, Seq<char>)>,
    entry: Seq<char>,
)
    requires
        ids_of(graph).to_set() == closure(files, Seq::<Seq<char>>::empty()),
    ensures
        graph.len() == 0,
        bundle_text(module_sources(graph, files), entry) == BUNDLE_PREAMBLE@ + entry,
{
    if graph.len() > 0 {
        let id = graph[0].0;
        assert(ids_of(graph)[0] == id);
        assert(ids_of(graph).to_set().contains(id));
        let chain = choose|chain: Seq<Seq<char>>| #[trigger]
            is_import_chain(files, Seq::<Seq<char>>::empty(), chain) && chain.last() == id;
        assert(Seq::<Seq<char>>::empty().contains(chain[0]));
    }
    assert(module_sources(graph, files).len() == 0);
    assert(registry_section(module_sources(graph, files)) == Seq::<char>::empty());
}

} // verus!
