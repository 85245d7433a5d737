use jade::bundle_step::BundleStep;
use jade::bundler::{BundleStatus, Bundler, BUNDLE_PREAMBLE};
use jade::graph::module_file;
use jade::resolver::{resolve_modules, Resolution};
use jade::source::{scan_requires, SourceFile, SourceTree};

fn step() -> BundleStep {
    BundleStep {
        name: "client".to_string(),
        output: "dist/client.lua".to_string(),
        source_dir: "src".to_string(),
        entrypoint: "src/main.lua".to_string(),
    }
}

fn file(text: &str) -> SourceFile {
    SourceFile::new(text.to_string()).expect("the import pattern compiles")
}

fn registry_entry(id: &str, contents: &str) -> String {
    format!("____bundle__dict[\"{}\"] = function()\n{}\nend\n", id, contents)
}

/// Bundles `entry` over `files`, answering each lookup from `files` (absent
/// where not listed), the way the driver does with the disk.
fn bundle_over(entry: &SourceFile, files: &[(&str, &str)]) -> (BundleStatus, Bundler, SourceTree) {
    let mut bundler = Bundler::new(&step());
    let mut tree = SourceTree::new();
    loop {
        match bundler.bundle(entry, &tree) {
            BundleStatus::NeedFile(path) => {
                let found = files.iter().find(|(p, _)| *p == path).map(|(_, t)| file(t));
                tree.insert(path, found);
            }
            status => return (status, bundler, tree),
        }
    }
}

fn written(bundler: &Bundler, entry: &SourceFile, tree: &SourceTree) -> String {
    let mut out = String::new();
    bundler.write_bundle(entry, tree, &mut out);
    out
}

#[test]
fn entry_requiring_one_module_gives_one_registry_entry() {
    let main_text = "local m = require(\"utils.math\")\nprint(m.add(1, 2))\n";
    let math_text = "return { add = function(a, b) return a + b end }";
    let entry = file(main_text);
    let (status, bundler, tree) = bundle_over(&entry, &[("utils/math.lua", math_text)]);
    assert!(matches!(status, BundleStatus::Bundled));
    let expected = format!("{}{}{}", BUNDLE_PREAMBLE, registry_entry("utils.math", math_text), main_text);
    assert_eq!(written(&bundler, &entry, &tree), expected);
}

#[test]
fn missing_module_fails_before_any_output() {
    let entry = file("require(\"net.http\")");
    let (status, _bundler, _tree) = bundle_over(&entry, &[]);
    match status {
        BundleStatus::MissingModule(id, path) => {
            assert_eq!(id, "net.http");
            assert_eq!(path, "net/http.lua");
        }
        _ => panic!("a missing module must fail the bundle"),
    }
}

#[test]
fn entry_without_imports_is_preamble_then_entry() {
    let main_text = "print(\"hello\")\n";
    let entry = file(main_text);
    let (status, bundler, tree) = bundle_over(&entry, &[]);
    assert!(matches!(status, BundleStatus::Bundled));
    assert_eq!(written(&bundler, &entry, &tree), format!("{}{}", BUNDLE_PREAMBLE, main_text));
}

#[test]
fn cyclic_imports_bundle_each_module_once() {
    let a = "local b = require(\"b\")\nreturn {}";
    let b = "local a = require(\"a\")\nreturn {}";
    let entry = file("require(\"a\")");
    let (status, bundler, tree) = bundle_over(&entry, &[("a.lua", a), ("b.lua", b)]);
    assert!(matches!(status, BundleStatus::Bundled));
    let out = written(&bundler, &entry, &tree);
    assert_eq!(out.matches(&registry_entry("a", a)).count(), 1);
    assert_eq!(out.matches(&registry_entry("b", b)).count(), 1);
    assert_eq!(out.matches("____bundle__dict[\"").count(), 2);
}

#[test]
fn diamond_imports_bundle_shared_module_once() {
    let entry = file("require(\"left\") require(\"right\")");
    let files = [
        ("left.lua", "return require(\"shared.core\")"),
        ("right.lua", "return require(\"shared.core\")"),
        ("shared/core.lua", "return 42"),
        ("unused.lua", "return 0"),
    ];
    let (status, bundler, tree) = bundle_over(&entry, &files);
    assert!(matches!(status, BundleStatus::Bundled));
    let out = written(&bundler, &entry, &tree);
    assert_eq!(out.matches("____bundle__dict[\"shared.core\"]").count(), 1);
    assert_eq!(out.matches("____bundle__dict[\"").count(), 3);
    assert!(!out.contains("unused"));
    assert!(out.ends_with("require(\"left\") require(\"right\")"));
}

#[test]
fn resolution_asks_for_the_first_unread_file() {
    let roots = vec!["utils.math".to_string()];
    let tree = SourceTree::new();
    match resolve_modules(&roots, &tree) {
        Resolution::NeedFile(path) => assert_eq!(path, "utils/math.lua"),
        _ => panic!("nothing was read yet"),
    }
}

#[test]
fn resolution_of_no_roots_is_empty() {
    let tree = SourceTree::new();
    match resolve_modules(&Vec::new(), &tree) {
        Resolution::Resolved(graph) => assert_eq!(graph.len(), 0),
        _ => panic!("no root needs no file"),
    }
}

#[test]
fn later_lookup_supersedes_earlier_one() {
    let mut tree = SourceTree::new();
    tree.insert("a.lua".to_string(), None);
    tree.insert("a.lua".to_string(), Some(file("return 1")));
    match resolve_modules(&vec!["a".to_string()], &tree) {
        Resolution::Resolved(graph) => {
            assert_eq!(graph.len(), 1);
            assert_eq!(graph.id_at(0), "a");
            assert_eq!(graph.node_at(0).path, "a.lua");
        }
        _ => panic!("the file was read"),
    }
}

#[test]
fn scanner_finds_every_import_in_order() {
    let text = "local a = require(\"x.y\")\nrequire('single')\nrequire(\"\")\nrequire(\"x.y\") require (\"z\")";
    assert_eq!(scan_requires(text), Some(vec!["x.y".to_string(), "x.y".to_string()]));
    assert_eq!(scan_requires("nothing here"), Some(Vec::new()));
}

#[test]
fn source_file_keeps_text_and_imports() {
    let f = file("require(\"a.b\")\nrequire(\"c\")");
    assert_eq!(f.contents, "require(\"a.b\")\nrequire(\"c\")");
    assert_eq!(f.imports, vec!["a.b".to_string(), "c".to_string()]);
}

#[test]
fn module_ids_map_to_normalized_script_paths() {
    assert_eq!(module_file("utils.math"), "utils/math.lua");
    assert_eq!(module_file("a.b.c"), "a/b/c.lua");
    assert_eq!(module_file("main"), "main.lua");
    assert_eq!(module_file("..x"), "x.lua");
    assert_eq!(module_file("a..b"), "a/b.lua");
}
