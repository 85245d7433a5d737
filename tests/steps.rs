use jade::build_config::BuildConfig;
use jade::build_step::{BuildStep, StepOutcome};
use jade::builder::Builder;
use jade::config_parser::{parse_bundle, parse_js_build, parse_manifest, parse_steps};
use jade::js_builder::JSBuildStep;
use jade::manifest_generator::ManifestGenerationStep;
use jade::parallel_builder::ParallelBuildStep;
use jade::xml::{ConfigError, XmlElement};

fn el(tag: &str, children: Vec<XmlElement>) -> XmlElement {
    XmlElement { tag: tag.to_string(), attributes: Vec::new(), text: None, children }
}

fn text(tag: &str, t: &str) -> XmlElement {
    XmlElement { tag: tag.to_string(), attributes: Vec::new(), text: Some(t.to_string()), children: Vec::new() }
}

fn named(tag: &str, name: &str, children: Vec<XmlElement>) -> XmlElement {
    XmlElement {
        tag: tag.to_string(),
        attributes: vec![("name".to_string(), name.to_string())],
        text: None,
        children,
    }
}

fn flag(tag: &str, value: &str) -> XmlElement {
    XmlElement {
        tag: tag.to_string(),
        attributes: vec![("enable".to_string(), value.to_string())],
        text: None,
        children: Vec::new(),
    }
}

fn manifest_step() -> ManifestGenerationStep {
    ManifestGenerationStep {
        path: "fxmanifest.lua".to_string(),
        fx_version: "cerulean".to_string(),
        game: "gta5".to_string(),
        author: None,
        description: None,
        version: None,
        client_scripts: Vec::new(),
        server_scripts: Vec::new(),
        shared_scripts: Vec::new(),
        dependencies: Vec::new(),
        files: Vec::new(),
        loadscreen: None,
        ui_page: None,
        is_a_map: false,
        lua54: false,
        rdr3_warning: None,
    }
}

fn run_step() -> BuildStep {
    BuildStep::Js(JSBuildStep {
        name: "ui".to_string(),
        package_manager: "npm".to_string(),
        folder: "web".to_string(),
        build_script: "build".to_string(),
        install_packages: true,
    })
}

#[test]
fn parallel_group_reports_every_outcome() {
    let group = ParallelBuildStep { steps: vec![run_step(), run_step(), run_step()] };
    let mut run = group.build();
    assert_eq!(run.outcome(), None);
    run.record(2, StepOutcome::Succeeded);
    run.record(1, StepOutcome::Failed);
    assert_eq!(run.outcome(), None);
    run.record(0, StepOutcome::Succeeded);
    assert_eq!(run.outcome(), Some(StepOutcome::Failed));
    assert_eq!(
        run.report(),
        vec![StepOutcome::Succeeded, StepOutcome::Failed, StepOutcome::Succeeded]
    );
}

#[test]
fn parallel_group_of_successes_succeeds() {
    let group = ParallelBuildStep { steps: vec![run_step(), run_step()] };
    let mut run = group.build();
    run.record(0, StepOutcome::Succeeded);
    run.record(1, StepOutcome::Succeeded);
    assert_eq!(run.outcome(), Some(StepOutcome::Succeeded));
    let empty = ParallelBuildStep { steps: Vec::new() }.build();
    assert_eq!(empty.outcome(), Some(StepOutcome::Succeeded));
}

#[test]
fn resource_run_goes_on_after_a_failure() {
    let config = BuildConfig::from_steps("shop".to_string(), vec![run_step(), run_step(), run_step()]);
    assert!(!config.warns_empty());
    let mut run = config.build();
    assert_eq!(run.next_step(), Some(0));
    run.record(StepOutcome::Failed);
    assert_eq!(run.next_step(), Some(1));
    run.record(StepOutcome::Succeeded);
    assert_eq!(run.next_step(), Some(2));
    run.record(StepOutcome::Failed);
    assert_eq!(run.next_step(), None);
    assert!(run.is_finished());
    assert_eq!(run.failures(), 2);
}

#[test]
fn empty_config_warns_and_finishes_at_once() {
    let config = BuildConfig::from_steps("empty".to_string(), Vec::new());
    assert!(config.warns_empty());
    let run = config.build();
    assert_eq!(run.next_step(), None);
    assert_eq!(run.failures(), 0);
}

#[test]
fn builder_finds_resource_by_name() {
    let builder = Builder::new(vec![
        BuildConfig::from_steps("a".to_string(), vec![run_step()]),
        BuildConfig::from_steps("b".to_string(), vec![run_step(), run_step()]),
    ]);
    assert_eq!(builder.len(), 2);
    let runs = builder.build();
    assert_eq!(runs.len(), 2);
    let run = builder.build_resource(&"b".to_string()).expect("b is configured");
    assert_eq!(run.next_step(), Some(0));
    let mut run = run;
    run.record(StepOutcome::Succeeded);
    run.record(StepOutcome::Succeeded);
    assert!(run.is_finished());
    assert!(builder.build_resource(&"c".to_string()).is_none());
}

#[test]
fn js_step_installs_then_runs_script() {
    let step = JSBuildStep {
        name: "ui".to_string(),
        package_manager: "pnpm".to_string(),
        folder: "web".to_string(),
        build_script: "build".to_string(),
        install_packages: true,
    };
    let runs = step.invocations();
    assert_eq!(runs.len(), 2);
    assert_eq!(runs[0].program, "pnpm");
    assert_eq!(runs[0].args, vec!["install".to_string()]);
    assert_eq!(runs[1].args, vec!["run".to_string(), "build".to_string()]);
    let no_install = JSBuildStep { install_packages: false, ..step };
    let runs = no_install.invocations();
    assert_eq!(runs.len(), 1);
    assert_eq!(runs[0].args, vec!["run".to_string(), "build".to_string()]);
}

#[test]
fn manifest_with_required_fields_only() {
    assert_eq!(manifest_step().manifest_text(), "fx_version \"cerulean\"\ngame \"gta5\"\n\n");
}

#[test]
fn manifest_with_every_section() {
    let m = ManifestGenerationStep {
        author: Some("me".to_string()),
        description: Some("shop".to_string()),
        version: Some("1.0".to_string()),
        client_scripts: vec!["client.lua".to_string(), "ui.lua".to_string()],
        server_scripts: vec!["server.lua".to_string()],
        shared_scripts: vec!["config.lua".to_string()],
        dependencies: vec!["base".to_string()],
        files: vec!["web/index.html".to_string()],
        loadscreen: Some("load.html".to_string()),
        ui_page: Some("web/index.html".to_string()),
        is_a_map: true,
        lua54: true,
        rdr3_warning: Some("ok".to_string()),
        ..manifest_step()
    };
    let expected = "fx_version \"cerulean\"\ngame \"gta5\"\nauthor \"me\"\ndescription \"shop\"\nversion \"1.0\"\n\
client_scripts {\n    \"client.lua\",\n    \"ui.lua\",\n}\n\
server_scripts {\n    \"server.lua\",\n}\n\
shared_scripts {\n    \"config.lua\",\n}\n\
ui_page \"web/index.html\"\n\
files {\n    \"web/index.html\",\n}\n\
loadscreen \"load.html\"\n\
dependencies {\n    \"base\",\n}\n\
this_is_a_map \"yes\"\nlua54 \"yes\"\nrdr3_warning \"ok\"\n\n";
    assert_eq!(m.manifest_text(), expected);
}

#[test]
fn js_build_element_with_defaults() {
    let node = named("js_build", "ui", vec![text("folder", "./web/../web"), text("build_script", "build")]);
    let step = parse_js_build(&node, &"npm".to_string()).ok().expect("complete element");
    assert_eq!(step.name, "ui");
    assert_eq!(step.folder, "web");
    assert_eq!(step.build_script, "build");
    assert!(step.install_packages);
    assert_eq!(step.package_manager, "npm");
}

#[test]
fn js_build_element_overrides_defaults() {
    let node = named(
        "js_build",
        "ui",
        vec![
            text("folder", "web"),
            text("build_script", "build"),
            text("install_packages", "false"),
            text("package_manager", "yarn"),
        ],
    );
    let step = parse_js_build(&node, &"npm".to_string()).ok().expect("complete element");
    assert!(!step.install_packages);
    assert_eq!(step.package_manager, "yarn");
}

#[test]
fn js_build_element_without_name_is_refused() {
    let node = el("js_build", vec![text("folder", "web"), text("build_script", "build")]);
    match parse_js_build(&node, &"npm".to_string()) {
        Err(ConfigError::MissingAttribute(a)) => assert_eq!(a, "name"),
        _ => panic!("the name attribute is required"),
    }
}

#[test]
fn bundle_element_paths_take_the_script_extension() {
    let node = named(
        "bundle",
        "client",
        vec![text("entrypoint", "./src/main"), text("source_dir", "src/"), text("output", "dist/client.lua")],
    );
    let step = parse_bundle(&node).ok().expect("complete element");
    assert_eq!(step.name, "client");
    assert_eq!(step.entrypoint, "src/main.lua");
    assert_eq!(step.source_dir, "src");
    assert_eq!(step.output, "dist/client.lua");
}

#[test]
fn bundle_element_missing_output_is_refused() {
    let node = named("bundle", "client", vec![text("entrypoint", "main"), text("source_dir", "src")]);
    match parse_bundle(&node) {
        Err(ConfigError::MissingElement(t)) => assert_eq!(t, "output"),
        _ => panic!("the output is required"),
    }
}

#[test]
fn manifest_element_reads_lists_and_flags() {
    let node = el(
        "manifest",
        vec![
            text("fx_version", "cerulean"),
            text("game", "gta5"),
            el("client_scripts", vec![text("client_script", "a.lua"), text("note", "x"), text("client_script", "b.lua")]),
            flag("lua54", "true"),
            flag("is_a_map", "no"),
        ],
    );
    let m = parse_manifest(&node).ok().expect("complete element");
    assert_eq!(m.path, "fxmanifest.lua");
    assert_eq!(m.client_scripts, vec!["a.lua".to_string(), "b.lua".to_string()]);
    assert!(m.lua54);
    assert!(!m.is_a_map);
    assert_eq!(m.author, None);
}

#[test]
fn manifest_element_faults_in_field_order() {
    let node = el("manifest", vec![text("game", "gta5"), el("author", Vec::new())]);
    match parse_manifest(&node) {
        Err(ConfigError::MissingElement(t)) => assert_eq!(t, "fx_version"),
        _ => panic!("fx_version is required"),
    }
    let node = el("manifest", vec![text("fx_version", "c"), text("game", "gta5"), el("author", Vec::new())]);
    match parse_manifest(&node) {
        Err(ConfigError::MissingText(t)) => assert_eq!(t, "author"),
        _ => panic!("a present author needs text"),
    }
    let node = el("manifest", vec![text("fx_version", "c"), text("game", "gta5"), el("lua54", Vec::new())]);
    match parse_manifest(&node) {
        Err(ConfigError::MissingAttribute(a)) => assert_eq!(a, "enable"),
        _ => panic!("a flag needs its enable attribute"),
    }
}

#[test]
fn steps_are_read_in_order_with_nested_groups() {
    let root = el(
        "jade",
        vec![
            named("js_build", "ui", vec![text("folder", "web"), text("build_script", "build")]),
            text("comment", "ignored"),
            el(
                "parallel",
                vec![
                    named("bundle", "client", vec![text("entrypoint", "c"), text("source_dir", "src"), text("output", "out/c")]),
                    named("bundle", "server", vec![text("entrypoint", "s"), text("source_dir", "src"), text("output", "out/s")]),
                ],
            ),
            el("manifest", vec![text("fx_version", "cerulean"), text("game", "gta5")]),
        ],
    );
    let steps = parse_steps(&root, &"npm".to_string()).ok().expect("valid configuration");
    assert_eq!(steps.len(), 3);
    assert!(matches!(steps[0], BuildStep::Js(_)));
    match &steps[1] {
        BuildStep::Parallel(group) => {
            assert_eq!(group.steps.len(), 2);
            match &group.steps[1] {
                BuildStep::Bundle(b) => assert_eq!(b.output, "out/s.lua"),
                _ => panic!("second grouped step is a bundle"),
            }
        }
        _ => panic!("second step is a group"),
    }
    assert!(matches!(steps[2], BuildStep::Manifest(_)));
    let config = BuildConfig::new("shop".to_string(), &root, &"npm".to_string()).ok().expect("valid");
    assert_eq!(config.name, "shop");
    assert_eq!(config.step_count(), 3);
}

#[test]
fn nested_fault_fails_the_whole_configuration() {
    let root = el("jade", vec![el("parallel", vec![el("bundle", Vec::new())])]);
    match BuildConfig::new("shop".to_string(), &root, &"npm".to_string()) {
        Err(ConfigError::MissingAttribute(a)) => assert_eq!(a, "name"),
        _ => panic!("the nested bundle has no name"),
    }
}
