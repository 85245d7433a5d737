//! Reading build steps out of a decoded configuration document. Each step
//! element reads its fields in a fixed order; the first field that is missing
//! decides the error.

use vstd::prelude::*;
use crate::build_config::BuildConfig;
use crate::build_step::BuildStep;
use crate::parallel_builder::ParallelBuildStep;
use crate::bundle_step::BundleStep;
use crate::js_builder::JSBuildStep;
use crate::manifest_generator::{opt_view, ManifestGenerationStep};
use crate::relative::{normalize, normalized_path_of, script_path, script_path_of};
use crate::text::{same_text, strings_view};
use crate::xml::{
    attribute_of, enable_flag, list_texts, optional_text, required_text, ConfigError, ConfigFault,
    XmlElement,
};

verus! {

/// Where the manifest descriptor goes, relative to the resource.
pub const MANIFEST_FILE: &'static str = "./fxmanifest.lua";

pub open spec fn fault_of<A>(r: Result<A, ConfigFault>) -> Option<ConfigFault> {
    match r {
        Ok(_) => None,
        Err(f) => Some(f),
    }
}

/// The fault of `r`, or else `rest`.
pub open spec fn first_err<A>(r: Result<A, ConfigFault>, rest: Option<ConfigFault>) -> Option<
    ConfigFault,
> {
    match r {
        Ok(_) => rest,
        Err(f) => Some(f),
    }
}

/// A `js_build` element: name, folder (normalized), build script, whether to
/// install packages (default yes), package manager (default given).
pub open spec fn js_build_of(e: XmlElement, default_pm: Seq<char>) -> Result<
    (Seq<char>, Seq<char>, Seq<char>, bool, Seq<char>),
    ConfigFault,
> {
    match attribute_of(e.attributes@, "name"@) {
        None => Err(ConfigFault::MissingAttribute("name"@)),
        Some(name) => match required_text(e, "folder"@) {
            Err(f) => Err(f),
            Ok(folder) => match required_text(e, "build_script"@) {
                Err(f) => Err(f),
                Ok(script) => match optional_text(e, "install_packages"@) {
                    Err(f) => Err(f),
                    Ok(install) => match optional_text(e, "package_manager"@) {
                        Err(f) => Err(f),
                        Ok(pm) => Ok(
                            (
                                name,
                                normalized_path_of(folder),
                                script,
                                match install {
                                    None => true,
                                    Some(t) => t == "true"@,
                                },
                                match pm {
                                    None => default_pm,
                                    Some(p) => p,
                                },
                            ),
                        ),
                    },
                },
            },
        },
    }
}

pub open spec fn js_step_is(s: JSBuildStep, v: (Seq<char>, Seq<char>, Seq<char>, bool, Seq<char>)) -> bool {
    &&& s.name@ == v.0
    &&& s.folder@ == v.1
    &&& s.build_script@ == v.2
    &&& s.install_packages == v.3
    &&& s.package_manager@ == v.4
}

/// A `bundle` element: name, entry point, source root and output, normalized,
/// entry point and output with the script extension.
pub open spec fn bundle_of(e: XmlElement) -> Result<
    (Seq<char>, Seq<char>, Seq<char>, Seq<char>),
    ConfigFault,
> {
    match attribute_of(e.attributes@, "name"@) {
        None => Err(ConfigFault::MissingAttribute("name"@)),
        Some(name) => match required_text(e, "entrypoint"@) {
            Err(f) => Err(f),
            Ok(entry) => match required_text(e, "source_dir"@) {
                Err(f) => Err(f),
                Ok(source) => match required_text(e, "output"@) {
                    Err(f) => Err(f),
                    Ok(output) => Ok(
                        (
                            name,
                            script_path_of(normalized_path_of(entry)),
                            normalized_path_of(source),
                            script_path_of(normalized_path_of(output)),
                        ),
                    ),
                },
            },
        },
    }
}

pub open spec fn bundle_step_is(s: BundleStep, v: (Seq<char>, Seq<char>, Seq<char>, Seq<char>)) -> bool {
    &&& s.name@ == v.0
    &&& s.entrypoint@ == v.1
    &&& s.source_dir@ == v.2
    &&& s.output@ == v.3
}

/// The first missing field of a `manifest` element, in declaration order.
pub open spec fn manifest_fault(e: XmlElement) -> Option<ConfigFault> {
    first_err(
        required_text(e, "fx_version"@),
        first_err(
            required_text(e, "game"@),
            first_err(
                optional_text(e, "author"@),
                first_err(
                    optional_text(e, "description"@),
                    first_err(
                        optional_text(e, "version"@),
                        first_err(
                            list_texts(e, "client_scripts"@, "client_script"@),
                            first_err(
                                list_texts(e, "server_scripts"@, "server_script"@),
                                first_err(
                                    list_texts(e, "shared_scripts"@, "shared_script"@),
                                    first_err(
                                        list_texts(e, "dependencies"@, "dependency"@),
                                        first_err(
                                            list_texts(e, "files"@, "file"@),
                                            first_err(
                                                optional_text(e, "loadscreen"@),
                                                first_err(
                                                    optional_text(e, "ui_page"@),
                                                    first_err(
                                                        enable_flag(e, "is_a_map"@),
                                                        first_err(
                                                            enable_flag(e, "lua54"@),
                                                            fault_of(
                                                                optional_text(e, "rdr3_warning"@),
                                                            ),
                                                        ),
                                                    ),
                                                ),
                                            ),
                                        ),
                                    ),
                                ),
                            ),
                        ),
                    ),
                ),
            ),
        ),
    )
}

/// `m` holds what the `manifest` element `e` gives for each field.
pub open spec fn manifest_is(m: ManifestGenerationStep, e: XmlElement) -> bool {
    &&& m.path@ == script_path_of(normalized_path_of(MANIFEST_FILE@))
    &&& required_text(e, "fx_version"@) == Ok::<Seq<char>, ConfigFault>(m.fx_version@)
    &&& required_text(e, "game"@) == Ok::<Seq<char>, ConfigFault>(m.game@)
    &&& optional_text(e, "author"@) == Ok::<Option<Seq<char>>, ConfigFault>(opt_view(m.author))
    &&& optional_text(e, "description"@) == Ok::<Option<Seq<char>>, ConfigFault>(
        opt_view(m.description),
    )
    &&& optional_text(e, "version"@) == Ok::<Option<Seq<char>>, ConfigFault>(opt_view(m.version))
    &&& list_texts(e, "client_scripts"@, "client_script"@) == Ok::<Seq<Seq<char>>, ConfigFault>(
        strings_view(m.client_scripts@),
    )
    &&& list_texts(e, "server_scripts"@, "server_script"@) == Ok::<Seq<Seq<char>>, ConfigFault>(
        strings_view(m.server_scripts@),
    )
    &&& list_texts(e, "shared_scripts"@, "shared_script"@) == Ok::<Seq<Seq<char>>, ConfigFault>(
        strings_view(m.shared_scripts@),
    )
    &&& list_texts(e, "dependencies"@, "dependency"@) == Ok::<Seq<Seq<char>>, ConfigFault>(
        strings_view(m.dependencies@),
    )
    &&& list_texts(e, "files"@, "file"@) == Ok::<Seq<Seq<char>>, ConfigFault>(
        strings_view(m.files@),
    )
    &&& optional_text(e, "loadscreen"@) == Ok::<Option<Seq<char>>, ConfigFault>(
        opt_view(m.loadscreen),
    )
    &&& optional_text(e, "ui_page"@) == Ok::<Option<Seq<char>>, ConfigFault>(opt_view(m.ui_page))
    &&& enable_flag(e, "is_a_map"@) == Ok::<bool, ConfigFault>(m.is_a_map)
    &&& enable_flag(e, "lua54"@) == Ok::<bool, ConfigFault>(m.lua54)
    &&& optional_text(e, "rdr3_warning"@) == Ok::<Option<Seq<char>>, ConfigFault>(
        opt_view(m.rdr3_warning),
    )
}

pub fn parse_js_build(node: &XmlElement, default_package_manager: &String) -> (r: Result<
    JSBuildStep,
    ConfigError,
>)
    ensures
        match js_build_of(*node, default_package_manager@) {
            Ok(v) => r matches Ok(s) && js_step_is(s, v),
            Err(f) => r matches Err(e) && e.fault() == f,
        },
{
    let name = match node.attribute("name") {
        None => {
            return Err(ConfigError::MissingAttribute(String::from_str("name")));
        },
        Some(n) => n.clone(),
    };
    let folder = match node.required_text("folder") {
        Err(e) => {
            return Err(e);
        },
        Ok(t) => t,
    };
    let build_script = match node.required_text("build_script") {
        Err(e) => {
            return Err(e);
        },
        Ok(t) => t,
    };
    let install_packages = match node.optional_text("install_packages") {
        Err(e) => {
            return Err(e);
        },
        Ok(None) => true,
        Ok(Some(t)) => same_text(t.as_str(), "true"),
    };
    let package_manager = match node.optional_text("package_manager") {
        Err(e) => {
            return Err(e);
        },
        Ok(None) => default_package_manager.clone(),
        Ok(Some(t)) => t,
    };
    Ok(
        JSBuildStep {
            name,
            package_manager,
            folder: normalize(folder.as_str()),
            build_script,
            install_packages,
        },
    )
}

pub fn parse_bundle(node: &XmlElement) -> (r: Result<BundleStep, ConfigError>)
    ensures
        match bundle_of(*node) {
            Ok(v) => r matches Ok(s) && bundle_step_is(s, v),
            Err(f) => r matches Err(e) && e.fault() == f,
        },
{
    let name = match node.attribute("name") {
        None => {
            return Err(ConfigError::MissingAttribute(String::from_str("name")));
        },
        Some(n) => n.clone(),
    };
    let entrypoint = match node.required_text("entrypoint") {
        Err(e) => {
            return Err(e);
        },
        Ok(t) => t,
    };
    let source_dir = match node.required_text("source_dir") {
        Err(e) => {
            return Err(e);
        },
        Ok(t) => t,
    };
    let output = match node.required_text("output") {
        Err(e) => {
            return Err(e);
        },
        Ok(t) => t,
    };
    let entrypoint = script_path(normalize(entrypoint.as_str()).as_str());
    let source_dir = normalize(source_dir.as_str());
    let output = script_path(normalize(output.as_str()).as_str());
    Ok(BundleStep { name, output, source_dir, entrypoint })
}

pub fn parse_manifest(node: &XmlElement) -> (r: Result<ManifestGenerationStep, ConfigError>)
    ensures
        match manifest_fault(*node) {
            Some(f) => r matches Err(e) && e.fault() == f,
            None => r matches Ok(m) && manifest_is(m, *node),
        },
{
    let path = script_path(normalize(MANIFEST_FILE).as_str());
    let fx_version = match node.required_text("fx_version") {
        Err(e) => {
            return Err(e);
        },
        Ok(t) => t,
    };
    let game = match node.required_text("game") {
        Err(e) => {
            return Err(e);
        },
        Ok(t) => t,
    };
    let author = match node.optional_text("author") {
        Err(e) => {
            return Err(e);
        },
        Ok(t) => t,
    };
    let description = match node.optional_text("description") {
        Err(e) => {
            return Err(e);
        },
        Ok(t) => t,
    };
    let version = match node.optional_text("version") {
        Err(e) => {
            return Err(e);
        },
        Ok(t) => t,
    };
    let client_scripts = match node.list_texts("client_scripts", "client_script") {
        Err(e) => {
            return Err(e);
        },
        Ok(v) => v,
    };
    let server_scripts = match node.list_texts("server_scripts", "server_script") {
        Err(e) => {
            return Err(e);
        },
        Ok(v) => v,
    };
    let shared_scripts = match node.list_texts("shared_scripts", "shared_script") {
        Err(e) => {
            return Err(e);
        },
        Ok(v) => v,
    };
    let dependencies = match node.list_texts("dependencies", "dependency") {
        Err(e) => {
            return Err(e);
        },
        Ok(v) => v,
    };
    let files = match node.list_texts("files", "file") {
        Err(e) => {
            return Err(e);
        },
        Ok(v) => v,
    };
    let loadscreen = match node.optional_text("loadscreen") {
        Err(e) => {
            return Err(e);
        },
        Ok(t) => t,
    };
    let ui_page = match node.optional_text("ui_page") {
        Err(e) => {
            return Err(e);
        },
        Ok(t) => t,
    };
    let is_a_map = match node.enable_flag("is_a_map") {
        Err(e) => {
            return Err(e);
        },
        Ok(b) => b,
    };
    let lua54 = match node.enable_flag("lua54") {
        Err(e) => {
            return Err(e);
        },
        Ok(b) => b,
    };
    let rdr3_warning = match node.optional_text("rdr3_warning") {
        Err(e) => {
            return Err(e);
        },
        Ok(t) => t,
    };
    Ok(
        ManifestGenerationStep {
            path,
            fx_version,
            game,
            author,
            description,
            version,
            client_scripts,
            server_scripts,
            shared_scripts,
            dependencies,
            files,
            loadscreen,
            ui_page,
            is_a_map,
            lua54,
            rdr3_warning,
        },
    )
}

/// The first missing field among the step elements of `children`, in
/// document order; elements of other tags are skipped.
pub open spec fn steps_fault(children: Seq<XmlElement>, pm: Seq<char>) -> Option<ConfigFault>
    decreases children,
{
    if children.len() == 0 {
        None
    } else {
        match steps_fault(children.drop_last(), pm) {
            Some(f) => Some(f),
            None => {
                let c = children.last();
                if c.tag@ == "js_build"@ {
                    fault_of(js_build_of(c, pm))
                } else if c.tag@ == "bundle"@ {
                    fault_of(bundle_of(c))
                } else if c.tag@ == "manifest"@ {
                    manifest_fault(c)
                } else if c.tag@ == "parallel"@ {
                    steps_fault(c.children@, pm)
                } else {
                    None
                }
            },
        }
    }
}

/// `steps` are the steps of the step elements of `children`, one each, in
/// order; a `parallel` element gives a group of the steps of its own children.
pub open spec fn steps_match(steps: Seq<BuildStep>, children: Seq<XmlElement>, pm: Seq<char>) -> bool
    decreases children,
{
    if children.len() == 0 {
        steps.len() == 0
    } else {
        let c = children.last();
        let rest = children.drop_last();
        if c.tag@ == "js_build"@ || c.tag@ == "bundle"@ || c.tag@ == "manifest"@ || c.tag@
            == "parallel"@ {
            &&& steps.len() > 0
            &&& steps_match(steps.drop_last(), rest, pm)
            &&& match steps.last() {
                BuildStep::Js(s) => c.tag@ == "js_build"@ && (js_build_of(c, pm) matches Ok(v)
                    && js_step_is(s, v)),
                BuildStep::Bundle(s) => c.tag@ == "bundle"@ && (bundle_of(c) matches Ok(v)
                    && bundle_step_is(s, v)),
                BuildStep::Manifest(m) => c.tag@ == "manifest"@ && manifest_is(m, c),
                BuildStep::Parallel(p) => c.tag@ == "parallel"@ && steps_match(
                    p.steps@,
                    c.children@,
                    pm,
                ),
            }
        } else {
            steps_match(steps, rest, pm)
        }
    }
}

proof fn lemma_steps_fault_stays(children: Seq<XmlElement>, pm: Seq<char>, n: int)
    requires
        0 <= n <= children.len(),
        steps_fault(children.subrange(0, n), pm) is Some,
    ensures
        steps_fault(children, pm) == steps_fault(children.subrange(0, n), pm),
    decreases children.len() - n,
{
    if n < children.len() {
        assert(children.subrange(0, n + 1).drop_last() == children.subrange(0, n));
        lemma_steps_fault_stays(children, pm, n + 1);
    } else {
        assert(children.subrange(0, n) == children);
    }
}

/// The steps declared by the children of `root`, nested groups included.
pub fn parse_steps(root: &XmlElement, package_manager: &String) -> (r: Result<
    Vec<BuildStep>,
    ConfigError,
>)
    ensures
        match steps_fault(root.children@, package_manager@) {
            Some(f) => r matches Err(e) && e.fault() == f,
            None => r matches Ok(v) && steps_match(v@, root.children@, package_manager@),
        },
    decreases root,
{
    let children = &root.children;
    let ghost pm = package_manager@;
    let mut steps: Vec<BuildStep> = Vec::new();
    let mut i: usize = 0;
    assert(children@.subrange(0, 0) == Seq::<XmlElement>::empty());
    while i < children.len()
        invariant
            i <= children@.len(),
            children == &root.children,
            pm == package_manager@,
            steps_fault(children@.subrange(0, i as int), pm) is None,
            steps_match(steps@, children@.subrange(0, i as int), pm),
        decreases children@.len() - i,
    {
        let ghost prefix = children@.subrange(0, i + 1);
        assert(prefix.drop_last() == children@.subrange(0, i as int));
        assert(prefix.last() == children@[i as int]);
        let c = &children[i];
        let ghost before = steps@;
        let tag = c.tag.as_str();
        let step = if same_text(tag, "js_build") {
            match parse_js_build(c, package_manager) {
                Ok(s) => Some(BuildStep::Js(s)),
                Err(e) => {
                    proof {
                        lemma_steps_fault_stays(children@, pm, i + 1);
                    }
                    return Err(e);
                },
            }
        } else if same_text(tag, "bundle") {
            match parse_bundle(c) {
                Ok(s) => Some(BuildStep::Bundle(s)),
                Err(e) => {
                    proof {
                        lemma_steps_fault_stays(children@, pm, i + 1);
                    }
                    return Err(e);
                },
            }
        } else if same_text(tag, "manifest") {
            match parse_manifest(c) {
                Ok(m) => Some(BuildStep::Manifest(m)),
                Err(e) => {
                    proof {
                        lemma_steps_fault_stays(children@, pm, i + 1);
                    }
                    return Err(e);
                },
            }
        } else if same_text(tag, "parallel") {
            match parse_steps(c, package_manager) {
                Ok(nested) => Some(BuildStep::Parallel(ParallelBuildStep { steps: nested })),
                Err(e) => {
                    proof {
                        lemma_steps_fault_stays(children@, pm, i + 1);
                    }
                    return Err(e);
                },
            }
        } else {
            None
        };
        match step {
            Some(s) => {
                steps.push(s);
                assert(steps@.drop_last() == before);
            },
            None => {},
        }
        i += 1;
    }
    assert(children@.subrange(0, children@.len() as int) == children@);
    Ok(steps)
}

impl BuildConfig {
    /// The configuration of resource `name`, from the root element of its
    /// decoded configuration file.
    pub fn new(name: String, root: &XmlElement, package_manager: &String) -> (r: Result<
        BuildConfig,
        ConfigError,
    >)
        ensures
            match steps_fault(root.children@, package_manager@) {
                Some(f) => r matches Err(e) && e.fault() == f,
                None => r matches Ok(c) && c.name == name && steps_match(
                    c.steps@,
                    root.children@,
                    package_manager@,
                ),
            },
    {
        match parse_steps(root, package_manager) {
            Ok(steps) => Ok(BuildConfig::from_steps(name, steps)),
            Err(e) => Err(e),
        }
    }
}

} // verus!
