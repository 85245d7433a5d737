//! The step that installs and builds a JS subproject with a package manager.

use vstd::prelude::*;

verus! {

pub const DEFAULT_PACKAGE_MANAGER: &'static str = "npm";

/// `folder` is relative to the resource's base path, normalized.
pub struct JSBuildStep {
    pub name: String,
    pub package_manager: String,
    pub folder: String,
    pub build_script: String,
    pub install_packages: bool,
}

/// One run of a program, with its arguments, in the step's folder.
pub struct Invocation {
    pub program: String,
    pub args: Vec<String>,
}

impl JSBuildStep {
    /// The package-manager runs of the step, in order: `install` when the step
    /// installs packages, then `run <build_script>`. They are run one after the
    /// other; the step fails at the first that cannot be started.
    pub fn invocations(&self) -> (r: Vec<Invocation>)
        ensures
            r@.len() == if self.install_packages { 2nat } else { 1nat },
            forall|i: int| 0 <= i < r@.len() ==> r@[i].program@ == self.package_manager@,
            self.install_packages ==> r@[0].args@.len() == 1 && r@[0].args@[0]@ == "install"@,
            r@.last().args@.len() == 2,
            r@.last().args@[0]@ == "run"@,
            r@.last().args@[1]@ == self.build_script@,
    {
        let mut r: Vec<Invocation> = Vec::new();
        if self.install_packages {
            let mut args: Vec<String> = Vec::new();
            args.push(String::from_str("install"));
            r.push(Invocation { program: self.package_manager.clone(), args });
        }
        let mut args: Vec<String> = Vec::new();
        args.push(String::from_str("run"));
        args.push(self.build_script.clone());
        r.push(Invocation { program: self.package_manager.clone(), args });
        r
    }
}

} // verus!
