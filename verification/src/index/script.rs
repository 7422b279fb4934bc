//! Scripts: files that are run on top of modules.
use crate::file::FusionFile;

use vstd::prelude::*;

verus! {

/// A script: its name, the modules that it starts from, the names that are bound before
/// it runs, and its files.
#[derive(Debug)]
pub struct Script {
    pub name: String,
    pub top_level_modules: Vec<String>,
    pub global_bindings: Vec<String>,
    pub files: Vec<FusionFile>,
}

impl Script {
    pub fn new(
        name: String,
        top_level_modules: Vec<String>,
        global_bindings: Vec<String>,
        files: Vec<FusionFile>,
    ) -> (script: Script)
        ensures
            script.name@ == name@,
            script.top_level_modules@ == top_level_modules@,
            script.global_bindings@ == global_bindings@,
            script.files@ == files@,
    {
        Script { name, top_level_modules, global_bindings, files }
    }
}

} // verus!
