//! The plugin backed by a script that the embedded interpreter runs: where
//! the script lies, and what a call of it comes to.

use vstd::prelude::*;
use crate::bash_plugin::{path_in_plugin, script_path};
use crate::plug::{plugin_dir, script_entry_name, LoadError, RuntimeError};
use crate::text::{contains_name, has_name};

verus! {

/// A plugin that is run by the embedded interpreter. The interpreter finds
/// the script's modules under `search_path` and calls the function named
/// `run` of the entry file, with the options as its keyword arguments.
#[derive(Clone, Debug, PartialEq, Eq)]
pub struct PythonScript {
    /// The plugin's name.
    pub name: String,
    /// Path of the entry file.
    pub entrypoint: String,
    /// The plugin's directory.
    pub search_path: String,
}

/// `script` is the script plugin `name` in its directory under
/// `plugins_dir`.
pub open spec fn describes(script: PythonScript, name: Seq<char>, plugins_dir: Seq<char>) -> bool {
    &&& script.name@ == name
    &&& script.entrypoint@ == script_path(plugins_dir, name, script_entry_name())
    &&& script.search_path@ == plugin_dir(plugins_dir, name)
}

/// Resolves the plugin `name` as a script plugin, given the names of the
/// files in its directory, which must hold the entry file.
pub fn load(name: &str, plugins_dir: &str, files: &Vec<String>) -> (r: Result<
    PythonScript,
    LoadError,
>)
    ensures
        match r {
            Ok(script) => has_name(files@, script_entry_name()) && describes(
                script,
                name@,
                plugins_dir@,
            ),
            Err(error) => {
                &&& !has_name(files@, script_entry_name())
                &&& error matches LoadError::NoEntryPoint { plugin }
                &&& plugin@ == name@
            },
        },
{
    if !contains_name(files, "main.py") {
        return Err(LoadError::NoEntryPoint { plugin: name.to_owned() });
    }
    proof {
        reveal_strlit("/");
    }
    let search_path = plugins_dir.to_owned().concat("/").concat(name);
    assert(search_path@ =~= plugin_dir(plugins_dir@, name@));
    Ok(
        PythonScript {
            name: name.to_owned(),
            entrypoint: path_in_plugin(plugins_dir, name, "main.py"),
            search_path,
        },
    )
}

impl PythonScript {
    /// What a call of the script comes to: success, or the interpreter's
    /// exception as a runtime error that holds its text.
    pub fn run_result(outcome: Result<(), String>) -> (r: Result<(), RuntimeError>)
        ensures
            match outcome {
                Ok(()) => r is Ok,
                Err(text) => r matches Err(RuntimeError::Failed { reason }) && reason@ == text@,
            },
    {
        match outcome {
            Ok(()) => Ok(()),
            Err(text) => Err(RuntimeError::Failed { reason: text }),
        }
    }

    /// A script plugin has no status capability: asking for its status is an
    /// error.
    pub fn status_result(&self) -> (r: RuntimeError)
        ensures
            r == RuntimeError::Unsupported,
    {
        RuntimeError::Unsupported
    }
}

} // verus!
