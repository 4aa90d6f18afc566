//! The plugin backed by a compiled unit that is loaded into the runner.

use vstd::prelude::*;
use crate::bash_plugin::{path_in_plugin, script_path};
use crate::plug::{code_unit_suffix, find_code_unit, has_code_unit, LoadError, RuntimeError};
use crate::text::has_suffix;

verus! {

/// A plugin that is loaded from a compiled unit. The unit exports one
/// factory under the name `new_service`; it stays loaded until the runner
/// ends.
#[derive(Clone, Debug, PartialEq, Eq)]
pub struct NativeUnit {
    /// The plugin's name.
    pub name: String,
    /// Path of the compiled unit.
    pub library: String,
}

/// The name under which a compiled unit exports its factory.
pub open spec fn factory_symbol() -> Seq<char> {
    "new_service"@
}

/// The name under which a compiled unit exports its factory.
pub fn factory_symbol_name() -> (r: &'static str)
    ensures
        r@ == factory_symbol(),
{
    "new_service"
}

/// `unit` is the native plugin `name` in its directory under
/// `plugins_dir`: its library is the first file of `files` with the ending
/// of a compiled unit.
pub open spec fn describes(
    unit: NativeUnit,
    name: Seq<char>,
    plugins_dir: Seq<char>,
    files: Seq<String>,
) -> bool {
    &&& unit.name@ == name
    &&& exists|i: int|
        {
            &&& 0 <= i < files.len()
            &&& has_suffix(#[trigger] files[i]@, code_unit_suffix())
            &&& unit.library@ == script_path(plugins_dir, name, files[i]@)
            &&& forall|j: int| 0 <= j < i ==> !has_suffix(#[trigger] files[j]@, code_unit_suffix())
        }
}

/// Resolves the plugin `name` as a native plugin, given the names of the
/// files in its directory, which must hold a compiled unit.
pub fn load(name: &str, plugins_dir: &str, files: &Vec<String>) -> (r: Result<
    NativeUnit,
    LoadError,
>)
    ensures
        match r {
            Ok(unit) => has_code_unit(files@) && describes(unit, name@, plugins_dir@, files@),
            Err(error) => {
                &&& !has_code_unit(files@)
                &&& error matches LoadError::NoEntryPoint { plugin }
                &&& plugin@ == name@
            },
        },
{
    match find_code_unit(files) {
        Some(i) => {
            let unit = NativeUnit {
                name: name.to_owned(),
                library: path_in_plugin(plugins_dir, name, files[i].as_str()),
            };
            assert(has_suffix(files@[i as int]@, code_unit_suffix()));
            Ok(unit)
        },
        None => Err(LoadError::NoEntryPoint { plugin: name.to_owned() }),
    }
}

impl NativeUnit {
    /// What a call into the unit comes to: success, or the failure it
    /// reported as a runtime error that holds its text.
    pub fn run_result(outcome: Result<(), String>) -> (r: Result<(), RuntimeError>)
        ensures
            match outcome {
                Ok(()) => r is Ok,
                Err(text) => r matches Err(RuntimeError::Failed { reason }) && reason@ == text@,
            },
    {
        match outcome {
            Ok(()) => Ok(()),
            Err(text) => Err(RuntimeError::Failed { reason: text }),
        }
    }
}

} // verus!
