//! What a plugin is to the runner: the common errors and status values, the
//! three ways a plugin can be backed, and the rule that picks one from the
//! files a plugin's directory holds.

use vstd::prelude::*;
use crate::bash_plugin::BashCommand;
use crate::dict::Dict;
use crate::install::{get_plugin_path, joined_path, kittypaws_home, text_of};
use crate::monitoring::{StatusReading, StatusValue};
use crate::native_plugin::NativeUnit;
use crate::python_plugin::PythonScript;
use crate::text::{
    char_len,
    contains_name,
    decimal_i64,
    decimal_text,
    ends_with,
    has_name,
    has_suffix,
    slice,
};

verus! {

/// The run script of an external-process plugin.
pub open spec fn run_script_name() -> Seq<char> {
    "run.sh"@
}

/// The status script of an external-process plugin.
pub open spec fn status_script_name() -> Seq<char> {
    "status.sh"@
}

/// The entry file of an embedded-script plugin.
pub open spec fn script_entry_name() -> Seq<char> {
    "main.py"@
}

/// The file name ending of a compiled loadable unit.
pub open spec fn code_unit_suffix() -> Seq<char> {
    ".so"@
}

/// The way a plugin is backed.
#[derive(Clone, Copy, Debug, PartialEq, Eq)]
pub enum PluginLanguage {
    /// A script run by the embedded interpreter.
    Python,
    /// A run script, started as a process.
    Bash,
    /// A compiled unit, loaded into the runner.
    Native,
}

/// One value of a status snapshot. A floating-point value is kept as the
/// text that wrote it.
#[derive(Clone, Debug, PartialEq, Eq)]
pub enum PluginStatusValue {
    Int(i64),
    Float(String),
    String(String),
}

impl View for PluginStatusValue {
    type V = StatusReading;

    open spec fn view(&self) -> StatusReading {
        match *self {
            PluginStatusValue::Int(n) => StatusReading::Int(n),
            PluginStatusValue::Float(text) => StatusReading::Float(text@),
            PluginStatusValue::String(text) => StatusReading::Text(text@),
        }
    }
}

impl<'a> From<&'a PluginStatusValue> for StatusValue {
    fn from(value: &'a PluginStatusValue) -> (r: StatusValue) {
        match value {
            PluginStatusValue::Int(n) => StatusValue::Int(*n),
            PluginStatusValue::Float(text) => StatusValue::Float(text.clone()),
            PluginStatusValue::String(text) => StatusValue::String(text.clone()),
        }
    }
}

impl<'a> vstd::std_specs::convert::FromSpecImpl<&'a PluginStatusValue> for StatusValue {
    open spec fn obeys_from_spec() -> bool {
        true
    }

    open spec fn from_spec(value: &'a PluginStatusValue) -> StatusValue {
        match *value {
            PluginStatusValue::Int(n) => StatusValue::Int(n),
            PluginStatusValue::Float(text) => StatusValue::Float(text),
            PluginStatusValue::String(text) => StatusValue::String(text),
        }
    }
}

/// A plugin that could not be resolved. The rest of the run goes on without
/// it.
#[derive(Clone, Debug, PartialEq, Eq)]
pub enum LoadError {
    /// The plugin's directory holds none of the entry points. The warning
    /// names the script entry file, the last entry point that is looked for.
    NoEntryPoint { plugin: String },
    /// The entry point is there but could not be read or loaded, for the
    /// reason given, which is the warning.
    Unloadable { plugin: String, reason: String },
}

/// A failed call of a plugin.
#[derive(Clone, Debug, PartialEq, Eq)]
pub enum RuntimeError {
    /// The plugin's process ended with a code other than zero.
    Exit { code: i32, output: String },
    /// The plugin's process was ended by a signal.
    Signal { output: String },
    /// The plugin has no status capability.
    Unsupported,
    /// The plugin reported a failure of its own.
    Failed { reason: String },
}

impl LoadError {
    /// The warning text for this error.
    pub open spec fn message_text(&self) -> Seq<char> {
        match *self {
            LoadError::NoEntryPoint { plugin } => "No main.py found for plugin: "@ + plugin@,
            LoadError::Unloadable { plugin, reason } => reason@,
        }
    }

    /// The warning text for this error.
    pub fn message(&self) -> (r: String)
        ensures
            r@ == self.message_text(),
    {
        match self {
            LoadError::NoEntryPoint { plugin } => {
                "No main.py found for plugin: ".to_owned().concat(plugin.as_str())
            },
            LoadError::Unloadable { plugin, reason } => reason.clone(),
        }
    }
}

impl RuntimeError {
    /// The text of this error. For a process that ended with a code other
    /// than zero it holds the code in decimal and the captured output.
    pub open spec fn message_text(&self) -> Seq<char> {
        match *self {
            RuntimeError::Exit { code, output } => "exit code "@ + decimal_text(code as int) + ": "@
                + output@,
            RuntimeError::Signal { output } => "terminated by a signal: "@ + output@,
            RuntimeError::Unsupported => "status checks are not supported by this plugin"@,
            RuntimeError::Failed { reason } => reason@,
        }
    }

    /// The text of this error.
    pub fn message(&self) -> (r: String)
        ensures
            r@ == self.message_text(),
    {
        match self {
            RuntimeError::Exit { code, output } => "exit code ".to_owned().concat(
                decimal_i64(*code as i64).as_str(),
            ).concat(": ").concat(output.as_str()),
            RuntimeError::Signal { output } => "terminated by a signal: ".to_owned().concat(
                output.as_str(),
            ),
            RuntimeError::Unsupported => {
                "status checks are not supported by this plugin".to_owned()
            },
            RuntimeError::Failed { reason } => reason.clone(),
        }
    }
}

/// The text with which the runner gives up when a call of plugin `name` has
/// failed with `reason`.
pub open spec fn failure_text(name: Seq<char>, reason: Seq<char>) -> Seq<char> {
    "Error while running plugin "@ + name + ": "@ + reason
}

/// The text with which the runner gives up when a call of plugin `name` has
/// failed.
pub fn failure_message(name: &str, error: &RuntimeError) -> (r: String)
    ensures
        r@ == failure_text(name@, error.message_text()),
{
    "Error while running plugin ".to_owned().concat(name).concat(": ").concat(
        error.message().as_str(),
    )
}

/// Whether some file of `files` is a compiled loadable unit.
pub open spec fn has_code_unit(files: Seq<String>) -> bool {
    exists|i: int| 0 <= i < files.len() && has_suffix((#[trigger] files[i])@, code_unit_suffix())
}

/// The way a plugin is backed, decided by the files of its directory: a run
/// script comes first, then a compiled unit, then a script entry file.
/// `None` where the directory holds none of them.
pub open spec fn language_of(files: Seq<String>) -> Option<PluginLanguage> {
    if has_name(files, run_script_name()) {
        Some(PluginLanguage::Bash)
    } else if has_code_unit(files) {
        Some(PluginLanguage::Native)
    } else if has_name(files, script_entry_name()) {
        Some(PluginLanguage::Python)
    } else {
        None
    }
}

/// The first compiled loadable unit among `files`, if there is one.
pub fn find_code_unit(files: &Vec<String>) -> (r: Option<usize>)
    ensures
        match r {
            Some(i) => i < files@.len() && has_suffix(files@[i as int]@, code_unit_suffix())
                && forall|j: int|
                0 <= j < i ==> !has_suffix((#[trigger] files@[j])@, code_unit_suffix()),
            None => !has_code_unit(files@),
        },
{
    let n = files.len();
    let mut i: usize = 0;
    while i < n
        invariant
            n == files@.len(),
            i <= n,
            forall|j: int| 0 <= j < i ==> !has_suffix((#[trigger] files@[j])@, code_unit_suffix()),
        decreases n - i,
    {
        if ends_with(files[i].as_str(), ".so") {
            return Some(i);
        }
        i = i + 1;
    }
    None
}

/// Decides how a plugin is backed from the names of the files in its
/// directory.
pub fn detect_language(files: &Vec<String>) -> (r: Option<PluginLanguage>)
    ensures
        r == language_of(files@),
{
    if contains_name(files, "run.sh") {
        Some(PluginLanguage::Bash)
    } else if find_code_unit(files).is_some() {
        Some(PluginLanguage::Native)
    } else if contains_name(files, "main.py") {
        Some(PluginLanguage::Python)
    } else {
        None
    }
}

/// A resolved plugin: one of the three ways a plugin can be backed, with
/// what is needed to call it.
#[derive(Clone, Debug, PartialEq, Eq)]
pub enum CallablePlugin {
    Bash(BashCommand),
    Native(NativeUnit),
    Python(PythonScript),
}

impl CallablePlugin {
    /// The way this plugin is backed.
    pub open spec fn language(&self) -> PluginLanguage {
        match *self {
            CallablePlugin::Bash(_) => PluginLanguage::Bash,
            CallablePlugin::Native(_) => PluginLanguage::Native,
            CallablePlugin::Python(_) => PluginLanguage::Python,
        }
    }

    /// The plugin's name.
    pub open spec fn name(&self) -> Seq<char> {
        match *self {
            CallablePlugin::Bash(command) => command.name@,
            CallablePlugin::Native(unit) => unit.name@,
            CallablePlugin::Python(script) => script.name@,
        }
    }

    /// Whether the plugin can be asked for its status: a process plugin
    /// with a status script can, no other plugin.
    pub open spec fn supports_status(&self) -> bool {
        match *self {
            CallablePlugin::Bash(command) => command.status_checker is Some,
            _ => false,
        }
    }

    /// Whether the plugin can be asked for its status.
    pub fn has_status(&self) -> (r: bool)
        ensures
            r == self.supports_status(),
    {
        match self {
            CallablePlugin::Bash(command) => command.status_checker.is_some(),
            _ => false,
        }
    }
}

/// Resolves the plugin `name` from the names of the files in its directory
/// under `plugins_dir`: as a process plugin if it has a run script, else as
/// a native plugin if it has a compiled unit, else as a script plugin if it
/// has a script entry file. A directory with none of these gives an error.
pub fn load_plugin(name: &str, plugins_dir: &str, files: &Vec<String>) -> (r: Result<
    CallablePlugin,
    LoadError,
>)
    ensures
        match r {
            Ok(plugin) => {
                &&& language_of(files@) == Some(plugin.language())
                &&& plugin.name() == name@
                &&& plugin matches CallablePlugin::Bash(command) ==> crate::bash_plugin::describes(
                    command,
                    name@,
                    plugins_dir@,
                    files@,
                )
                &&& plugin matches CallablePlugin::Native(unit) ==> crate::native_plugin::describes(
                    unit,
                    name@,
                    plugins_dir@,
                    files@,
                )
                &&& plugin matches CallablePlugin::Python(script)
                    ==> crate::python_plugin::describes(script, name@, plugins_dir@)
            },
            Err(error) => {
                &&& language_of(files@) is None
                &&& error matches LoadError::NoEntryPoint { plugin }
                &&& plugin@ == name@
            },
        },
{
    match detect_language(files) {
        Some(PluginLanguage::Bash) => match crate::bash_plugin::load(name, plugins_dir, files) {
            Ok(command) => Ok(CallablePlugin::Bash(command)),
            Err(error) => Err(error),
        },
        Some(PluginLanguage::Native) => match crate::native_plugin::load(name, plugins_dir, files) {
            Ok(unit) => Ok(CallablePlugin::Native(unit)),
            Err(error) => Err(error),
        },
        Some(PluginLanguage::Python) => match crate::python_plugin::load(name, plugins_dir, files) {
            Ok(script) => Ok(CallablePlugin::Python(script)),
            Err(error) => Err(error),
        },
        None => Err(LoadError::NoEntryPoint { plugin: name.to_owned() }),
    }
}

/// What every plugin can do, however it is backed.
pub trait PluginInterface {
    /// Performs the plugin's action once.
    fn run(&self, config: &Dict<String>) -> Result<(), RuntimeError>;

    /// Reads the plugin's status. A plugin without a status capability gives
    /// an error.
    fn status(&self, config: &Dict<String>) -> Result<Dict<PluginStatusValue>, RuntimeError>;
}

/// Whether `report` is what a call of plugin `name` comes to for the runner
/// when the plugin came back with `outcome`: success stays success, and a
/// failure becomes the text with which the runner gives up.
pub open spec fn is_run_report(
    name: Seq<char>,
    outcome: Result<(), RuntimeError>,
    report: Result<(), String>,
) -> bool {
    match outcome {
        Ok(()) => report is Ok,
        Err(error) => report matches Err(text) && text@ == failure_text(name, error.message_text()),
    }
}

/// Whether `report` is what a status query of plugin `name` comes to for the
/// runner when the plugin came back with `outcome`: the snapshot as it is,
/// and for a failure the text with which the runner gives up.
pub open spec fn is_status_report(
    name: Seq<char>,
    outcome: Result<Dict<PluginStatusValue>, RuntimeError>,
    report: Result<Dict<PluginStatusValue>, String>,
) -> bool {
    match outcome {
        Ok(status) => report == Ok::<Dict<PluginStatusValue>, String>(status),
        Err(error) => report matches Err(text) && text@ == failure_text(name, error.message_text()),
    }
}

/// What a call of plugin `name` comes to for the runner, given what the
/// plugin reported: a failure becomes the text with which the runner gives
/// up.
pub fn run_report(name: &str, outcome: Result<(), RuntimeError>) -> (r: Result<(), String>)
    ensures
        is_run_report(name@, outcome, r),
{
    match outcome {
        Ok(()) => Ok(()),
        Err(error) => Err(failure_message(name, &error)),
    }
}

/// What a status query of plugin `name` comes to for the runner, given what
/// the plugin reported: the snapshot as it is, or for a failure the text
/// with which the runner gives up.
pub fn status_report(name: &str, outcome: Result<Dict<PluginStatusValue>, RuntimeError>) -> (r:
    Result<Dict<PluginStatusValue>, String>)
    ensures
        is_status_report(name@, outcome, r),
{
    match outcome {
        Ok(status) => Ok(status),
        Err(error) => Err(failure_message(name, &error)),
    }
}

/// Calls plugin `name` once: `run` of `plugin` is called with the options
/// `config`, and what comes back is the report of what that call came to,
/// success if the plugin succeeded and for a failure the text with which
/// the runner gives up.
pub fn call_plugin<P: PluginInterface>(name: &str, plugin: &P, config: &Dict<String>) -> (r: Result<
    (),
    String,
>)
    ensures
        exists|outcome: Result<(), RuntimeError>| #[trigger]
            call_ensures(P::run, (plugin, config), outcome) && is_run_report(name@, outcome, r),
        r matches Err(text) ==> exists|reason: Seq<char>| text@ == failure_text(name@, reason),
{
    run_report(name, plugin.run(config))
}

/// Reads the status of plugin `name`: `status` of `plugin` is called with
/// the options `config`, and what comes back is the report of what that
/// call came to, the snapshot that the plugin gave and for a failure the
/// text with which the runner gives up.
pub fn get_status<P: PluginInterface>(name: &str, plugin: &P, config: &Dict<String>) -> (r: Result<
    Dict<PluginStatusValue>,
    String,
>)
    ensures
        exists|outcome: Result<Dict<PluginStatusValue>, RuntimeError>| #[trigger]
            call_ensures(P::status, (plugin, config), outcome) && is_status_report(
                name@,
                outcome,
                r,
            ),
        r matches Err(text) ==> exists|reason: Seq<char>| text@ == failure_text(name@, reason),
{
    status_report(name, plugin.status(config))
}

/// `path` with `home` in place of every tilde.
pub open spec fn with_home(path: Seq<char>, home: Seq<char>) -> Seq<char>
    decreases path.len(),
{
    if path.len() == 0 {
        Seq::empty()
    } else if path.last() == '~' {
        with_home(path.drop_last(), home) + home
    } else {
        with_home(path.drop_last(), home).push(path.last())
    }
}

/// A path that starts with a tilde, with the home directory in place of
/// every tilde when the home directory is known; any other path unchanged.
pub open spec fn home_unwrapped(path: Seq<char>, home: Option<Seq<char>>) -> Seq<char> {
    match home {
        Some(home) => if path.len() > 0 && path[0] == '~' {
            with_home(path, home)
        } else {
            path
        },
        None => path,
    }
}

/// Characters other than the tilde stay as they are.
proof fn lemma_with_home_plain(path: Seq<char>, home: Seq<char>, start: int, end: int)
    requires
        0 <= start <= end <= path.len(),
        forall|j: int| start <= j < end ==> path[j] != '~',
    ensures
        with_home(path.take(end), home) == with_home(path.take(start), home) + path.subrange(
            start,
            end,
        ),
    decreases end - start,
{
    if start == end {
        assert(path.subrange(start, end) =~= Seq::<char>::empty());
        assert(with_home(path.take(start), home) + Seq::<char>::empty() =~= with_home(
            path.take(start),
            home,
        ));
    } else {
        lemma_with_home_plain(path, home, start, end - 1);
        assert(path.take(end).drop_last() =~= path.take(end - 1));
        assert(path.take(end).last() == path[end - 1]);
        assert(path.subrange(start, end - 1).push(path[end - 1]) =~= path.subrange(start, end));
        assert((with_home(path.take(start), home) + path.subrange(start, end - 1)).push(
            path[end - 1],
        ) =~= with_home(path.take(start), home) + path.subrange(start, end));
    }
}

/// Puts the home directory in place of every tilde of `path`.
fn replace_tildes(path: &str, home: &str) -> (r: String)
    ensures
        r@ == with_home(path@, home@),
{
    let n = char_len(path);
    let mut out = String::new();
    let mut start: usize = 0;
    let mut i: usize = 0;
    assert(path@.take(0) =~= Seq::<char>::empty());
    for c in it: path.chars()
        invariant
            it.seq() == path@,
            i == it.index(),
            n == path@.len(),
            start <= i,
            forall|j: int| start <= j < i ==> path@[j] != '~',
            out@ == with_home(path@.take(start as int), home@),
    {
        if c == '~' {
            proof {
                lemma_with_home_plain(path@, home@, start as int, i as int);
                assert(path@.take(i + 1).drop_last() =~= path@.take(i as int));
                assert(path@.take(i + 1).last() == '~');
            }
            out = out.concat(slice(path, start, i).as_str()).concat(home);
            start = i + 1;
        }
        i = i + 1;
    }
    proof {
        lemma_with_home_plain(path@, home@, start as int, n as int);
        assert(path@.take(n as int) =~= path@);
    }
    out.concat(slice(path, start, n).as_str())
}

/// Puts the home directory in place of the tilde at the start of `path`,
/// and of any other tilde in it. A path that does not start with a tilde
/// stays as it is, as does every path when the home directory is unknown.
pub fn unwrap_home_path(path: &str, home: Option<&str>) -> (r: String)
    ensures
        r@ == home_unwrapped(
            path@,
            match home {
                Some(h) => Some(h@),
                None => None,
            },
        ),
{
    match home {
        Some(h) => {
            if char_len(path) > 0 && path.get_char(0) == '~' {
                replace_tildes(path, h)
            } else {
                path.to_owned()
            }
        },
        None => path.to_owned(),
    }
}

/// The directory of plugin `name` under the plugins directory `plugins_dir`.
pub open spec fn plugin_dir(plugins_dir: Seq<char>, name: Seq<char>) -> Seq<char> {
    plugins_dir + seq!['/'] + name
}

/// The directory in which plugin `name` is installed: under the plugins
/// directory of the runner's home, which is the override where one is set
/// and else the default under the user's home directory.
pub fn get_path_to_plugin(name: &str, paws_home: Option<&str>, home: Option<&str>) -> (r: String)
    ensures
        r@ == plugin_dir(
            joined_path(kittypaws_home(text_of(paws_home), text_of(home)), "plugins"@),
            name@,
        ),
{
    get_plugin_path(name, paws_home, home)
}

} // verus!
