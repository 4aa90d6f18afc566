//! The plugin backed by a run script, with or without a status script: where
//! its scripts lie, what the end of a script's process means, and how the
//! output of the status script is read.

use vstd::prelude::*;
use crate::dict::Dict;
use crate::literal::{i64_literal, is_float_literal, is_float_text, parse_i64};
use crate::plug::{
    run_script_name,
    status_script_name,
    LoadError,
    PluginStatusValue,
    RuntimeError,
};
use crate::monitoring::StatusReading;
use crate::text::{
    char_len,
    contains_name,
    find_char,
    first_index_of,
    has_name,
    lemma_first_index_is,
    slice,
};

verus! {

/// A plugin that is run as a process.
#[derive(Clone, Debug, PartialEq, Eq)]
pub struct BashCommand {
    /// The plugin's name.
    pub name: String,
    /// Path of the run script.
    pub executable: String,
    /// Path of the status script, if the plugin has one.
    pub status_checker: Option<String>,
}

/// The path of `file` in the directory of plugin `name` under `plugins_dir`.
pub open spec fn script_path(plugins_dir: Seq<char>, name: Seq<char>, file: Seq<char>) -> Seq<
    char,
> {
    plugins_dir + seq!['/'] + name + seq!['/'] + file
}

/// The path of `file` in the directory of plugin `name` under `plugins_dir`.
pub fn path_in_plugin(plugins_dir: &str, name: &str, file: &str) -> (r: String)
    ensures
        r@ == script_path(plugins_dir@, name@, file@),
{
    proof {
        reveal_strlit("/");
    }
    let r = plugins_dir.to_owned().concat("/").concat(name).concat("/").concat(file);
    assert(r@ =~= script_path(plugins_dir@, name@, file@));
    r
}

/// `command` is the process plugin `name` as its directory under
/// `plugins_dir` shows it: its run script, and its status script exactly
/// when `files` names one.
pub open spec fn describes(
    command: BashCommand,
    name: Seq<char>,
    plugins_dir: Seq<char>,
    files: Seq<String>,
) -> bool {
    &&& command.name@ == name
    &&& command.executable@ == script_path(plugins_dir, name, run_script_name())
    &&& match command.status_checker {
        Some(path) => has_name(files, status_script_name()) && path@ == script_path(
            plugins_dir,
            name,
            status_script_name(),
        ),
        None => !has_name(files, status_script_name()),
    }
}

/// Resolves the plugin `name` as a process plugin, given the names of the
/// files in its directory. The plugin needs its run script; the status
/// script is taken along where it is there.
pub fn load(name: &str, plugins_dir: &str, files: &Vec<String>) -> (r: Result<
    BashCommand,
    LoadError,
>)
    ensures
        match r {
            Ok(command) => has_name(files@, run_script_name()) && describes(
                command,
                name@,
                plugins_dir@,
                files@,
            ),
            Err(error) => {
                &&& !has_name(files@, run_script_name())
                &&& error matches LoadError::NoEntryPoint { plugin }
                &&& plugin@ == name@
            },
        },
{
    if !contains_name(files, "run.sh") {
        return Err(LoadError::NoEntryPoint { plugin: name.to_owned() });
    }
    let executable = path_in_plugin(plugins_dir, name, "run.sh");
    let status_checker = if contains_name(files, "status.sh") {
        Some(path_in_plugin(plugins_dir, name, "status.sh"))
    } else {
        None
    };
    Ok(BashCommand { name: name.to_owned(), executable, status_checker })
}

/// Whether `error` is the error for a script whose process did not end with
/// code zero: it holds the code, or tells that a signal ended the process
/// (`exit_code` of `None`), along with what the process wrote to its
/// standard error and its standard output.
pub open spec fn is_exit_failure(
    error: RuntimeError,
    exit_code: Option<i32>,
    stdout: Seq<char>,
    stderr: Seq<char>,
) -> bool {
    match exit_code {
        Some(code) => {
            &&& error matches RuntimeError::Exit { code: held, output }
            &&& held == code
            &&& output@ == stderr + stdout
        },
        None => {
            &&& error matches RuntimeError::Signal { output }
            &&& output@ == stderr + stdout
        },
    }
}

/// The error for a script whose process did not end with code zero.
fn failure_of(exit_code: Option<i32>, stdout: &str, stderr: &str) -> (r: RuntimeError)
    requires
        exit_code != Some(0i32),
    ensures
        is_exit_failure(r, exit_code, stdout@, stderr@),
{
    let output = stderr.to_owned().concat(stdout);
    match exit_code {
        Some(code) => RuntimeError::Exit { code, output },
        None => RuntimeError::Signal { output },
    }
}

/// A value as the status script wrote it: an integer if the text writes a
/// 64-bit signed integer, else a floating-point number if it is in the
/// floating-point notation, else the text itself.
pub open spec fn reading_of(value: Seq<char>) -> StatusReading {
    match i64_literal(value) {
        Some(n) => StatusReading::Int(n),
        None => if is_float_literal(value) {
            StatusReading::Float(value)
        } else {
            StatusReading::Text(value)
        },
    }
}

/// `line` without the carriage return at its end, if it has one.
pub open spec fn without_carriage_return(line: Seq<char>) -> Seq<char> {
    if line.len() > 0 && line.last() == '\r' {
        line.drop_last()
    } else {
        line
    }
}

/// The lines of `text`. A line ends at a line feed, which is not part of it,
/// nor is a carriage return just before that line feed. What follows the
/// last line feed is a line too, unless it is empty.
pub open spec fn lines_of(text: Seq<char>) -> Seq<Seq<char>>
    decreases text.len(),
{
    if text.len() == 0 {
        Seq::empty()
    } else {
        let k = first_index_of(text, '\n') as int;
        if k >= text.len() {
            seq![text]
        } else {
            seq![without_carriage_return(text.subrange(0, k))] + lines_of(
                text.subrange(k + 1, text.len() as int),
            )
        }
    }
}

/// The key and the value text of a status line: what stands before its
/// first equals sign, and what stands after it. `None` for a line without
/// an equals sign.
pub open spec fn key_value_of(line: Seq<char>) -> Option<(Seq<char>, Seq<char>)> {
    let k = first_index_of(line, '=') as int;
    if k >= line.len() {
        None
    } else {
        Some((line.subrange(0, k), line.subrange(k + 1, line.len() as int)))
    }
}

/// The status snapshot that a sequence of lines gives: each line with an
/// equals sign sets the value of its key, a later line replacing an earlier
/// one with the same key; the other lines count for nothing.
pub open spec fn status_of_lines(lines: Seq<Seq<char>>) -> Map<Seq<char>, StatusReading>
    decreases lines.len(),
{
    if lines.len() == 0 {
        Map::empty()
    } else {
        let before = status_of_lines(lines.drop_last());
        match key_value_of(lines.last()) {
            Some((key, value)) => before.insert(key, reading_of(value)),
            None => before,
        }
    }
}

/// The status snapshot that the output of a status script gives.
pub open spec fn status_of(stdout: Seq<char>) -> Map<Seq<char>, StatusReading> {
    status_of_lines(lines_of(stdout))
}

/// The readings of a snapshot held in a dictionary.
pub open spec fn readings(fields: Dict<PluginStatusValue>) -> Map<Seq<char>, StatusReading> {
    fields@.map_values(|v: PluginStatusValue| v@)
}

/// Reads one value of a status line.
pub fn read_value(value: &str) -> (r: PluginStatusValue)
    ensures
        r@ == reading_of(value@),
{
    match parse_i64(value) {
        Some(n) => PluginStatusValue::Int(n),
        None => {
            if is_float_text(value) {
                PluginStatusValue::Float(value.to_owned())
            } else {
                PluginStatusValue::String(value.to_owned())
            }
        },
    }
}

/// Splits a status line at its first equals sign.
pub fn split_key_value(line: &str) -> (r: Option<(String, String)>)
    ensures
        match r {
            Some((key, value)) => key_value_of(line@) == Some((key@, value@)),
            None => key_value_of(line@) is None,
        },
{
    match find_char(line, '=') {
        Some(k) => {
            let n = char_len(line);
            Some((slice(line, 0, k), slice(line, k + 1, n)))
        },
        None => None,
    }
}

/// Takes one line of status output into the snapshot.
fn take_line(fields: &mut Dict<PluginStatusValue>, line: &str, Ghost(lines): Ghost<Seq<Seq<char>>>)
    requires
        readings(*old(fields)) == status_of_lines(lines),
    ensures
        readings(*final(fields)) == status_of_lines(lines.push(line@)),
{
    let ghost extended = lines.push(line@);
    assert(extended.drop_last() =~= lines);
    assert(extended.last() == line@);
    match split_key_value(line) {
        Some((key, value)) => {
            let reading = read_value(value.as_str());
            let ghost before = fields@;
            fields.insert(key, reading);
            assert(readings(*fields) =~= status_of_lines(lines).insert(key@, reading@));
        },
        None => {},
    }
}

/// Reads the output of a status script: one `key=value` pair per line, the
/// value an integer, a floating-point number or a text. Lines without an
/// equals sign are passed over.
pub fn parse_status(stdout: &str) -> (r: Dict<PluginStatusValue>)
    ensures
        readings(r) == status_of(stdout@),
{
    let n = char_len(stdout);
    let mut fields: Dict<PluginStatusValue> = Dict::new();
    // The line being read, but for a carriage return at its end, which is
    // held back until the next character shows whether it ends the line.
    let mut line = String::new();
    let mut pending_cr = false;
    let ghost mut start: int = 0;
    let ghost mut done: Seq<Seq<char>> = Seq::empty();
    assert(readings(fields) =~= status_of_lines(done));
    assert(stdout@.subrange(0, n as int) =~= stdout@);
    assert(line@ =~= stdout@.subrange(0, 0));
    for c in it: stdout.chars()
        invariant
            it.seq() == stdout@,
            n == stdout@.len(),
            0 <= start <= it.index(),
            forall|j: int| start <= j < it.index() ==> stdout@[j] != '\n',
            readings(fields) == status_of_lines(done),
            lines_of(stdout@) == done + lines_of(stdout@.subrange(start, n as int)),
            pending_cr ==> it.index() > start && stdout@[it.index() - 1] == '\r' && line@
                == stdout@.subrange(start, it.index() - 1),
            !pending_cr ==> line@ == stdout@.subrange(start, it.index() as int) && (it.index()
                == start || stdout@[it.index() - 1] != '\r'),
    {
        let ghost i = it.index() as int;
        if c == '\n' {
            proof {
                let rest = stdout@.subrange(start, n as int);
                assert forall|j: int| 0 <= j < i - start implies rest[j] != '\n' by {
                    assert(rest[j] == stdout@[start + j]);
                }
                assert(rest[i - start] == '\n');
                lemma_first_index_is(rest, '\n', i - start);
                let raw = rest.subrange(0, i - start);
                assert(raw =~= stdout@.subrange(start, i));
                if pending_cr {
                    assert(raw.last() == '\r');
                    assert(raw.drop_last() =~= stdout@.subrange(start, i - 1));
                } else if raw.len() > 0 {
                    assert(raw.last() == stdout@[i - 1]);
                }
                assert(line@ == without_carriage_return(raw));
                assert(rest.subrange(i - start + 1, rest.len() as int) =~= stdout@.subrange(
                    i + 1,
                    n as int,
                ));
                assert(lines_of(rest) == seq![line@] + lines_of(stdout@.subrange(i + 1, n as int)));
                assert(done + (seq![line@] + lines_of(stdout@.subrange(i + 1, n as int)))
                    =~= done.push(line@) + lines_of(stdout@.subrange(i + 1, n as int)));
            }
            take_line(&mut fields, line.as_str(), Ghost(done));
            proof {
                done = done.push(line@);
                start = i + 1;
            }
            line = String::new();
            pending_cr = false;
            assert(line@ =~= stdout@.subrange(start, i + 1));
        } else {
            if pending_cr {
                line.push('\r');
                assert(line@ =~= stdout@.subrange(start, i));
            }
            if c == '\r' {
                pending_cr = true;
            } else {
                line.push(c);
                pending_cr = false;
                assert(line@ =~= stdout@.subrange(start, i + 1));
            }
        }
    }
    if pending_cr {
        line.push('\r');
        assert(line@ =~= stdout@.subrange(start, n as int));
    }
    proof {
        let rest = stdout@.subrange(start, n as int);
        assert forall|j: int| 0 <= j < rest.len() implies rest[j] != '\n' by {
            assert(rest[j] == stdout@[start + j]);
        }
        lemma_first_index_is(rest, '\n', rest.len() as int);
        if rest.len() > 0 {
            assert(lines_of(rest) == seq![rest]);
            assert(done + seq![rest] =~= done.push(line@));
        } else {
            assert(done + Seq::<Seq<char>>::empty() =~= done);
        }
    }
    if !line.as_str().is_empty() {
        take_line(&mut fields, line.as_str(), Ghost(done));
    }
    fields
}

impl BashCommand {
    /// What a call of the run script comes to, given how its process ended
    /// and what it wrote: success for exit code zero, an error that holds
    /// the code and the output for any other code, an error for a process
    /// that a signal ended (`exit_code` of `None`).
    pub fn run_result(exit_code: Option<i32>, stdout: &str, stderr: &str) -> (r: Result<
        (),
        RuntimeError,
    >)
        ensures
            match r {
                Ok(()) => exit_code == Some(0i32),
                Err(error) => exit_code != Some(0i32) && is_exit_failure(
                    error,
                    exit_code,
                    stdout@,
                    stderr@,
                ),
            },
    {
        match exit_code {
            Some(0) => Ok(()),
            _ => Err(failure_of(exit_code, stdout, stderr)),
        }
    }

    /// The status script to start, or the error of a plugin without one.
    pub fn status_script(&self) -> (r: Result<&String, RuntimeError>)
        ensures
            match r {
                Ok(path) => self.status_checker == Some(*path),
                Err(error) => self.status_checker is None && error == RuntimeError::Unsupported,
            },
    {
        match &self.status_checker {
            Some(path) => Ok(path),
            None => Err(RuntimeError::Unsupported),
        }
    }

    /// What a call of the status script comes to, given how its process
    /// ended and what it wrote: for exit code zero the snapshot read from
    /// its standard output, an error otherwise.
    pub fn status_result(exit_code: Option<i32>, stdout: &str, stderr: &str) -> (r: Result<
        Dict<PluginStatusValue>,
        RuntimeError,
    >)
        ensures
            match r {
                Ok(fields) => exit_code == Some(0i32) && readings(fields) == status_of(stdout@),
                Err(error) => exit_code != Some(0i32) && is_exit_failure(
                    error,
                    exit_code,
                    stdout@,
                    stderr@,
                ),
            },
    {
        match exit_code {
            Some(0) => Ok(parse_status(stdout)),
            _ => Err(failure_of(exit_code, stdout, stderr)),
        }
    }
}

} // verus!
