//! Where plugins are installed, and the names that an installation from an
//! archive works with.

use vstd::prelude::*;
use crate::plug::{home_unwrapped, unwrap_home_path};
use crate::text::{char_len, find_char, first_index_of, slice};

verus! {

/// The runner's home directory for a user whose home directory stands for
/// the tilde.
pub open spec fn default_home() -> Seq<char> {
    "~/.kittypaws"@
}

/// The text of an optional string slice.
pub open spec fn text_of(s: Option<&str>) -> Option<Seq<char>> {
    match s {
        Some(s) => Some(s@),
        None => None,
    }
}

/// The runner's home directory: the override if one is set, else the
/// default under the user's home directory.
pub open spec fn kittypaws_home(paws_home: Option<Seq<char>>, home: Option<Seq<char>>) -> Seq<
    char,
> {
    match paws_home {
        Some(dir) => dir,
        None => home_unwrapped(default_home(), home),
    }
}

/// `name` under the directory `dir`.
pub open spec fn joined_path(dir: Seq<char>, name: Seq<char>) -> Seq<char> {
    dir + seq!['/'] + name
}

/// `name` under the directory `dir`.
pub fn join_path(dir: &str, name: &str) -> (r: String)
    ensures
        r@ == joined_path(dir@, name@),
{
    proof {
        reveal_strlit("/");
    }
    let r = dir.to_owned().concat("/").concat(name);
    assert(r@ =~= joined_path(dir@, name@));
    r
}

/// The runner's home directory, given the override and the user's home
/// directory as the environment has them.
pub fn get_kittypaws_home(paws_home: Option<&str>, home: Option<&str>) -> (r: String)
    ensures
        r@ == kittypaws_home(text_of(paws_home), text_of(home)),
{
    match paws_home {
        Some(dir) => dir.to_owned(),
        None => unwrap_home_path("~/.kittypaws", home),
    }
}

/// The directory that holds the installed plugins.
pub fn get_plugins_path(paws_home: Option<&str>, home: Option<&str>) -> (r: String)
    ensures
        r@ == joined_path(kittypaws_home(text_of(paws_home), text_of(home)), "plugins"@),
{
    join_path(get_kittypaws_home(paws_home, home).as_str(), "plugins")
}

/// The directory of the installed plugin `plugin_name`.
pub fn get_plugin_path(plugin_name: &str, paws_home: Option<&str>, home: Option<&str>) -> (r:
    String)
    ensures
        r@ == joined_path(
            joined_path(kittypaws_home(text_of(paws_home), text_of(home)), "plugins"@),
            plugin_name@,
        ),
{
    join_path(get_plugins_path(paws_home, home).as_str(), plugin_name)
}

/// The configuration file that is read when none is named.
pub fn get_default_config_path(paws_home: Option<&str>, home: Option<&str>) -> (r: String)
    ensures
        r@ == joined_path(kittypaws_home(text_of(paws_home), text_of(home)), "paws.yml"@),
{
    join_path(get_kittypaws_home(paws_home, home).as_str(), "paws.yml")
}

/// One entry of a directory: its name, and whether it is a directory
/// itself.
#[derive(Clone, Debug, PartialEq, Eq)]
pub struct DirEntry {
    pub name: String,
    pub is_dir: bool,
}

/// The names of the directories among `entries`, in their order.
pub open spec fn directories(entries: Seq<DirEntry>) -> Seq<Seq<char>>
    decreases entries.len(),
{
    if entries.len() == 0 {
        Seq::empty()
    } else if entries.last().is_dir {
        directories(entries.drop_last()).push(entries.last().name@)
    } else {
        directories(entries.drop_last())
    }
}

/// The names in `names` as sequences of characters.
pub open spec fn names_view(names: Seq<String>) -> Seq<Seq<char>> {
    names.map_values(|name: String| name@)
}

/// The installed plugins, given the entries of the plugins directory: each
/// directory in it is a plugin.
pub fn get_all_plugins(entries: &Vec<DirEntry>) -> (r: Vec<String>)
    ensures
        names_view(r@) == directories(entries@),
{
    let n = entries.len();
    let mut plugins: Vec<String> = Vec::new();
    let mut i: usize = 0;
    assert(entries@.take(0) =~= Seq::<DirEntry>::empty());
    assert(names_view(plugins@) =~= directories(entries@.take(0)));
    while i < n
        invariant
            n == entries@.len(),
            i <= n,
            names_view(plugins@) == directories(entries@.take(i as int)),
        decreases n - i,
    {
        proof {
            let next = entries@.take(i + 1);
            assert(next.drop_last() =~= entries@.take(i as int));
            assert(next.last() == entries@[i as int]);
        }
        if entries[i].is_dir {
            let ghost before = names_view(plugins@);
            plugins.push(entries[i].name.clone());
            assert(names_view(plugins@) =~= before.push(entries@[i as int].name@));
        }
        i = i + 1;
    }
    assert(entries@.take(n as int) =~= entries@);
    plugins
}

/// The address of the archive of branch `branch` of the repository
/// `repo_spec`, which names the owner and the repository with a slash
/// between them.
pub open spec fn archive_address(repo_spec: Seq<char>, branch: Seq<char>) -> Seq<char> {
    "https://github.com/"@ + repo_spec + "/archive/"@ + branch + ".zip"@
}

/// The address of the archive of branch `branch` of the repository
/// `repo_spec`.
pub fn archive_uri(repo_spec: &str, branch: &str) -> (r: String)
    ensures
        r@ == archive_address(repo_spec@, branch@),
{
    "https://github.com/".to_owned().concat(repo_spec).concat("/archive/").concat(branch).concat(
        ".zip",
    )
}

/// The name under which a plugin is installed: the one asked for, else what
/// follows the first slash of `repo_spec`. `None` where neither is there.
pub open spec fn save_name(repo_spec: Seq<char>, save_as: Option<Seq<char>>) -> Option<Seq<char>> {
    match save_as {
        Some(name) => Some(name),
        None => {
            let k = first_index_of(repo_spec, '/') as int;
            if k >= repo_spec.len() {
                None
            } else {
                Some(repo_spec.subrange(k + 1, repo_spec.len() as int))
            }
        },
    }
}

/// The name under which a plugin is installed.
pub fn plugin_save_name(repo_spec: &str, save_as: Option<String>) -> (r: Option<String>)
    ensures
        match r {
            Some(name) => save_name(
                repo_spec@,
                match save_as {
                    Some(s) => Some(s@),
                    None => None,
                },
            ) == Some(name@),
            None => save_name(
                repo_spec@,
                match save_as {
                    Some(s) => Some(s@),
                    None => None,
                },
            ) is None,
        },
{
    match save_as {
        Some(name) => Some(name),
        None => {
            let n = char_len(repo_spec);
            match find_char(repo_spec, '/') {
                Some(k) => Some(slice(repo_spec, k + 1, n)),
                None => None,
            }
        },
    }
}

/// The path of an archive entry once its first component, the directory
/// that the archive wraps everything in, has given way to `name`.
pub open spec fn rebased(entry: Seq<char>, name: Seq<char>) -> Seq<char> {
    let k = first_index_of(entry, '/') as int;
    if k >= entry.len() {
        name
    } else {
        name + entry.subrange(k, entry.len() as int)
    }
}

/// Where an archive entry goes below the plugins directory: its path with
/// `name` in place of its first component.
pub fn rebase_entry(entry: &str, name: &str) -> (r: String)
    ensures
        r@ == rebased(entry@, name@),
{
    match find_char(entry, '/') {
        Some(k) => name.to_owned().concat(slice(entry, k, char_len(entry)).as_str()),
        None => name.to_owned(),
    }
}

} // verus!
