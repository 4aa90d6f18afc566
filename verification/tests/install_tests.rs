use kittypaws::install::{
    archive_uri, get_all_plugins, get_default_config_path, get_kittypaws_home, get_plugin_path,
    get_plugins_path, join_path, plugin_save_name, rebase_entry, DirEntry,
};

fn entry(name: &str, is_dir: bool) -> DirEntry {
    DirEntry { name: name.to_string(), is_dir }
}

#[test]
fn test_list_no_plugins_folder() {
    // Without a plugins folder there are no entries to go by.
    let listed_plugins = get_all_plugins(&Vec::new());
    assert!(listed_plugins.is_empty());
}

#[test]
fn test_list_empty_plugins_folder() {
    let entries: Vec<DirEntry> = vec![];
    let listed_plugins = get_all_plugins(&entries);
    assert!(listed_plugins.is_empty());
}

#[test]
fn listing_names_the_directories_only() {
    let entries = vec![
        entry("deathloop", true),
        entry("notes.txt", false),
        entry("dropper", true),
        entry(".tmp.zip", false),
    ];
    assert_eq!(get_all_plugins(&entries), vec!["deathloop", "dropper"]);
}

#[test]
fn home_is_the_override_or_the_default() {
    assert_eq!(get_kittypaws_home(Some("./.tmp"), Some("/home/u")), "./.tmp");
    assert_eq!(get_kittypaws_home(None, Some("/home/u")), "/home/u/.kittypaws");
    assert_eq!(get_kittypaws_home(None, None), "~/.kittypaws");
    assert_eq!(get_plugins_path(Some("./.tmp"), None), "./.tmp/plugins");
    assert_eq!(get_plugin_path("test_plugin", Some("./.tmp"), None), "./.tmp/plugins/test_plugin");
    assert_eq!(get_plugin_path("p", None, Some("/h")), "/h/.kittypaws/plugins/p");
    assert_eq!(get_default_config_path(None, Some("/h")), "/h/.kittypaws/paws.yml");
    assert_eq!(join_path("a", "b"), "a/b");
}

#[test]
fn archive_address_names_repository_and_branch() {
    assert_eq!(
        archive_uri("subatiq/kittypaws-deathloop", "master"),
        "https://github.com/subatiq/kittypaws-deathloop/archive/master.zip"
    );
}

#[test]
fn plugin_is_saved_under_the_given_or_the_repository_name() {
    assert_eq!(
        plugin_save_name("subatiq/kittypaws-deathloop", Some("test_plugin".to_string())),
        Some("test_plugin".to_string())
    );
    assert_eq!(
        plugin_save_name("subatiq/kittypaws-deathloop", None),
        Some("kittypaws-deathloop".to_string())
    );
    assert_eq!(plugin_save_name("a/b/c", None), Some("b/c".to_string()));
    assert_eq!(plugin_save_name("norepo", None), None);
    assert_eq!(plugin_save_name("norepo", Some("x".to_string())), Some("x".to_string()));
}

#[test]
fn archive_entry_moves_under_the_plugins_name() {
    assert_eq!(rebase_entry("kittypaws-deathloop-master/run.sh", "dl"), "dl/run.sh");
    assert_eq!(rebase_entry("kittypaws-deathloop-master/src/a/b.rs", "dl"), "dl/src/a/b.rs");
    assert_eq!(rebase_entry("kittypaws-deathloop-master/", "dl"), "dl/");
    assert_eq!(rebase_entry("kittypaws-deathloop-master", "dl"), "dl");
    assert_eq!(rebase_entry("", "dl"), "dl");
}
