use kittypaws::bash_plugin::BashCommand;
use kittypaws::native_plugin::{factory_symbol_name, NativeUnit};
use kittypaws::plug::{
    detect_language, find_code_unit, get_path_to_plugin, load_plugin, unwrap_home_path,
    CallablePlugin, LoadError, PluginLanguage, RuntimeError,
};
use kittypaws::python_plugin::PythonScript;

fn names(files: &[&str]) -> Vec<String> {
    files.iter().map(|f| f.to_string()).collect()
}

#[test]
fn script_pair_resolves_to_external_process_plugin() {
    let files = names(&["run.sh", "status.sh"]);
    assert_eq!(detect_language(&files), Some(PluginLanguage::Bash));
    let plugin = load_plugin("restart", "/home/u/.kittypaws/plugins", &files).unwrap();
    assert_eq!(
        plugin,
        CallablePlugin::Bash(BashCommand {
            name: "restart".to_string(),
            executable: "/home/u/.kittypaws/plugins/restart/run.sh".to_string(),
            status_checker: Some("/home/u/.kittypaws/plugins/restart/status.sh".to_string()),
        })
    );
    assert!(plugin.has_status());
}

#[test]
fn run_script_alone_resolves_to_external_process_plugin_without_status() {
    let files = names(&["README.md", "run.sh"]);
    let plugin = load_plugin("restart", "/p", &files).unwrap();
    assert_eq!(
        plugin,
        CallablePlugin::Bash(BashCommand {
            name: "restart".to_string(),
            executable: "/p/restart/run.sh".to_string(),
            status_checker: None,
        })
    );
    assert!(!plugin.has_status());
}

#[test]
fn compiled_unit_alone_resolves_to_native_plugin() {
    let files = names(&["libdeathloop.so"]);
    assert_eq!(detect_language(&files), Some(PluginLanguage::Native));
    let plugin = load_plugin("deathloop", "/p", &files).unwrap();
    assert_eq!(
        plugin,
        CallablePlugin::Native(NativeUnit {
            name: "deathloop".to_string(),
            library: "/p/deathloop/libdeathloop.so".to_string(),
        })
    );
    assert!(!plugin.has_status());
    assert_eq!(factory_symbol_name(), "new_service");
}

#[test]
fn script_entry_alone_resolves_to_embedded_script_plugin() {
    let files = names(&["main.py", "helper.py"]);
    assert_eq!(detect_language(&files), Some(PluginLanguage::Python));
    let plugin = load_plugin("drop", "/p", &files).unwrap();
    assert_eq!(
        plugin,
        CallablePlugin::Python(PythonScript {
            name: "drop".to_string(),
            entrypoint: "/p/drop/main.py".to_string(),
            search_path: "/p/drop".to_string(),
        })
    );
}

#[test]
fn directory_with_no_entry_point_is_a_load_error() {
    for files in [names(&[]), names(&["README.md", "status.sh", "run.sh.bak", "so", "main.pyc"])] {
        assert_eq!(detect_language(&files), None);
        let error = load_plugin("ghost", "/p", &files).unwrap_err();
        assert_eq!(error, LoadError::NoEntryPoint { plugin: "ghost".to_string() });
        assert_eq!(error.message(), "No main.py found for plugin: ghost");
    }
}

#[test]
fn resolution_prefers_process_then_native_then_script() {
    assert_eq!(
        detect_language(&names(&["main.py", "libx.so", "run.sh"])),
        Some(PluginLanguage::Bash)
    );
    assert_eq!(detect_language(&names(&["main.py", "libx.so"])), Some(PluginLanguage::Native));
    assert_eq!(detect_language(&names(&["main.py"])), Some(PluginLanguage::Python));
}

#[test]
fn first_compiled_unit_is_taken() {
    let files = names(&["a.txt", "libone.so", "libtwo.so"]);
    assert_eq!(find_code_unit(&files), Some(1));
    assert_eq!(find_code_unit(&names(&["a.so.txt", ".s", "so"])), None);
    assert_eq!(find_code_unit(&names(&[".so"])), Some(0));
}

#[test]
fn unloadable_plugin_has_a_warning_text() {
    let error =
        LoadError::Unloadable { plugin: "p".to_string(), reason: "symbol missing".to_string() };
    assert_eq!(error.message(), "symbol missing");
}

#[test]
fn script_failure_is_a_runtime_error_with_its_text() {
    assert_eq!(PythonScript::run_result(Ok(())), Ok(()));
    assert_eq!(
        PythonScript::run_result(Err("ValueError: x".to_string())),
        Err(RuntimeError::Failed { reason: "ValueError: x".to_string() })
    );
    assert_eq!(
        NativeUnit::run_result(Err("panicked".to_string())),
        Err(RuntimeError::Failed { reason: "panicked".to_string() })
    );
    assert_eq!(NativeUnit::run_result(Ok(())), Ok(()));
    let script = PythonScript {
        name: "p".to_string(),
        entrypoint: "/p/p/main.py".to_string(),
        search_path: "/p/p".to_string(),
    };
    assert_eq!(script.status_result(), RuntimeError::Unsupported);
}

#[test]
fn home_path_replaces_the_tilde() {
    assert_eq!(unwrap_home_path("~/.kittypaws", Some("/home/u")), "/home/u/.kittypaws");
    assert_eq!(unwrap_home_path("~", Some("/home/u")), "/home/u");
    assert_eq!(unwrap_home_path("~/a~b", Some("/h")), "/h/a/hb");
    assert_eq!(unwrap_home_path("/etc/~x", Some("/h")), "/etc/~x");
    assert_eq!(unwrap_home_path("", Some("/h")), "");
    assert_eq!(unwrap_home_path("~/.kittypaws", None), "~/.kittypaws");
    assert_eq!(unwrap_home_path("~", Some("")), "");
}

#[test]
fn plugin_path_lies_under_the_plugins_directory() {
    assert_eq!(
        get_path_to_plugin("drop", None, Some("/home/u")),
        "/home/u/.kittypaws/plugins/drop"
    );
    assert_eq!(get_path_to_plugin("drop", None, None), "~/.kittypaws/plugins/drop");
}

#[test]
fn plugin_path_follows_the_override() {
    assert_eq!(get_path_to_plugin("a", Some("/opt/paws"), None), "/opt/paws/plugins/a");
    assert_eq!(get_path_to_plugin("a", Some("/opt/paws"), Some("/home/u")), "/opt/paws/plugins/a");
    assert_eq!(get_path_to_plugin("a", Some("./.tmp"), Some("/home/u")), "./.tmp/plugins/a");
}

#[test]
fn missing_script_entry_gives_the_warning_for_main_py() {
    let files = names(&["helper.py"]);
    let error = kittypaws::python_plugin::load("x", "/p", &files).unwrap_err();
    assert_eq!(error, LoadError::NoEntryPoint { plugin: "x".to_string() });
    assert_eq!(error.message(), "No main.py found for plugin: x");
    let error = kittypaws::bash_plugin::load("x", "/p", &files).unwrap_err();
    assert_eq!(error.message(), "No main.py found for plugin: x");
    let error = load_plugin("x", "/p", &names(&[])).unwrap_err();
    assert_eq!(error.message(), "No main.py found for plugin: x");
    let unread = LoadError::Unloadable {
        plugin: "x".to_string(),
        reason: "Could not read main.py code".to_string(),
    };
    assert_eq!(unread.message(), "Could not read main.py code");
}
