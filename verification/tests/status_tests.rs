use kittypaws::bash_plugin::{load, parse_status, read_value, split_key_value, BashCommand};
use kittypaws::dict::Dict;
use kittypaws::plug::{failure_message, LoadError, PluginStatusValue, RuntimeError};

fn value_of(fields: &Dict<PluginStatusValue>, key: &str) -> Option<PluginStatusValue> {
    fields.get(&key.to_string()).cloned()
}

fn keys(fields: &Dict<PluginStatusValue>) -> Vec<String> {
    (0..fields.len()).map(|i| fields.key_at(i).clone()).collect()
}

#[test]
fn status_output_gives_typed_values() {
    let fields = parse_status("cpu=42\nname=foo\nratio=0.5\n");
    assert_eq!(fields.len(), 3);
    assert_eq!(value_of(&fields, "cpu"), Some(PluginStatusValue::Int(42)));
    assert_eq!(value_of(&fields, "name"), Some(PluginStatusValue::String("foo".to_string())));
    assert_eq!(value_of(&fields, "ratio"), Some(PluginStatusValue::Float("0.5".to_string())));
    match value_of(&fields, "ratio") {
        Some(PluginStatusValue::Float(text)) => assert_eq!(text.parse::<f64>().unwrap(), 0.5),
        other => panic!("expected a float, got {:?}", other),
    }
    assert_eq!(keys(&fields), vec!["cpu", "name", "ratio"]);
}

#[test]
fn status_line_without_equals_sign_is_dropped() {
    let fields = parse_status("cpu=42\nthis line has no pair\n\nname=foo\n");
    assert_eq!(keys(&fields), vec!["cpu", "name"]);
    assert_eq!(parse_status("no pairs at all").len(), 0);
    assert_eq!(parse_status("").len(), 0);
    assert_eq!(parse_status("\n\n\n").len(), 0);
}

#[test]
fn status_last_line_needs_no_line_feed() {
    let fields = parse_status("a=1\nb=2");
    assert_eq!(value_of(&fields, "a"), Some(PluginStatusValue::Int(1)));
    assert_eq!(value_of(&fields, "b"), Some(PluginStatusValue::Int(2)));
}

#[test]
fn status_line_ends_before_carriage_return_and_line_feed() {
    let fields = parse_status("a=1\r\nb=text\r\nc=3\r");
    assert_eq!(value_of(&fields, "a"), Some(PluginStatusValue::Int(1)));
    assert_eq!(value_of(&fields, "b"), Some(PluginStatusValue::String("text".to_string())));
    // A carriage return that no line feed follows belongs to the value.
    assert_eq!(value_of(&fields, "c"), Some(PluginStatusValue::String("3\r".to_string())));
}

#[test]
fn status_later_line_replaces_earlier_value() {
    let fields = parse_status("a=1\nb=2\na=three\n");
    assert_eq!(keys(&fields), vec!["a", "b"]);
    assert_eq!(value_of(&fields, "a"), Some(PluginStatusValue::String("three".to_string())));
}

#[test]
fn status_value_starts_after_the_first_equals_sign() {
    assert_eq!(
        split_key_value("expr=a=b"),
        Some(("expr".to_string(), "a=b".to_string()))
    );
    assert_eq!(split_key_value("=v"), Some(("".to_string(), "v".to_string())));
    assert_eq!(split_key_value("k="), Some(("k".to_string(), "".to_string())));
    assert_eq!(split_key_value("kv"), None);
    let fields = parse_status("k=\n=v\n");
    assert_eq!(value_of(&fields, "k"), Some(PluginStatusValue::String("".to_string())));
    assert_eq!(value_of(&fields, ""), Some(PluginStatusValue::String("v".to_string())));
}

#[test]
fn status_values_are_integer_then_float_then_text() {
    assert_eq!(read_value("42"), PluginStatusValue::Int(42));
    assert_eq!(read_value("-7"), PluginStatusValue::Int(-7));
    assert_eq!(read_value("+7"), PluginStatusValue::Int(7));
    assert_eq!(read_value("9223372036854775807"), PluginStatusValue::Int(i64::MAX));
    assert_eq!(
        read_value("9223372036854775808"),
        PluginStatusValue::Float("9223372036854775808".to_string())
    );
    assert_eq!(read_value("1e3"), PluginStatusValue::Float("1e3".to_string()));
    assert_eq!(read_value(".5"), PluginStatusValue::Float(".5".to_string()));
    assert_eq!(read_value("nan"), PluginStatusValue::Float("nan".to_string()));
    assert_eq!(read_value(" 42"), PluginStatusValue::String(" 42".to_string()));
    assert_eq!(read_value("4 2"), PluginStatusValue::String("4 2".to_string()));
    assert_eq!(read_value(""), PluginStatusValue::String("".to_string()));
    assert_eq!(read_value("ünï"), PluginStatusValue::String("ünï".to_string()));
}

#[test]
fn run_with_exit_code_zero_succeeds() {
    assert_eq!(BashCommand::run_result(Some(0), "out", "err"), Ok(()));
    assert_eq!(BashCommand::run_result(Some(0), "", ""), Ok(()));
}

#[test]
fn run_with_exit_code_three_fails_with_the_code_in_the_message() {
    let error = BashCommand::run_result(Some(3), "written\n", "warned\n").unwrap_err();
    assert_eq!(
        error,
        RuntimeError::Exit { code: 3, output: "warned\nwritten\n".to_string() }
    );
    assert_eq!(error.message(), "exit code 3: warned\nwritten\n");
    assert!(error.message().contains("3"));
    let negative = BashCommand::run_result(Some(-1), "", "").unwrap_err();
    assert_eq!(negative.message(), "exit code -1: ");
}

#[test]
fn run_ended_by_a_signal_fails() {
    let error = BashCommand::run_result(None, "o", "e").unwrap_err();
    assert_eq!(error, RuntimeError::Signal { output: "eo".to_string() });
    assert_eq!(error.message(), "terminated by a signal: eo");
}

#[test]
fn status_result_reads_output_only_after_exit_code_zero() {
    let fields = BashCommand::status_result(Some(0), "cpu=1\n", "noise").unwrap();
    assert_eq!(value_of(&fields, "cpu"), Some(PluginStatusValue::Int(1)));
    let error = BashCommand::status_result(Some(2), "cpu=1\n", "bad").unwrap_err();
    assert_eq!(error, RuntimeError::Exit { code: 2, output: "badcpu=1\n".to_string() });
}

#[test]
fn status_without_status_script_is_unsupported() {
    let files = vec!["run.sh".to_string()];
    let command = load("p", "/plugins", &files).unwrap();
    assert_eq!(command.status_script(), Err(RuntimeError::Unsupported));
    assert_eq!(
        RuntimeError::Unsupported.message(),
        "status checks are not supported by this plugin"
    );
    let files = vec!["status.sh".to_string(), "run.sh".to_string()];
    let command = load("p", "/plugins", &files).unwrap();
    assert_eq!(command.status_script(), Ok(&"/plugins/p/status.sh".to_string()));
}

#[test]
fn bash_load_needs_the_run_script() {
    let files = vec!["status.sh".to_string(), "main.py".to_string()];
    assert_eq!(
        load("p", "/plugins", &files),
        Err(LoadError::NoEntryPoint { plugin: "p".to_string() })
    );
    let files = vec!["run.sh".to_string(), "status.sh".to_string()];
    assert_eq!(
        load("p", "/plugins", &files),
        Ok(BashCommand {
            name: "p".to_string(),
            executable: "/plugins/p/run.sh".to_string(),
            status_checker: Some("/plugins/p/status.sh".to_string()),
        })
    );
}

#[test]
fn failure_message_names_the_plugin_and_the_reason() {
    let error = RuntimeError::Failed { reason: "boom".to_string() };
    assert_eq!(failure_message("deathloop", &error), "Error while running plugin deathloop: boom");
    let exit = RuntimeError::Exit { code: 3, output: "x".to_string() };
    assert_eq!(failure_message("p", &exit), "Error while running plugin p: exit code 3: x");
}
