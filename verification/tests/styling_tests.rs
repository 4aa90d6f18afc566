use kittypaws::stdout_styling::{
    color_code_of, color_line, get_datetime_format, get_datetime_format_at, get_iso_time_at,
    get_plugname_format, style_line, style_line_at, Styler, PALETTE_END, PALETTE_START,
};

#[test]
fn name_stands_in_brackets() {
    assert_eq!(get_plugname_format("deathloop"), "[deathloop]");
    assert_eq!(get_plugname_format(""), "[]");
}

#[test]
fn timestamp_has_seconds_precision_and_no_zone() {
    assert_eq!(get_iso_time_at(0), "1970-01-01T00:00:00");
    assert_eq!(get_iso_time_at(1_700_000_000), "2023-11-14T22:13:20");
    assert_eq!(get_iso_time_at(-1), "1969-12-31T23:59:59");
    assert_eq!(get_datetime_format_at(86_399), "(1970-01-01T23:59:59)");
}

#[test]
fn timestamp_out_of_range_is_empty() {
    assert_eq!(get_iso_time_at(i64::MAX), "");
    assert_eq!(get_datetime_format_at(i64::MIN), "()");
}

#[test]
fn line_is_name_time_and_message_with_tabs() {
    assert_eq!(style_line_at("a", "msg", 0), "[a]\t(1970-01-01T00:00:00)\tmsg");
    assert_eq!(style_line_at("", "", 60), "[]\t(1970-01-01T00:01:00)\t");
}

#[test]
fn line_at_the_current_time_has_the_same_shape() {
    let line = style_line("plug".to_string(), "Running...".to_string());
    assert!(line.starts_with("[plug]\t("));
    assert!(line.ends_with(")\tRunning..."));
    let stamp = &line["[plug]\t(".len()..line.len() - ")\tRunning...".len()];
    assert_eq!(stamp.len(), 19);
    assert_eq!(&stamp[4..5], "-");
    assert_eq!(&stamp[10..11], "T");
    let now = get_datetime_format();
    assert!(now.starts_with('(') && now.ends_with(')'));
    assert_eq!(now.len(), 21);
}

#[test]
fn color_wraps_a_line_in_escape_sequences() {
    assert_eq!(color_line("hello", &"38;5;69".to_string()), "\x1b[38;5;69mhello\x1b[0m");
    assert_eq!(color_line("", &"0".to_string()), "\x1b[0m\x1b[0m");
    assert_eq!(color_code_of(69), "38;5;69");
    assert_eq!(color_code_of(218), "38;5;218");
    assert_eq!(color_code_of(0), "38;5;0");
}

#[test]
fn name_gets_its_color_when_first_seen_and_keeps_it() {
    let mut styler = Styler::new();
    let a = styler.color_of("a");
    let b = styler.color_of("b");
    assert_eq!(a, PALETTE_START);
    assert_eq!(b, PALETTE_START + 1);
    assert_eq!(styler.color_of("a"), a);
    assert_eq!(styler.color_of("b"), b);
    assert_eq!(styler.color_of("c"), PALETTE_START + 2);
    assert_eq!(styler.color_of("a"), a);
}

#[test]
fn colors_stay_in_the_palette_and_start_over() {
    let mut styler = Styler::new();
    let size = (PALETTE_END - PALETTE_START) as usize;
    for k in 0..(2 * size + 3) {
        let c = styler.color_of(&format!("plugin-{}", k));
        assert!(PALETTE_START <= c && c < PALETTE_END);
        assert_eq!(c, PALETTE_START + (k % size) as u8);
    }
}

#[test]
fn styled_line_is_wrapped_in_the_plugins_color() {
    let mut styler = Styler::new();
    assert_eq!(
        styler.style_at("a", "msg", 0),
        "\x1b[38;5;69m[a]\t(1970-01-01T00:00:00)\tmsg\x1b[0m"
    );
    assert_eq!(
        styler.style_at("b", "other", 1),
        "\x1b[38;5;70m[b]\t(1970-01-01T00:00:01)\tother\x1b[0m"
    );
    assert_eq!(
        styler.style_at("a", "again", 2),
        "\x1b[38;5;69m[a]\t(1970-01-01T00:00:02)\tagain\x1b[0m"
    );
}

#[test]
fn styled_line_at_the_current_time_is_colored() {
    let mut styler = Styler::new();
    let line = styler.style("a", "msg");
    assert!(line.starts_with("\x1b[38;5;69m[a]\t("));
    assert!(line.ends_with(")\tmsg\x1b[0m"));
    let other = styler.style("b", "msg");
    assert!(other.starts_with("\x1b[38;5;70m[b]\t("));
    let again = styler.style("a", "more");
    assert!(again.starts_with("\x1b[38;5;69m[a]\t("));
}

#[test]
fn timestamp_and_styled_line_hold_no_line_feed() {
    for secs in [0, -1, 1_700_000_000, 253_402_300_800, -62_167_219_201, i64::MAX, i64::MIN] {
        assert!(!get_iso_time_at(secs).contains('\n'));
        assert!(!get_datetime_format_at(secs).contains('\n'));
        assert!(!style_line_at("plug", "one line", secs).contains('\n'));
        let mut styler = Styler::new();
        assert!(!styler.style_at("plug", "one line", secs).contains('\n'));
    }
    assert_eq!(get_iso_time_at(253_402_300_800), "+10000-01-01T00:00:00");
    assert!(!style_line("plug".to_string(), "one line".to_string()).contains('\n'));
    assert!(style_line_at("plug", "two\nlines", 0).contains('\n'));
}
