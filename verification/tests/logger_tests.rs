use kittypaws::plugin_logger::{log_line_at, message_of, LineBuffer};

fn text(lines: Vec<Vec<u8>>) -> Vec<String> {
    lines.into_iter().map(|l| String::from_utf8(l).unwrap()).collect()
}

#[test]
fn complete_lines_come_out_and_the_rest_is_held_back() {
    let mut buffer = LineBuffer::new();
    assert_eq!(text(buffer.push(b"one\ntwo\nthr")), vec!["one", "two"]);
    assert_eq!(text(buffer.push(b"ee\n")), vec!["three"]);
    assert_eq!(buffer.finish(), None);
}

#[test]
fn line_is_held_back_until_its_line_feed_comes() {
    let mut buffer = LineBuffer::new();
    assert!(buffer.push(b"par").is_empty());
    assert!(buffer.push(b"").is_empty());
    assert!(buffer.push(b"tial").is_empty());
    assert_eq!(text(buffer.push(b"\n")), vec!["partial"]);
    assert!(buffer.push(b"tail").is_empty());
    assert_eq!(buffer.finish(), Some(b"tail".to_vec()));
}

#[test]
fn empty_lines_are_lines() {
    let mut buffer = LineBuffer::new();
    assert_eq!(text(buffer.push(b"\n\na\n\n")), vec!["", "", "a", ""]);
    assert_eq!(buffer.finish(), None);
}

#[test]
fn lines_do_not_depend_on_how_the_stream_is_cut() {
    let data = b"alpha\nbeta\r\n\ngamma delta\nrest";
    let mut whole = LineBuffer::new();
    let expected = whole.push(data);
    let expected_rest = whole.finish();
    for cut in 0..=data.len() {
        for cut2 in cut..=data.len() {
            let mut buffer = LineBuffer::new();
            let mut lines = buffer.push(&data[..cut]);
            lines.extend(buffer.push(&data[cut..cut2]));
            lines.extend(buffer.push(&data[cut2..]));
            assert_eq!(lines, expected);
            assert_eq!(buffer.finish(), expected_rest);
        }
    }
}

#[test]
fn two_streams_never_mix_within_a_line() {
    let mut a = LineBuffer::new();
    let mut b = LineBuffer::new();
    let mut out: Vec<String> = Vec::new();
    out.extend(text(a.push(b"aaaa")));
    out.extend(text(b.push(b"bb")));
    out.extend(text(a.push(b"aa\naa")));
    out.extend(text(b.push(b"bbbb\n")));
    out.extend(text(a.push(b"\n")));
    assert_eq!(out, vec!["aaaaaa", "bbbbbb", "aa"]);
}

#[test]
fn logged_line_is_styled_and_empty_lines_are_passed_over() {
    assert_eq!(
        log_line_at("hello", "plug", 0),
        Some("[plug]\t(1970-01-01T00:00:00)\thello".to_string())
    );
    assert_eq!(
        log_line_at("hello\r", "plug", 0),
        Some("[plug]\t(1970-01-01T00:00:00)\thello".to_string())
    );
    assert_eq!(log_line_at("", "plug", 0), None);
    assert_eq!(log_line_at("\r", "plug", 0), None);
    assert_eq!(
        log_line_at("\r\r", "plug", 0),
        Some("[plug]\t(1970-01-01T00:00:00)\t\r".to_string())
    );
}

#[test]
fn message_is_the_line_without_its_carriage_return() {
    assert_eq!(message_of("hello"), Some("hello".to_string()));
    assert_eq!(message_of("hello\r"), Some("hello".to_string()));
    assert_eq!(message_of("a\rb"), Some("a\rb".to_string()));
    assert_eq!(message_of(""), None);
    assert_eq!(message_of("\r"), None);
}
