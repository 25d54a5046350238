use nix_sandbox_mcp_daemon::output::{format_result, truncate_output, MAX_OUTPUT_SIZE};

const MARKER: &str = "\n\n[truncated — output exceeded 1MB]";

#[test]
fn truncate_leaves_short_strings_alone() {
    assert_eq!(truncate_output("hello", 10), "hello");
    assert_eq!(truncate_output("", 10), "");
    assert_eq!(truncate_output("exact", 5), "exact");
}

#[test]
fn truncate_cuts_and_appends_marker_once() {
    let long = "abcdefghijKLMNOP";
    let out = truncate_output(long, 10);
    assert_eq!(out, format!("abcdefghij{MARKER}"));
    assert_eq!(out.matches(MARKER).count(), 1);
}

#[test]
fn truncate_backs_off_to_a_character_boundary() {
    // Five two-byte characters; a limit of 5 falls inside the third one.
    let s = "ééééé";
    let out = truncate_output(s, 5);
    assert_eq!(out, format!("éé{MARKER}"));
    assert!(out.is_char_boundary(4));
}

#[test]
fn truncate_at_the_real_ceiling() {
    let s = "x".repeat(MAX_OUTPUT_SIZE + 100);
    let out = truncate_output(&s, MAX_OUTPUT_SIZE);
    assert_eq!(out.len(), MAX_OUTPUT_SIZE + MARKER.len());
    assert!(out.ends_with(MARKER));
    assert_eq!(out.matches(MARKER).count(), 1);
}

#[test]
fn format_keeps_single_stream_verbatim() {
    let r = format_result(0, "out\n".to_string(), String::new());
    assert_eq!(r.text, "out\n");
    assert!(!r.is_error);

    let r = format_result(0, String::new(), "err\n".to_string());
    assert_eq!(r.text, "err\n");
    assert!(!r.is_error);
}

#[test]
fn format_joins_both_streams_with_divider() {
    let r = format_result(0, "out".to_string(), "err".to_string());
    assert_eq!(r.text, "out\n--- stderr ---\nerr");
}

#[test]
fn format_empty_streams_give_empty_text() {
    let r = format_result(0, String::new(), String::new());
    assert_eq!(r.text, "");
    assert!(!r.is_error);
}

#[test]
fn format_marks_nonzero_exit_as_error() {
    assert!(format_result(1, "x".to_string(), String::new()).is_error);
    assert!(format_result(-1, String::new(), String::new()).is_error);
    assert!(!format_result(0, "x".to_string(), String::new()).is_error);
}

#[test]
fn format_truncates_oversized_output() {
    let big = "y".repeat(MAX_OUTPUT_SIZE + 1);
    let r = format_result(0, big, String::new());
    assert_eq!(r.text.len(), MAX_OUTPUT_SIZE + MARKER.len());
    assert!(r.text.ends_with(MARKER));
    assert_eq!(r.text.matches(MARKER).count(), 1);
}
