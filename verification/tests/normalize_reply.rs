//! Normalization of raw reply text.

use terminator::normalize::{
    fold_lines, normalize_reply, process_newlines, replace_all, strip_quotes, touch_up,
};

fn b(s: &str) -> Vec<u8> {
    s.as_bytes().to_vec()
}

fn s(v: Vec<u8>) -> String {
    String::from_utf8(v).unwrap()
}

#[test]
fn single_backslash_n_becomes_a_line_break() {
    // the input holds: line1 \ n line2
    let out = process_newlines(&b("line1\\nline2"));
    assert_eq!(s(out), "line1\nline2");
}

#[test]
fn escaped_backslash_n_stays_literal() {
    // the input holds: line1 \ \ n line2
    let out = process_newlines(&b("line1\\\\nline2"));
    assert_eq!(s(out), "line1\\nline2");
}

#[test]
fn both_newline_rules_hold_on_mixed_input() {
    // the input holds: a \ n b \ \ n c \ n d
    let out = process_newlines(&b("a\\nb\\\\nc\\nd"));
    assert_eq!(s(out), "a\nb\\nc\nd");
}

#[test]
fn replace_all_is_left_to_right_without_rescanning() {
    let out = replace_all(&b("aaa"), &b("aa"), &b("a"));
    assert_eq!(s(out), "aa");
    let out2 = replace_all(&b("::"), &b(":"), &b(": "));
    assert_eq!(s(out2), ": : ");
}

#[test]
fn strip_quotes_removes_only_outer_quotes() {
    assert_eq!(s(strip_quotes(&b("\"hi\""))), "hi");
    assert_eq!(s(strip_quotes(&b("\"\"a\"\""))), "a");
    assert_eq!(s(strip_quotes(&b("plain"))), "plain");
    assert_eq!(s(strip_quotes(&b("say \"hi\" now"))), "say \"hi\" now");
}

#[test]
fn fold_lines_settles_line_endings() {
    assert_eq!(s(fold_lines(&b("a\r\nb"))), "a\nb\n");
    assert_eq!(s(fold_lines(&b("a\n"))), "a\n");
    assert_eq!(s(fold_lines(&b("a"))), "a\n");
    assert_eq!(s(fold_lines(&b(""))), "");
    assert_eq!(s(fold_lines(&b("a\n\n"))), "a\n\n");
}

#[test]
fn touch_up_applies_the_replacements_without_folding_lines() {
    // the input holds: A : space B \ n C space * * space D space \ " q \ "
    let out = touch_up(&b("A: B\\nC ** D \\\"q\\\""));
    assert_eq!(s(out), "A:  B\nC **D \"q\"");
    assert_eq!(s(touch_up(&b("plain"))), "plain");
}

#[test]
fn normalize_reply_applies_every_touch_up() {
    // the input holds: A : space B \ n C space * * space D space \ " q \ "
    let out = normalize_reply(&b("A: B\\nC ** D \\\"q\\\""));
    assert_eq!(s(out), "A:  B\nC **D \"q\"\n");
}

#[test]
fn normalize_reply_keeps_literal_backslash_n_on_one_line() {
    // the input holds: code \ \ n more
    let out = normalize_reply(&b("code\\\\nmore"));
    assert_eq!(s(out), "code\\nmore\n");
}
