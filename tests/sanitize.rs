use gman::page::{page_text, PageError};
use gman::sanitize::{remove_control_chars, strip_control_chars};

#[test]
fn overstrike_bold_becomes_single_characters() {
    assert_eq!(strip_control_chars("N\x08NA\x08AM\x08ME\x08E"), "NAME");
}

#[test]
fn overstrike_underline_is_removed() {
    assert_eq!(strip_control_chars("_\x08f_\x08o_\x08o bar"), "foo bar");
}

#[test]
fn control_characters_go_newlines_and_tabs_stay() {
    assert_eq!(strip_control_chars("a\x07b\tc\r\nd\x1b[1m\u{85}"), "ab\tc\nd[1m");
}

#[test]
fn empty_input_stays_empty() {
    assert_eq!(strip_control_chars(""), "");
}

#[test]
fn newline_before_backspace_is_kept() {
    assert_eq!(strip_control_chars("a\n\x08b"), "a\nb");
}

#[test]
fn line_count_is_preserved() {
    let raw = "x\x08x\n\x07\n_\x08y\x1b\n\n";
    let clean = strip_control_chars(raw);
    assert_eq!(clean.matches('\n').count(), raw.matches('\n').count());
    assert_eq!(clean, "x\n\ny\n\n");
}

#[test]
fn cleaning_twice_changes_nothing() {
    let raw = "ab\x08\x08c\x08\x08\x08d";
    let once = strip_control_chars(raw);
    assert!(!once.contains('\x08'));
    assert_eq!(strip_control_chars(&once), once);
}

#[test]
fn remove_control_chars_keeps_printable() {
    assert_eq!(remove_control_chars("\x00a\u{7f}b\u{9f}c\u{a0}"), "abc\u{a0}");
}

#[test]
fn failed_render_is_a_render_error() {
    let r = page_text(false, "", "doesnotexist");
    assert_eq!(r, Err(PageError::Render("doesnotexist".to_string())));
    assert_eq!(
        r.unwrap_err().message(),
        "Failed to get man page for 'doesnotexist'"
    );
}

#[test]
fn successful_render_is_cleaned() {
    assert_eq!(page_text(true, "L\x08LS\x08S\n", "ls"), Ok("LS\n".to_string()));
}

#[test]
fn launch_and_terminal_messages_pass_through() {
    assert_eq!(PageError::Launch("no man".to_string()).message(), "no man");
    assert_eq!(PageError::Terminal("tty".to_string()).message(), "tty");
}
