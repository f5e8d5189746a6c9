use gman::display::{
    context_label, decimal_string, entry_text, header_text, match_label, no_matches_notice,
    pad_left, pager_argument, truncate, MAX_DISPLAY_WIDTH,
};
use gman::search::Match;

#[test]
fn one_over_the_limit_truncates_to_the_limit() {
    let s = "abcdefghijk";
    let t = truncate(s, 10);
    assert_eq!(t, "abcdefg...");
    assert_eq!(t.chars().count(), 10);
}

#[test]
fn at_the_limit_is_untouched() {
    assert_eq!(truncate("abcdefghij", 10), "abcdefghij");
    assert_eq!(truncate("", 3), "");
}

#[test]
fn truncation_counts_characters_not_bytes() {
    let s = "ééééé";
    assert_eq!(truncate(s, 5), s);
    assert_eq!(truncate("éééééé", 5), "éé...");
}

#[test]
fn long_line_at_display_width() {
    let s = "x".repeat(250);
    let t = truncate(&s, MAX_DISPLAY_WIDTH);
    assert_eq!(t.chars().count(), 100);
    assert!(t.ends_with("..."));
}

#[test]
fn decimal_forms() {
    assert_eq!(decimal_string(0), "0");
    assert_eq!(decimal_string(7), "7");
    assert_eq!(decimal_string(1204), "1204");
    assert_eq!(decimal_string(usize::MAX), usize::MAX.to_string());
}

#[test]
fn padding_right_aligns() {
    assert_eq!(pad_left("12", 4), "  12");
    assert_eq!(pad_left("12345", 4), "12345");
}

#[test]
fn labels_pad_line_numbers() {
    assert_eq!(context_label(9), "     9 ");
    assert_eq!(match_label(10), "\u{25b6}   10 ");
    assert_eq!(match_label(12345), "\u{25b6} 12345 ");
}

#[test]
fn header_names_count_term_and_program() {
    assert_eq!(
        header_text(2, "beta", "ls"),
        "Found 2 matches for 'beta' in 'ls' man page"
    );
}

#[test]
fn notice_only_when_nothing_found() {
    assert_eq!(
        no_matches_notice(0, "zzz", "ls"),
        Some("No matches found for 'zzz' in man page for 'ls'".to_string())
    );
    assert_eq!(no_matches_notice(3, "zzz", "ls"), None);
}

#[test]
fn pager_argument_opens_at_line() {
    assert_eq!(pager_argument(42), "less +42G");
}

#[test]
fn entry_shows_context_and_match() {
    let m = Match {
        line_number: 3,
        content: "gamma beta".to_string(),
        context_before: Some("Beta".to_string()),
    };
    let e = entry_text(&m, 8);
    assert_eq!(e.context, Some(("     2 ".to_string(), "Beta".to_string())));
    assert_eq!(e.matched, ("\u{25b6}    3 ".to_string(), "gamma...".to_string()));
    let first = Match { line_number: 1, content: "a".to_string(), context_before: None };
    assert_eq!(entry_text(&first, 100).context, None);
}
