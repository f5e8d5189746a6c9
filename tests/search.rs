use gman::search::{search_lines, search_man_page, split_lines, Match};

fn hit(line_number: usize, content: &str, context_before: Option<&str>) -> Match {
    Match {
        line_number,
        content: content.to_string(),
        context_before: context_before.map(|c| c.to_string()),
    }
}

#[test]
fn case_insensitive_search_finds_both_spellings() {
    let found = search_man_page("alpha\nBeta\ngamma beta\n", "beta", false);
    assert_eq!(
        found,
        vec![hit(2, "Beta", Some("alpha")), hit(3, "gamma beta", Some("Beta"))]
    );
}

#[test]
fn case_sensitive_search_finds_exact_spelling_only() {
    let found = search_man_page("alpha\nBeta\ngamma beta\n", "beta", true);
    assert_eq!(found, vec![hit(3, "gamma beta", Some("Beta"))]);
}

#[test]
fn empty_term_matches_every_line() {
    let found = search_man_page("alpha\nBeta\ngamma beta\n", "", false);
    assert_eq!(
        found,
        vec![
            hit(1, "alpha", None),
            hit(2, "Beta", Some("alpha")),
            hit(3, "gamma beta", Some("Beta")),
        ]
    );
    assert_eq!(search_man_page("a\n\nb", "", true).len(), 3);
}

#[test]
fn empty_text_gives_no_matches() {
    assert!(search_man_page("", "x", false).is_empty());
    assert!(search_man_page("", "", true).is_empty());
}

#[test]
fn first_line_has_no_context() {
    let found = search_man_page("NAME\nls - list\n", "NAME", true);
    assert_eq!(found, vec![hit(1, "NAME", None)]);
}

#[test]
fn matches_are_ascending_and_contain_the_term() {
    let text = "xx\nab\nAB\nq\nzab\nAb";
    let found = search_man_page(text, "Ab", false);
    let numbers: Vec<usize> = found.iter().map(|m| m.line_number).collect();
    assert_eq!(numbers, vec![2, 3, 5, 6]);
    for m in &found {
        assert!(m.content.to_lowercase().contains("ab"));
        assert_eq!(m.context_before.is_some(), m.line_number > 1);
    }
}

#[test]
fn lowercasing_folds_non_ascii_letters() {
    let found = search_man_page("ÉCOLE\nautre", "école", false);
    assert_eq!(found, vec![hit(1, "ÉCOLE", None)]);
    assert!(search_man_page("ÉCOLE\nautre", "école", true).is_empty());
}

#[test]
fn term_longer_than_line_does_not_match() {
    assert!(search_man_page("ab\n", "abc", true).is_empty());
}

#[test]
fn lines_split_at_newlines_without_phantom_last_line() {
    assert_eq!(split_lines("a\nb\n"), vec!["a".to_string(), "b".to_string()]);
    assert_eq!(split_lines("a\r\nb"), vec!["a".to_string(), "b".to_string()]);
    assert_eq!(
        split_lines("\n\nc"),
        vec!["".to_string(), "".to_string(), "c".to_string()]
    );
    assert!(split_lines("").is_empty());
}

#[test]
fn search_lines_compares_keys_and_reports_lines() {
    let lines = vec!["One".to_string(), "Two".to_string()];
    let keys = vec!["one".to_string(), "two".to_string()];
    assert_eq!(
        search_lines(&lines, &keys, "tw"),
        vec![hit(2, "Two", Some("One"))]
    );
    assert!(search_lines(&lines, &keys, "T").is_empty());
}
