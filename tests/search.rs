use rusty_search::search::{build_search_query, search_statement_for, QueryError};
use rusty_search::snippet::extract_snippet;

#[test]
fn unmarked_highlight_is_unchanged() {
    assert_eq!(extract_snippet("plain text without markers"), "plain text without markers");
    assert_eq!(extract_snippet(""), "");
    assert_eq!(extract_snippet("only <b>open"), "only <b>open");
    assert_eq!(extract_snippet("close</b> before <b>open"), "close</b> before <b>open");
}

#[test]
fn short_highlight_is_stripped() {
    assert_eq!(extract_snippet("an <b>example</b> page"), "an example page");
}

#[test]
fn long_highlight_is_windowed() {
    let before = "0123456789".repeat(5);
    let after = "abcdefghij".repeat(5);
    let h = format!("{}<b>hit</b>{}", before, after);
    // 30 characters before the opening marker and 30 after the closing one.
    let expected = format!("{}hit{}", &before[20..], &after[..30]);
    assert_eq!(extract_snippet(&h), expected);
}

#[test]
fn snippet_never_indexes_past_the_ends() {
    assert_eq!(extract_snippet("<b>x</b>"), "x");
    assert_eq!(extract_snippet("é<b>ü</b>ß"), "éüß");
}

#[test]
fn snippet_length_is_bounded() {
    let h = format!("{}<b>{}</b>{}", "x".repeat(100), "y".repeat(10), "z".repeat(100));
    let s = extract_snippet(&h);
    assert!(s.chars().count() <= (3 + 10 + 4) + 60);
    assert!(!s.contains("<b>") && !s.contains("</b>"));
}

#[test]
fn context_after_closing_marker_is_kept() {
    let h = format!("<b></b>{}", "y".repeat(40));
    assert_eq!(extract_snippet(&h), "y".repeat(30));
}

#[test]
fn markers_formed_by_removal_are_removed_too() {
    assert_eq!(extract_snippet("<<b>b></b>"), "");
    assert_eq!(extract_snippet("a<b>x</</b>b>c"), "axc");
}

#[test]
fn query_is_case_folded() {
    let q = build_search_query("EXAMPLE").unwrap();
    assert_eq!(
        q,
        "SELECT id, url.address AS address, search::highlight('<b>', '</b>', 1, true) AS highlight, search::score(0) * 2 + search::score(1) * 1 AS score FROM pages WHERE url.address @0@ 'example' OR content @1@ 'example' ORDER BY score DESC LIMIT 10;"
    );
}

#[test]
fn quote_in_query_is_rejected() {
    assert_eq!(build_search_query("it's"), Err(QueryError::InvalidInput));
    assert_eq!(search_statement_for("a\\b"), Err(QueryError::InvalidInput));
}
