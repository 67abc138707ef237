use gif_relay::rewrite::{normalize_space_str, remove_all_str, rewrite};

#[test]
fn rewrite_without_matches_only_normalizes_whitespace() {
    let out = rewrite("  hello \t world  ", &Vec::new());
    assert_eq!(out, "hello world");
    let normalized = normalize_space_str("  hello \t world  ");
    assert_eq!(out, normalized);
}

#[test]
fn rewrite_on_clean_text_is_identity() {
    let out = rewrite("hello world", &Vec::new());
    assert_eq!(out, "hello world");
}

#[test]
fn rewrite_removes_every_occurrence() {
    let pats = vec!["LINK".to_string()];
    let out = rewrite("x LINK y LINK", &pats);
    assert_eq!(out, "x y");
    assert!(!out.contains("LINK"));
}

#[test]
fn rewrite_removes_reassembled_occurrences() {
    let pats = vec!["ab".to_string()];
    let out = rewrite("aabb", &pats);
    assert_eq!(out, "");
    assert!(!out.contains("ab"));
    assert_eq!(remove_all_str("aabb", "ab"), "");
}

#[test]
fn rewrite_strips_matched_link_and_collapses() {
    let pats = vec!["https://example.com/x.gif".to_string()];
    let out = rewrite("check this https://example.com/x.gif out", &pats);
    assert_eq!(out, "check this out");
}

#[test]
fn rewrite_over_strips_recurring_substrings() {
    let pats = vec!["https://e.com/a.gif".to_string()];
    let out = rewrite("see https://e.com/a.gif quoted 'https://e.com/a.gif'", &pats);
    assert_eq!(out, "see quoted ''");
}

#[test]
fn remove_all_is_greedy_left_to_right() {
    assert_eq!(remove_all_str("abcabc", "abc"), "");
    assert_eq!(remove_all_str("xabcy", "abc"), "xy");
    assert_eq!(remove_all_str("abc", "z"), "abc");
}

#[test]
fn normalize_space_trims_and_collapses() {
    assert_eq!(normalize_space_str(""), "");
    assert_eq!(normalize_space_str("   "), "");
    assert_eq!(normalize_space_str("a"), "a");
    assert_eq!(normalize_space_str(" a\r\n b\t"), "a b");
}
