use mdsummary::title::extract_title;
use mdsummary::title::find_content;

fn s(x: &str) -> String {
    x.to_string()
}

#[test]
fn find_content_finds_a_title() {
    let path = vec![s("tmp"), s("doc.md")];
    let base = vec![s("tmp")];
    let lines = vec![s(""), s(""), s("# A File")];

    let entry = find_content(&path, &base, &s("# "), false, Some(&lines));

    assert_eq!(entry.is_none(), false);

    if let Some(ref entry) = entry {
        assert_eq!(entry.title, "A File".to_string());
    }
}

#[test]
fn find_content_returns_no_title_if_none_found() {
    let path = vec![s("tmp"), s("doc.md")];
    let base = vec![s("tmp")];
    let lines = vec![s(""), s(""), s("")];

    let entry = find_content(&path, &base, &s("# "), false, Some(&lines));

    assert_eq!(entry.is_none(), true);
}

#[test]
fn find_content_unreadable_file_yields_no_entry() {
    let path = vec![s("tmp"), s("doc.md")];
    let base = vec![s("tmp")];

    let entry = find_content(&path, &base, &s("# "), false, None);

    assert!(entry.is_none());
}

#[test]
fn find_content_title_from_name_ignores_content() {
    let path = vec![s("tmp"), s("guide.md")];
    let base = vec![s("tmp")];
    let lines = vec![s("# Inner Title")];

    let entry = find_content(&path, &base, &s("# "), true, Some(&lines));

    let entry = entry.expect("name mode always yields an entry");
    assert_eq!(entry.title, s("guide"));
    assert_eq!(entry.path, vec![s("guide.md")]);
}

#[test]
fn find_content_pairs_title_with_relative_path() {
    let path = vec![s("tmp"), s("sub"), s("doc.md")];
    let base = vec![s("tmp")];
    let lines = vec![s("# Doc")];

    let entry = find_content(&path, &base, &s("# "), false, Some(&lines)).unwrap();

    assert_eq!(entry.path, vec![s("sub"), s("doc.md")]);
    assert_eq!(entry.title, s("Doc"));
}

#[test]
fn extract_title_takes_first_matching_line() {
    let lines = vec![s("intro text"), s("  # First  "), s("# Second")];

    let title = extract_title(&lines, &s("# "));

    assert_eq!(title, Some(s("First")));
}

#[test]
fn extract_title_returns_none_without_marker() {
    let lines = vec![s("plain"), s("## deeper"), s("text # inline")];

    let title = extract_title(&lines, &s("# "));

    assert_eq!(title, None);
}

#[test]
fn extract_title_keeps_remainder_untrimmed() {
    let lines = vec![s("#  Spaced")];

    let title = extract_title(&lines, &s("# "));

    assert_eq!(title, Some(s(" Spaced")));
}

#[test]
fn extract_title_marker_only_line_does_not_match() {
    // A line holding nothing but the marker carries no title; the next
    // matching line decides.
    let lines = vec![s("# "), s("# Real")];

    let title = extract_title(&lines, &s("# "));

    assert_eq!(title, Some(s("Real")));
}

#[test]
fn extract_title_never_yields_an_empty_title() {
    // Even with a marker that trimming leaves intact, a line equal to the
    // marker yields no entry rather than an empty title.
    let lines = vec![s("#"), s("# Real")];

    let title = extract_title(&lines, &s("#"));

    assert_eq!(title, Some(s(" Real")));
}

#[test]
fn extract_title_only_marker_lines_yield_absence() {
    let lines = vec![s("#"), s("  #  ")];

    let title = extract_title(&lines, &s("#"));

    assert_eq!(title, None);
}

#[test]
fn extract_title_trims_unicode_whitespace() {
    let lines = vec![s("\u{a0}# Title\u{3000}")];

    let title = extract_title(&lines, &s("# "));

    assert_eq!(title, Some(s("Title")));
}

#[test]
fn find_content_name_mode_drops_nameless_file() {
    let path = vec![s("tmp"), s("")];
    let base = vec![s("tmp")];

    let entry = find_content(&path, &base, &s("# "), true, None);

    assert!(entry.is_none());
}

#[test]
fn extract_title_trims_surrounding_whitespace() {
    let lines = vec![s("\t # Tabbed \t")];

    let title = extract_title(&lines, &s("# "));

    assert_eq!(title, Some(s("Tabbed")));
}
