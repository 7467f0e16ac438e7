use mdsummary::entry::Config;
use mdsummary::entry::DirListing;
use mdsummary::entry::Document;
use mdsummary::entry::SummaryEntry;
use mdsummary::render::render_summary;
use mdsummary::render::sort_entries;
use mdsummary::render::summary_line;
use mdsummary::render::summary_lines_flat;
use mdsummary::render::summary_lines_tree;

const HEADER: &str = "# https://github.com/rust-lang-nursery/mdBook/issues/677";

fn s(x: &str) -> String {
    x.to_string()
}

fn entry(path: &[&str], title: &str) -> SummaryEntry {
    SummaryEntry { path: path.iter().map(|p| s(p)).collect(), title: s(title) }
}

fn doc(path: &[&str], lines: Option<&[&str]>) -> Document {
    Document {
        path: path.iter().map(|p| s(p)).collect(),
        lines: lines.map(|ls| ls.iter().map(|l| s(l)).collect()),
    }
}

fn config(base: &[&str], title_from_name: bool, create_readmes: bool) -> Config {
    Config {
        base_path: base.iter().map(|p| s(p)).collect(),
        verbose: false,
        trim_str: s("# "),
        title_from_name,
        create_readmes,
    }
}

#[test]
fn summary_line_top_level_has_no_indent() {
    let e = entry(&["README.md"], "Intro");

    assert_eq!(summary_line(&e), s("- [Intro](README.md)"));
}

#[test]
fn summary_line_indents_by_path_depth() {
    let e = entry(&["a", "b", "c.md"], "T");

    assert_eq!(summary_line(&e), s("        - [T](a/b/c.md)"));
}

#[test]
fn sort_orders_by_path_components() {
    let entries = vec![
        entry(&["b", "README.md"], "B"),
        entry(&["a", "README.md"], "A"),
        entry(&["a", "x.md"], "X"),
    ];

    let lines = render_summary(&entries);

    let expected = vec![
        s(HEADER),
        s("    - [A](a/README.md)"),
        s("    - [X](a/x.md)"),
        s("    - [B](b/README.md)"),
    ];
    assert_eq!(lines, expected);
}

#[test]
fn sort_breaks_path_ties_by_title() {
    let entries = vec![entry(&["README.md"], "Zed"), entry(&["README.md"], "Alpha")];

    let sorted = sort_entries(&entries);

    assert_eq!(sorted[0].title, s("Alpha"));
    assert_eq!(sorted[1].title, s("Zed"));
}

#[test]
fn sort_entries_is_a_permutation() {
    let entries = vec![
        entry(&["z.md"], "Z"),
        entry(&["a.md"], "A"),
        entry(&["m.md"], "M"),
    ];

    let sorted = sort_entries(&entries);

    assert_eq!(sorted.len(), 3);
    for e in &entries {
        assert!(sorted.iter().any(|x| x.path == e.path && x.title == e.title));
    }
}

#[test]
fn tree_mode_end_to_end() {
    let base = &["src"];
    let dirs = vec![
        DirListing {
            path: vec![s("src")],
            docs: vec![doc(&["src", "README.md"], Some(&["# Intro"]))],
            has_readme: true,
        },
        DirListing {
            path: vec![s("src"), s("guide")],
            docs: vec![doc(&["src", "guide", "page.md"], Some(&["# Page"]))],
            has_readme: false,
        },
    ];

    let lines = summary_lines_tree(&config(base, false, true), &dirs);

    let expected = vec![
        s(HEADER),
        s("- [Intro](README.md)"),
        s("- [README](README.md)"),
        s("    - [guide](guide/README.md)"),
        s("    - [Page](guide/page.md)"),
    ];
    assert_eq!(lines, expected);
}

#[test]
fn tree_mode_runs_identically_twice() {
    let base = &["src"];
    let dirs = vec![DirListing {
        path: vec![s("src"), s("guide")],
        docs: vec![doc(&["src", "guide", "page.md"], Some(&["# Page"]))],
        has_readme: false,
    }];

    let first = summary_lines_tree(&config(base, false, true), &dirs);
    let second = summary_lines_tree(&config(base, false, true), &dirs);

    assert_eq!(first, second);
}

#[test]
fn flat_mode_renders_without_synthesis() {
    let base = &["src"];
    let docs = vec![
        doc(&["src", "guide", "page.md"], Some(&["# Page"])),
        doc(&["src", "top.md"], Some(&["# Top"])),
    ];

    let lines = summary_lines_flat(&config(base, false, false), &docs);

    let expected = vec![
        s(HEADER),
        s("    - [Page](guide/page.md)"),
        s("- [Top](top.md)"),
    ];
    assert_eq!(lines, expected);
}
