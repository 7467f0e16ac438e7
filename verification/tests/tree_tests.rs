use mdsummary::entry::Document;
use mdsummary::entry::SummaryEntry;
use mdsummary::tree::collect_flat;
use mdsummary::tree::handle_dir;

fn s(x: &str) -> String {
    x.to_string()
}

fn doc(path: &[&str], lines: Option<&[&str]>) -> Document {
    Document {
        path: path.iter().map(|p| s(p)).collect(),
        lines: lines.map(|ls| ls.iter().map(|l| s(l)).collect()),
    }
}

#[test]
fn handle_dir_synthesizes_one_index_entry() {
    let dir = vec![s("src"), s("guide")];
    let base = vec![s("src")];
    let docs = vec![doc(&["src", "guide", "page.md"], Some(&["# Page"]))];
    let mut entries: Vec<SummaryEntry> = Vec::new();

    handle_dir(&dir, &base, &s("# "), false, &docs, false, &mut entries);

    assert_eq!(entries.len(), 2);
    assert_eq!(entries[0].path, vec![s("guide"), s("page.md")]);
    assert_eq!(entries[0].title, s("Page"));
    assert_eq!(entries[1].path, vec![s("guide"), s("README.md")]);
    assert_eq!(entries[1].title, s("guide"));
}

#[test]
fn handle_dir_with_index_synthesizes_nothing() {
    let dir = vec![s("src"), s("guide")];
    let base = vec![s("src")];
    let docs = vec![doc(&["src", "guide", "page.md"], Some(&["# Page"]))];
    let mut entries: Vec<SummaryEntry> = Vec::new();

    handle_dir(&dir, &base, &s("# "), false, &docs, true, &mut entries);

    assert_eq!(entries.len(), 1);
    assert_eq!(entries[0].path, vec![s("guide"), s("page.md")]);
}

#[test]
fn handle_dir_on_the_root_synthesizes_empty_title() {
    let dir = vec![s("src")];
    let base = vec![s("src")];
    let docs: Vec<Document> = Vec::new();
    let mut entries: Vec<SummaryEntry> = Vec::new();

    handle_dir(&dir, &base, &s("# "), false, &docs, false, &mut entries);

    assert_eq!(entries.len(), 1);
    assert_eq!(entries[0].path, vec![s("README.md")]);
    assert_eq!(entries[0].title, s(""));
}

#[test]
fn handle_dir_skips_documents_without_title() {
    let dir = vec![s("src")];
    let base = vec![s("src")];
    let docs = vec![
        doc(&["src", "silent.md"], Some(&["no marker here"])),
        doc(&["src", "loud.md"], Some(&["# Loud"])),
        doc(&["src", "broken.md"], None),
    ];
    let mut entries: Vec<SummaryEntry> = Vec::new();

    handle_dir(&dir, &base, &s("# "), false, &docs, true, &mut entries);

    assert_eq!(entries.len(), 1);
    assert_eq!(entries[0].title, s("Loud"));
}

#[test]
fn collect_flat_never_synthesizes() {
    let base = vec![s("src")];
    let docs = vec![
        doc(&["src", "guide", "page.md"], Some(&["# Page"])),
        doc(&["src", "top.md"], Some(&["# Top"])),
    ];

    let entries = collect_flat(&base, &s("# "), false, &docs);

    assert_eq!(entries.len(), 2);
    assert_eq!(entries[0].path, vec![s("guide"), s("page.md")]);
    assert_eq!(entries[1].path, vec![s("top.md")]);
    assert!(entries.iter().all(|e| e.title != s("guide")));
}

#[test]
fn collect_flat_name_mode_uses_file_names() {
    let base = vec![s("src")];
    let docs = vec![doc(&["src", "guide", "README.md"], None)];

    let entries = collect_flat(&base, &s("# "), true, &docs);

    assert_eq!(entries.len(), 1);
    assert_eq!(entries[0].title, s("guide"));
    assert_eq!(entries[0].path, vec![s("guide"), s("README.md")]);
}
