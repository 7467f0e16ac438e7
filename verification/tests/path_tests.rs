use mdsummary::entry::NotABasePathError;
use mdsummary::path_math::relative_path;
use mdsummary::path_math::title_from_filename;

fn s(x: &str) -> String {
    x.to_string()
}

#[test]
fn relative_path_strips_a_valid_prefix() {
    let path = vec![s("src"), s("guide"), s("page.md")];
    let base = vec![s("src")];

    let rel = relative_path(&path, &base);

    assert_eq!(rel, Ok(vec![s("guide"), s("page.md")]));
}

#[test]
fn relative_path_of_the_base_itself_is_empty() {
    let base = vec![s("src")];

    let rel = relative_path(&base, &base);

    assert_eq!(rel, Ok(Vec::new()));
}

#[test]
fn relative_path_rejects_a_non_prefix_base() {
    let path = vec![s("src"), s("page.md")];
    let base = vec![s("docs")];

    let rel = relative_path(&path, &base);

    assert_eq!(rel, Err(NotABasePathError));
}

#[test]
fn relative_path_rejects_a_longer_base() {
    let path = vec![s("src")];
    let base = vec![s("src"), s("guide")];

    assert!(relative_path(&path, &base).is_err());
}

#[test]
fn title_from_filename_uses_the_stem() {
    let path = vec![s("src"), s("page.md")];

    assert_eq!(title_from_filename(&path), s("page"));
}

#[test]
fn title_from_filename_readme_takes_directory_name() {
    let path = vec![s("src"), s("guide"), s("README.md")];

    assert_eq!(title_from_filename(&path), s("guide"));
}

#[test]
fn title_from_filename_keeps_dotless_name() {
    let path = vec![s("src"), s("notes")];

    assert_eq!(title_from_filename(&path), s("notes"));
}

#[test]
fn title_from_filename_keeps_leading_dot_name() {
    let path = vec![s("src"), s(".hidden")];

    assert_eq!(title_from_filename(&path), s(".hidden"));
}
