use sitegen::errors::SiteError;
use sitegen::paths::{
    contains_parent_traversal, file_name, has_md_extension, html_file_name, is_hidden,
    output_path_for, title_from_path,
};

#[test]
fn hidden_detects_leading_dot_directory() {
    assert!(is_hidden(".drafts/secret.md"));
}

#[test]
fn hidden_detects_dot_file_in_subdirectory() {
    assert!(is_hidden("notes/.hidden.md"));
}

#[test]
fn hidden_rejects_plain_paths() {
    assert!(!is_hidden("notes/visible.md"));
    assert!(!is_hidden("guide.md"));
}

#[test]
fn hidden_ignores_interior_dots() {
    assert!(!is_hidden("notes/file.v2.md"));
}

#[test]
fn file_name_takes_last_segment() {
    assert_eq!(file_name("a/b/c.md"), "c.md");
    assert_eq!(file_name("c.md"), "c.md");
    assert_eq!(file_name("a/b/"), "");
}

#[test]
fn title_from_path_strips_directories_and_extension() {
    assert_eq!(title_from_path("docs/chapter-two.md"), "chapter-two");
    assert_eq!(title_from_path("intro.md"), "intro");
}

#[test]
fn title_from_path_keeps_non_markdown_names() {
    assert_eq!(title_from_path("style.css"), "style.css");
}

#[test]
fn html_file_name_is_flat() {
    assert_eq!(html_file_name("docs/guide.md"), "guide.html");
}

#[test]
fn md_extension_is_case_sensitive() {
    assert!(has_md_extension("a.md"));
    assert!(!has_md_extension("a.MD"));
    assert!(!has_md_extension("amd"));
}

#[test]
fn output_path_accepts_documents() {
    assert_eq!(output_path_for("docs/guide.md").unwrap(), "guide.html");
}

#[test]
fn output_path_rejects_wrong_extension() {
    match output_path_for("notes.txt") {
        Err(SiteError::InvalidPath { path }) => assert_eq!(path, "notes.txt"),
        _ => panic!("a non-markdown path must be rejected"),
    }
}

#[test]
fn output_path_rejects_parent_traversal() {
    match output_path_for("../evil.md") {
        Err(SiteError::InvalidPath { path }) => assert_eq!(path, "../evil.md"),
        _ => panic!("a traversing path must be rejected"),
    }
    assert!(output_path_for("docs/../evil.md").is_err());
}

#[test]
fn traversal_needs_a_whole_segment() {
    assert!(contains_parent_traversal(".."));
    assert!(contains_parent_traversal("a/../b.md"));
    assert!(!contains_parent_traversal("a..b/c.md"));
    assert!(!contains_parent_traversal("a/..b/c.md"));
}
