use sitegen::builder::{
    build_pages, filter_documents, summarize_results, BuildReport, DocumentInput, PageResult,
};
use sitegen::compose::create_sidebar;
use sitegen::errors::SiteError;

fn doc(rel: &str, content: &str) -> DocumentInput {
    DocumentInput { relative_path: rel.to_string(), content: Some(content.to_string()) }
}

fn unreadable(rel: &str) -> DocumentInput {
    DocumentInput { relative_path: rel.to_string(), content: None }
}

fn page_of(result: &PageResult) -> (&String, &String) {
    match result {
        PageResult::Page(p) => (&p.output_name, &p.html),
        PageResult::Failed(_) => panic!("expected a page"),
    }
}

#[test]
fn hidden_documents_are_dropped() {
    let discovered = vec![
        ".drafts/secret.md".to_string(),
        "notes/.hidden.md".to_string(),
        "notes/ok.md".to_string(),
    ];
    assert_eq!(filter_documents(&discovered), vec!["notes/ok.md".to_string()]);
}

#[test]
fn filtering_keeps_discovery_order() {
    let discovered =
        vec!["b.md".to_string(), ".x/c.md".to_string(), "a.md".to_string(), "d.md".to_string()];
    assert_eq!(
        filter_documents(&discovered),
        vec!["b.md".to_string(), "a.md".to_string(), "d.md".to_string()]
    );
}

#[test]
fn every_page_embeds_the_same_sidebar_in_order() {
    let inputs = vec![doc("a.md", "# A"), doc("b.md", "# B"), doc("c.md", "# C")];
    let rels = vec!["a.md".to_string(), "b.md".to_string(), "c.md".to_string()];
    let sidebar = create_sidebar(&rels);
    assert_eq!(
        sidebar,
        "<div class=\"sidebar\"><ul>\
<li><a href=\"a.html\">a</a></li>\
<li><a href=\"b.html\">b</a></li>\
<li><a href=\"c.html\">c</a></li>\
</ul></div>"
    );
    let results = build_pages(&inputs);
    assert_eq!(results.len(), 3);
    for r in &results {
        let (_, html) = page_of(r);
        assert_eq!(html.matches(&sidebar).count(), 1);
    }
}

#[test]
fn rebuilding_unchanged_sources_is_byte_identical() {
    let inputs = vec![doc("a.md", "# One\n\ntext"), doc("sub/b.md", "plain")];
    let first = build_pages(&inputs);
    let second = build_pages(&inputs);
    assert_eq!(first.len(), second.len());
    for (x, y) in first.iter().zip(second.iter()) {
        let (name_x, html_x) = page_of(x);
        let (name_y, html_y) = page_of(y);
        assert_eq!(name_x, name_y);
        assert_eq!(html_x, html_y);
    }
}

#[test]
fn one_unreadable_document_leaves_the_others_whole() {
    let inputs = vec![doc("a.md", "# A"), unreadable("b.md"), doc("c.md", "# C")];
    let results = build_pages(&inputs);
    assert_eq!(results.len(), 3);
    let report = summarize_results(&results);
    assert_eq!(report.pages_written, 2);
    assert_eq!(report.errors.len(), 1);
    match &report.errors[0] {
        SiteError::Read { path } => assert_eq!(path, "b.md"),
        _ => panic!("the one failure must be the unreadable document"),
    }
    for r in [&results[0], &results[2]] {
        let (_, html) = page_of(r);
        assert!(html.starts_with("<!DOCTYPE html>"));
        assert!(html.ends_with("</div></body></html>"));
    }
    match &results[1] {
        PageResult::Failed(SiteError::Read { path }) => assert_eq!(path, "b.md"),
        _ => panic!("the unreadable document must fail with a read error"),
    }
}

#[test]
fn an_invalid_path_is_its_own_failure() {
    let inputs = vec![doc("ok.md", "x"), doc("../escape.md", "x"), doc("plain.txt", "x")];
    let results = build_pages(&inputs);
    let report = summarize_results(&results);
    assert_eq!(report.pages_written, 1);
    assert_eq!(report.errors.len(), 2);
    match &report.errors[0] {
        SiteError::InvalidPath { path } => assert_eq!(path, "../escape.md"),
        _ => panic!("a traversing path must be rejected"),
    }
    match &report.errors[1] {
        SiteError::InvalidPath { path } => assert_eq!(path, "plain.txt"),
        _ => panic!("a non-markdown path must be rejected"),
    }
}

#[test]
fn page_title_prefers_content_heading_over_file_name() {
    let inputs = vec![doc("intro.md", "# Getting Started\n\nWelcome.")];
    let results = build_pages(&inputs);
    let (name, html) = page_of(&results[0]);
    assert_eq!(name, "intro.html");
    assert!(html.contains("<title>Getting Started</title>"));
    assert!(html.contains("<h1>Getting Started</h1>"));
}

#[test]
fn page_title_falls_back_to_file_name() {
    let inputs = vec![doc("chapter-two.md", "no heading")];
    let results = build_pages(&inputs);
    let (name, html) = page_of(&results[0]);
    assert_eq!(name, "chapter-two.html");
    assert!(html.contains("<title>chapter-two</title>"));
}

#[test]
fn report_records_accumulate() {
    let mut report = BuildReport::new();
    assert_eq!(report.pages_written, 0);
    assert_eq!(report.resources_copied, 0);
    assert!(report.errors.is_empty());
    report.record_page();
    report.record_resource();
    report.record_resource();
    report.record_error(SiteError::Write { path: "a.html".to_string() });
    assert_eq!(report.pages_written, 1);
    assert_eq!(report.resources_copied, 2);
    assert_eq!(report.errors.len(), 1);
}
