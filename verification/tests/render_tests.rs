use sitegen::render::{find_title, render_document};

#[test]
fn find_title_reads_first_heading() {
    assert_eq!(find_title("<h1>Getting Started</h1>"), Some("Getting Started".to_string()));
}

#[test]
fn find_title_trims_inner_text() {
    assert_eq!(find_title("<h1>\n  Getting Started  \n</h1>"), Some("Getting Started".to_string()));
}

#[test]
fn find_title_accepts_attributes() {
    assert_eq!(find_title("<p>x</p><h1 class=\"big\">Intro</h1>"), Some("Intro".to_string()));
}

#[test]
fn find_title_takes_the_first_of_several() {
    assert_eq!(find_title("<h1>A</h1><h1>B</h1>"), Some("A".to_string()));
}

#[test]
fn find_title_ignores_lower_headings() {
    assert_eq!(find_title("<h2>Not me</h2>"), None);
    assert_eq!(find_title("<p>plain</p>"), None);
}

#[test]
fn find_title_survives_unterminated_tag() {
    assert_eq!(find_title("<h1</h1>"), None);
}

#[test]
fn find_title_of_empty_heading_is_empty() {
    assert_eq!(find_title("<h1></h1>"), Some(String::new()));
}

#[test]
fn render_prefers_content_title() {
    let page = render_document("intro.md", "# Getting Started\n\nWelcome.");
    assert_eq!(page.title, "Getting Started");
    assert!(page.html.starts_with("<div class=\"main-content\">"));
    assert!(page.html.ends_with("</div>"));
    assert!(page.html.contains("Welcome."));
}

#[test]
fn render_falls_back_to_file_name_title() {
    let page = render_document("docs/chapter-two.md", "No heading at all.");
    assert_eq!(page.title, "chapter-two");
}
