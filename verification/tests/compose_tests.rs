use sitegen::compose::{compose_page, create_footer, create_header, create_sidebar};

#[test]
fn footer_is_fixed() {
    assert_eq!(create_footer(), "</div></body></html>");
}

#[test]
fn header_carries_title_twice() {
    let h = create_header("Getting Started");
    assert_eq!(
        h,
        "<!DOCTYPE html><html><head><title>Getting Started</title>\
<link rel=\"stylesheet\" href=\"style.css\"></head><body>\
<div class=\"header\"><h1>Getting Started</h1></div><div class=\"container\">"
    );
}

#[test]
fn sidebar_lists_documents_in_order() {
    let docs = vec!["a.md".to_string(), "guides/b.md".to_string(), "c.md".to_string()];
    let sidebar = create_sidebar(&docs);
    assert_eq!(
        sidebar,
        "<div class=\"sidebar\"><ul>\
         <li><a href=\"a.html\">a</a></li>\
         <li><a href=\"b.html\">b</a></li>\
         <li><a href=\"c.html\">c</a></li>\
         </ul></div>"
    );
}

#[test]
fn sidebar_of_no_documents_is_empty_list() {
    let docs: Vec<String> = Vec::new();
    assert_eq!(create_sidebar(&docs), "<div class=\"sidebar\"><ul></ul></div>");
}

#[test]
fn page_concatenates_in_order() {
    let page = compose_page("T", "SIDEBAR", "CONTENT");
    let expected = format!("{}{}{}{}", create_header("T"), "SIDEBAR", "CONTENT", create_footer());
    assert_eq!(page, expected);
}
