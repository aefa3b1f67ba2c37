//! Page composition: the shared sidebar built once per run from the full
//! ordered document list, and the final page text — head, sidebar, content,
//! footer — concatenated from pure string fragments.

use vstd::prelude::*;
use crate::paths::{html_name_of, title_of_path, html_file_name, title_from_path};

verus! {

/// The document head and header block for a page with the given title: the
/// title stands both in the `<title>` element and in the header's `<h1>`.
pub open spec fn header_of(title: Seq<char>) -> Seq<char> {
    "<!DOCTYPE html><html><head><title>"@ + title
        + "</title><link rel=\"stylesheet\" href=\"style.css\"></head><body><div class=\"header\"><h1>"@
        + title + "</h1></div><div class=\"container\">"@
}

/// The closing footer of every page.
pub open spec fn footer_of() -> Seq<char> {
    "</div></body></html>"@
}

/// One sidebar entry: a link to the document's generated page, labelled with
/// its filename-derived name.
pub open spec fn sidebar_entry_of(rel: Seq<char>) -> Seq<char> {
    "<li><a href=\""@ + html_name_of(rel) + "\">"@ + title_of_path(rel) + "</a></li>"@
}

/// The sidebar entries for the given documents, one per document, in order.
pub open spec fn sidebar_entries_of(rels: Seq<Seq<char>>) -> Seq<char>
    decreases rels.len(),
{
    if rels.len() == 0 {
        Seq::empty()
    } else {
        sidebar_entries_of(rels.drop_last()) + sidebar_entry_of(rels.last())
    }
}

/// The complete sidebar markup for the given ordered document list.
pub open spec fn sidebar_of(rels: Seq<Seq<char>>) -> Seq<char> {
    "<div class=\"sidebar\"><ul>"@ + sidebar_entries_of(rels) + "</ul></div>"@
}

/// A full page: header, the shared sidebar, the rendered content, footer.
pub open spec fn composed_page_of(title: Seq<char>, sidebar: Seq<char>, content: Seq<char>) -> Seq<
    char,
> {
    header_of(title) + sidebar + content + footer_of()
}

/// Builds the page header for a title.
pub fn create_header(title: &str) -> (r: String)
    ensures
        r@ == header_of(title@),
{
    let mut h = String::from_str("<!DOCTYPE html><html><head><title>");
    h.append(title);
    h.append(
        "</title><link rel=\"stylesheet\" href=\"style.css\"></head><body><div class=\"header\"><h1>",
    );
    h.append(title);
    h.append("</h1></div><div class=\"container\">");
    h
}

/// Builds the page footer.
pub fn create_footer() -> (r: String)
    ensures
        r@ == footer_of(),
{
    String::from_str("</div></body></html>")
}

/// Builds the shared sidebar from the full document list, one entry per
/// document in discovery order.
pub fn create_sidebar(file_list: &Vec<String>) -> (r: String)
    ensures
        r@ == sidebar_of(file_list.deep_view()),
{
    let mut s = String::from_str("<div class=\"sidebar\"><ul>");
    let mut i: usize = 0;
    while i < file_list.len()
        invariant
            0 <= i <= file_list@.len(),
            s@ == "<div class=\"sidebar\"><ul>"@ + sidebar_entries_of(
                file_list.deep_view().take(i as int),
            ),
        decreases file_list@.len() - i,
    {
        let rel: &String = &file_list[i];
        let href = html_file_name(rel.as_str());
        let label = title_from_path(rel.as_str());
        s.append("<li><a href=\"");
        s.append(href.as_str());
        s.append("\">");
        s.append(label.as_str());
        s.append("</a></li>");
        proof {
            let dv = file_list.deep_view();
            assert(dv[i as int] == file_list@[i as int]@);
            assert(dv.take(i + 1).drop_last() =~= dv.take(i as int));
            assert(dv.take(i + 1).last() == dv[i as int]);
            assert(s@ =~= "<div class=\"sidebar\"><ul>"@ + sidebar_entries_of(dv.take(i + 1)));
        }
        i = i + 1;
    }
    s.append("</ul></div>");
    proof {
        let dv = file_list.deep_view();
        assert(dv.take(dv.len() as int) =~= dv);
        assert(s@ =~= sidebar_of(dv));
    }
    s
}

/// Composes one page from its title, the shared sidebar, and its rendered
/// content; a pure concatenation, identical bytes on every run.
pub fn compose_page(title: &str, sidebar: &str, content: &str) -> (r: String)
    ensures
        r@ == composed_page_of(title@, sidebar@, content@),
{
    let mut page = create_header(title);
    page.append(sidebar);
    page.append(content);
    let footer = create_footer();
    page.append(footer.as_str());
    proof {
        assert(page@ =~= composed_page_of(title@, sidebar@, content@));
    }
    page
}

/// Appending one document to the list appends exactly its entry to the
/// sidebar: entries keep the documents' order and every document has one.
pub proof fn lemma_sidebar_entries_snoc(rels: Seq<Seq<char>>, rel: Seq<char>)
    ensures
        sidebar_entries_of(rels.push(rel)) == sidebar_entries_of(rels) + sidebar_entry_of(rel),
{
    assert(rels.push(rel).drop_last() =~= rels);
    assert(rels.push(rel).last() == rel);
}

/// Law: every composed page embeds the sidebar it was given verbatim — the
/// page text from the end of the header to the start of the content equals
/// the sidebar, so pages composed against the same sidebar carry identical
/// sidebar markup.
pub proof fn lemma_page_contains_sidebar(title: Seq<char>, sidebar: Seq<char>, content: Seq<char>)
    ensures
        composed_page_of(title, sidebar, content).subrange(
            header_of(title).len() as int,
            header_of(title).len() + sidebar.len() as int,
        ) == sidebar,
{
    assert(composed_page_of(title, sidebar, content).subrange(
        header_of(title).len() as int,
        header_of(title).len() + sidebar.len() as int,
    ) =~= sidebar);
}

} // verus!
