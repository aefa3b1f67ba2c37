//! Content rendering: converting a document's markdown text to HTML through
//! the external converter, wrapping it in the fixed content container, and
//! extracting the page title — the first top-level heading's inner text when
//! the content declares one, else the filename-derived title.

use vstd::prelude::*;
use crate::paths::{title_of_path, title_from_path};
use crate::scan::{find_from, find_sub_from, trim_of, trim_str, lemma_find_from_some};

verus! {

/// What `comrak::markdown_to_html` returns for a markdown text under default
/// options: an HTML body fragment, a function of the text alone.
pub uninterp spec fn markdown_html_of(text: Seq<char>) -> Seq<char>;

/// Relies on `comrak::markdown_to_html` with default options: it renders the
/// markdown to an HTML body fragment and its result depends on the input
/// text alone.
#[verifier::external_body]
fn render_markdown(text: &str) -> (r: String)
    ensures
        r@ == markdown_html_of(text@),
{
    comrak::markdown_to_html(text, &comrak::Options::default())
}

/// A rendered body wrapped in the fixed content container.
pub open spec fn wrapped_of(body: Seq<char>) -> Seq<char> {
    "<div class=\"main-content\">"@ + body + "</div>"@
}

/// The full rendered content of a document with the given markdown text.
pub open spec fn rendered_html_of(text: Seq<char>) -> Seq<char> {
    wrapped_of(markdown_html_of(text))
}

/// The title the first top-level heading of `html` declares, if the scan
/// finds a well-formed one: the text between the first `<h1` tag's closing
/// `>` and the first `</h1>` after that tag, trimmed. A heading whose tag
/// never closes before its `</h1>` yields nothing rather than a failure.
pub open spec fn title_in_html(html: Seq<char>) -> Option<Seq<char>> {
    match find_from(html, "<h1"@, 0) {
        Option::None => Option::None,
        Option::Some(start) => match find_from(html, "</h1>"@, start) {
            Option::None => Option::None,
            Option::Some(close) => match find_from(html, ">"@, start) {
                Option::None => Option::None,
                Option::Some(gt) => if gt + 1 <= close {
                    Option::Some(trim_of(html.subrange(gt + 1, close)))
                } else {
                    Option::None
                },
            },
        },
    }
}

/// The title of a document: preferred from its rendered content's first
/// top-level heading, with the filename-derived title as the fallback.
pub open spec fn title_of_document(html: Seq<char>, rel: Seq<char>) -> Seq<char> {
    match title_in_html(html) {
        Option::Some(t) => t,
        Option::None => title_of_path(rel),
    }
}

/// Scans rendered HTML for its first top-level heading and returns the
/// heading's trimmed inner text, or nothing when no well-formed heading is
/// there.
pub fn find_title(html: &str) -> (r: Option<String>)
    ensures
        (match r {
            Some(t) => title_in_html(html@) == Option::Some(t@),
            None => title_in_html(html@) is None,
        }),
{
    let n = html.unicode_len();
    let start = match find_sub_from(html, "<h1", 0) {
        Some(i) => i,
        None => {
            return None;
        },
    };
    let close = match find_sub_from(html, "</h1>", start) {
        Some(i) => i,
        None => {
            return None;
        },
    };
    let gt = match find_sub_from(html, ">", start) {
        Some(i) => i,
        None => {
            return None;
        },
    };
    proof {
        reveal_strlit(">");
        reveal_strlit("</h1>");
        lemma_find_from_some(html@, ">"@, start as int, gt as int);
        lemma_find_from_some(html@, "</h1>"@, start as int, close as int);
    }
    if gt + 1 <= close {
        let inner = html.substring_char(gt + 1, close);
        Some(trim_str(inner))
    } else {
        None
    }
}

/// The metadata and content of one rendered page.
pub struct RenderedPage {
    pub html: String,
    pub title: String,
}

/// Renders one document: converts the markdown text, wraps the result in the
/// content container, and picks the title — the content-declared one when
/// there is one, else the one derived from the file name.
pub fn render_document(relative_path: &str, content: &str) -> (r: RenderedPage)
    ensures
        r.html@ == rendered_html_of(content@),
        r.title@ == title_of_document(rendered_html_of(content@), relative_path@),
{
    let body = render_markdown(content);
    let mut html = String::from_str("<div class=\"main-content\">");
    html.append(body.as_str());
    html.append("</div>");
    proof {
        assert(html@ =~= rendered_html_of(content@));
    }
    let title = match find_title(html.as_str()) {
        Some(t) => t,
        None => title_from_path(relative_path),
    };
    RenderedPage { html, title }
}

} // verus!
