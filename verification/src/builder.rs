//! The build core: filter the discovered document paths, build the shared
//! sidebar once from the full ordered list, compose every page against it,
//! and account for the run. Reading the sources, writing the pages and
//! copying the resources are the caller's side effects; everything decided
//! here is a pure function of the values handed in, so one document's
//! failure never touches another's page.

use vstd::prelude::*;
use crate::errors::SiteError;
use crate::paths::{
    is_hidden_path, valid_document_path, html_name_of, output_path_for,
};
use crate::render::{rendered_html_of, title_of_document, render_document};
use crate::compose::{
    composed_page_of, header_of, sidebar_of, create_sidebar, compose_page,
    lemma_page_contains_sidebar,
};

verus! {

/// One discovered document handed to the build: its relative path, and its
/// raw text when the read succeeded.
pub struct DocumentInput {
    pub relative_path: String,
    pub content: Option<String>,
}

/// One generated page: the flat output file name and the full page text.
pub struct PageOutput {
    pub output_name: String,
    pub html: String,
}

/// What one document came to: its page, or the failure recorded for it.
pub enum PageResult {
    Page(PageOutput),
    Failed(SiteError),
}

/// The outcome of a run: how much was written and every per-document and
/// per-resource failure, in the order recorded.
pub struct BuildReport {
    pub pages_written: usize,
    pub resources_copied: usize,
    pub errors: Vec<SiteError>,
}

/// The paths that are not hidden, in their original order.
pub open spec fn visible_of(paths: Seq<Seq<char>>) -> Seq<Seq<char>>
    decreases paths.len(),
{
    if paths.len() == 0 {
        Seq::empty()
    } else {
        let prev = visible_of(paths.drop_last());
        if !is_hidden_path(paths.last()) {
            prev.push(paths.last())
        } else {
            prev
        }
    }
}

/// The relative paths of the documents handed to the build, in order.
pub open spec fn rels_of(docs: Seq<DocumentInput>) -> Seq<Seq<char>> {
    docs.map_values(|d: DocumentInput| d.relative_path@)
}

/// The full page text of one document in a run with the given shared
/// sidebar.
pub open spec fn page_of(rel: Seq<char>, text: Seq<char>, sidebar: Seq<char>) -> Seq<char> {
    composed_page_of(
        title_of_document(rendered_html_of(text), rel),
        sidebar,
        rendered_html_of(text),
    )
}

/// What the build owes one document, given the run's shared sidebar: its
/// composed page when its text was read and its path is acceptable, the
/// read failure when it was not read, and the path failure otherwise.
pub open spec fn page_result_ok(d: DocumentInput, sidebar: Seq<char>, r: PageResult) -> bool {
    match d.content {
        Option::Some(text) => if valid_document_path(d.relative_path@) {
            r matches PageResult::Page(p) && p.output_name@ == html_name_of(d.relative_path@)
                && p.html@ == page_of(d.relative_path@, text@, sidebar)
        } else {
            r matches PageResult::Failed(e) && (e matches SiteError::InvalidPath { path } && path@
                == d.relative_path@)
        },
        Option::None => r matches PageResult::Failed(e) && (e matches SiteError::Read { path }
            && path@ == d.relative_path@),
    }
}

/// How many documents produced a page.
pub open spec fn count_pages(rs: Seq<PageResult>) -> nat
    decreases rs.len(),
{
    if rs.len() == 0 {
        0
    } else {
        count_pages(rs.drop_last()) + if rs.last() is Page {
            1nat
        } else {
            0nat
        }
    }
}

/// The failures among the results, in order.
pub open spec fn errors_of_results(rs: Seq<PageResult>) -> Seq<SiteError>
    decreases rs.len(),
{
    if rs.len() == 0 {
        Seq::empty()
    } else {
        match rs.last() {
            PageResult::Failed(e) => errors_of_results(rs.drop_last()).push(e),
            _ => errors_of_results(rs.drop_last()),
        }
    }
}

/// Keeps, in order, the discovered paths that are not hidden; hidden
/// documents are neither rendered nor listed in the sidebar.
pub fn filter_documents(paths: &Vec<String>) -> (r: Vec<String>)
    ensures
        r.deep_view() == visible_of(paths.deep_view()),
{
    let ghost dv = paths.deep_view();
    let mut out: Vec<String> = Vec::new();
    let mut i: usize = 0;
    while i < paths.len()
        invariant
            0 <= i <= paths@.len(),
            dv == paths.deep_view(),
            dv.len() == paths@.len(),
            out.deep_view() == visible_of(dv.take(i as int)),
        decreases paths@.len() - i,
    {
        let p: &String = &paths[i];
        proof {
            assert(dv[i as int] == paths@[i as int]@);
            assert(dv.take(i + 1).drop_last() =~= dv.take(i as int));
            assert(dv.take(i + 1).last() == dv[i as int]);
        }
        if !crate::paths::is_hidden(p.as_str()) {
            out.push(p.clone());
        }
        proof {
            assert(out.deep_view() =~= visible_of(dv.take(i + 1)));
        }
        i = i + 1;
    }
    proof {
        assert(dv.take(dv.len() as int) =~= dv);
    }
    out
}

/// Law: no hidden path survives the filter — every document the build
/// renders and lists in the sidebar is non-hidden.
pub proof fn lemma_visible_excludes_hidden(paths: Seq<Seq<char>>, i: int)
    requires
        0 <= i < visible_of(paths).len(),
    ensures
        !is_hidden_path(visible_of(paths)[i]),
    decreases paths.len(),
{
    if paths.len() == 0 {
    } else {
        let prev = visible_of(paths.drop_last());
        if !is_hidden_path(paths.last()) {
            if i < prev.len() {
                lemma_visible_excludes_hidden(paths.drop_last(), i);
            } else {
                assert(visible_of(paths)[i] == paths.last());
            }
        } else {
            lemma_visible_excludes_hidden(paths.drop_last(), i);
        }
    }
}

/// Law: every non-hidden discovered path survives the filter.
pub proof fn lemma_visible_complete(paths: Seq<Seq<char>>, i: int)
    requires
        0 <= i < paths.len(),
        !is_hidden_path(paths[i]),
    ensures
        visible_of(paths).contains(paths[i]),
    decreases paths.len(),
{
    let prev = visible_of(paths.drop_last());
    if i == paths.len() - 1 {
        assert(visible_of(paths)[prev.len() as int] == paths.last());
    } else {
        assert(paths.drop_last()[i] == paths[i]);
        lemma_visible_complete(paths.drop_last(), i);
        if !is_hidden_path(paths.last()) {
            let j = choose|j: int| 0 <= j < prev.len() && prev[j] == paths[i];
            assert(prev.push(paths.last())[j] == prev[j]);
        }
    }
}

/// Composes one page: derives the output name, renders the content, and
/// concatenates header, shared sidebar, content and footer. Succeeds exactly
/// on the paths the build accepts.
pub fn compose_document(relative_path: &String, content: &String, sidebar: &String) -> (r: Result<
    PageOutput,
    SiteError,
>)
    ensures
        r is Ok <==> valid_document_path(relative_path@),
        r matches Ok(p) ==> p.output_name@ == html_name_of(relative_path@) && p.html@ == page_of(
            relative_path@,
            content@,
            sidebar@,
        ),
        r matches Err(e) ==> (e matches SiteError::InvalidPath { path } && path@
            == relative_path@),
{
    let output_name = match output_path_for(relative_path.as_str()) {
        Ok(n) => n,
        Err(e) => {
            return Err(e);
        },
    };
    let page = render_document(relative_path.as_str(), content.as_str());
    let html = compose_page(page.title.as_str(), sidebar.as_str(), page.html.as_str());
    Ok(PageOutput { output_name, html })
}

/// Builds every page of a run: the sidebar is computed exactly once from the
/// full ordered document list and shared, unmodified, by every composition;
/// each document's slot holds its page or its own failure, so one failure
/// never disturbs another document's page.
pub fn build_pages(inputs: &Vec<DocumentInput>) -> (r: Vec<PageResult>)
    ensures
        r@.len() == inputs@.len(),
        forall|k: int|
            0 <= k < inputs@.len() ==> page_result_ok(
                inputs@[k],
                sidebar_of(rels_of(inputs@)),
                #[trigger] r@[k],
            ),
{
    let mut rels: Vec<String> = Vec::new();
    let mut i: usize = 0;
    while i < inputs.len()
        invariant
            0 <= i <= inputs@.len(),
            rels.deep_view() == rels_of(inputs@.take(i as int)),
        decreases inputs@.len() - i,
    {
        let d: &DocumentInput = &inputs[i];
        let rp = d.relative_path.clone();
        proof {
            assert(rp@ == inputs@[i as int].relative_path@);
        }
        let ghost prev = rels@;
        let ghost prev_deep = rels.deep_view();
        rels.push(rp);
        proof {
            let s1 = rels.deep_view();
            let s2 = rels_of(inputs@.take(i + 1));
            assert(s2.len() == i + 1);
            assert(rels_of(inputs@.take(i as int)).len() == i);
            assert(prev_deep.len() == i);
            assert(prev.len() == i);
            assert forall|k: int| 0 <= k < i + 1 implies s1[k] == s2[k] by {
                assert(s2[k] == inputs@.take(i + 1)[k].relative_path@);
                if k < i {
                    assert(rels@ == prev.push(rp));
                    assert(prev.push(rp)[k] == prev[k]);
                    assert(s1[k] == rels@[k].deep_view());
                    assert(prev_deep[k] == prev[k].deep_view());
                    assert(prev_deep[k] == rels_of(inputs@.take(i as int))[k]);
                    assert(rels_of(inputs@.take(i as int))[k] == inputs@.take(i as int)[k].relative_path@);
                    assert(inputs@.take(i as int)[k] == inputs@.take(i + 1)[k]);
                } else {
                    assert(rels@ == prev.push(rp));
                    assert(rels@[k] == rp);
                    assert(s1[k] == rp@);
                    assert(inputs@.take(i + 1)[k] == inputs@[i as int]);
                }
            }
            assert(s1 =~= s2);
        }
        i = i + 1;
    }
    proof {
        assert(inputs@.take(inputs@.len() as int) =~= inputs@);
    }
    let sidebar = create_sidebar(&rels);
    let mut out: Vec<PageResult> = Vec::new();
    let mut i: usize = 0;
    while i < inputs.len()
        invariant
            0 <= i <= inputs@.len(),
            out@.len() == i,
            sidebar@ == sidebar_of(rels_of(inputs@)),
            forall|k: int|
                0 <= k < i ==> page_result_ok(
                    inputs@[k],
                    sidebar_of(rels_of(inputs@)),
                    #[trigger] out@[k],
                ),
        decreases inputs@.len() - i,
    {
        let d: &DocumentInput = &inputs[i];
        let res: PageResult = match &d.content {
            Some(text) => match compose_document(&d.relative_path, text, &sidebar) {
                Ok(p) => PageResult::Page(p),
                Err(e) => PageResult::Failed(e),
            },
            None => PageResult::Failed(SiteError::Read { path: d.relative_path.clone() }),
        };
        out.push(res);
        i = i + 1;
    }
    out
}

/// Folds the per-document outcomes into a report: how many documents
/// produced a page, and every recorded failure in order. Resource accounting
/// is added by the caller as copies happen.
pub fn summarize_results(results: &Vec<PageResult>) -> (r: BuildReport)
    ensures
        r.pages_written == count_pages(results@),
        r.resources_copied == 0,
        r.errors@ == errors_of_results(results@),
{
    let mut pages: usize = 0;
    let mut errors: Vec<SiteError> = Vec::new();
    let mut i: usize = 0;
    while i < results.len()
        invariant
            0 <= i <= results@.len(),
            pages <= i,
            pages == count_pages(results@.take(i as int)),
            errors@ == errors_of_results(results@.take(i as int)),
        decreases results@.len() - i,
    {
        proof {
            assert(results@.take(i + 1).drop_last() =~= results@.take(i as int));
            assert(results@.take(i + 1).last() == results@[i as int]);
        }
        match &results[i] {
            PageResult::Page(_) => {
                pages = pages + 1;
            },
            PageResult::Failed(e) => {
                errors.push(e.clone());
            },
        }
        i = i + 1;
    }
    proof {
        assert(results@.take(results@.len() as int) =~= results@);
    }
    BuildReport { pages_written: pages, resources_copied: 0, errors }
}

impl BuildReport {
    /// An empty report: nothing written, nothing copied, no failures.
    pub fn new() -> (r: BuildReport)
        ensures
            r.pages_written == 0,
            r.resources_copied == 0,
            r.errors@ == Seq::<SiteError>::empty(),
    {
        BuildReport { pages_written: 0, resources_copied: 0, errors: Vec::new() }
    }

    /// Counts one page written.
    pub fn record_page(&mut self)
        requires
            old(self).pages_written < usize::MAX,
        ensures
            final(self).pages_written == old(self).pages_written + 1,
            final(self).resources_copied == old(self).resources_copied,
            final(self).errors@ == old(self).errors@,
    {
        self.pages_written = self.pages_written + 1;
    }

    /// Counts one resource copied.
    pub fn record_resource(&mut self)
        requires
            old(self).resources_copied < usize::MAX,
        ensures
            final(self).resources_copied == old(self).resources_copied + 1,
            final(self).pages_written == old(self).pages_written,
            final(self).errors@ == old(self).errors@,
    {
        self.resources_copied = self.resources_copied + 1;
    }

    /// Records one failure; the run goes on.
    pub fn record_error(&mut self, e: SiteError)
        ensures
            final(self).errors@ == old(self).errors@.push(e),
            final(self).pages_written == old(self).pages_written,
            final(self).resources_copied == old(self).resources_copied,
    {
        self.errors.push(e);
    }
}

/// The pages of a whole run over documents with the given relative paths and
/// raw texts, aligned by index: each page composed against the one sidebar
/// built from the full ordered list.
pub open spec fn site_of(rels: Seq<Seq<char>>, texts: Seq<Seq<char>>) -> Seq<Seq<char>> {
    Seq::new(rels.len(), |k: int| page_of(rels[k], texts[k], sidebar_of(rels)))
}

/// Law: the build is a pure function of the discovered document list and the
/// documents' contents — a second run over the same unchanged sources
/// produces byte-identical pages under the same output names.
pub proof fn lemma_build_idempotent(
    rels1: Seq<Seq<char>>,
    texts1: Seq<Seq<char>>,
    rels2: Seq<Seq<char>>,
    texts2: Seq<Seq<char>>,
)
    requires
        rels1 == rels2,
        texts1 == texts2,
    ensures
        site_of(rels1, texts1) == site_of(rels2, texts2),
        forall|k: int|
            0 <= k < rels1.len() ==> html_name_of(#[trigger] rels1[k]) == html_name_of(rels2[k]),
{
}

/// Law: every page of a run carries the one shared sidebar verbatim — the
/// slice of each page between its header and its content equals the sidebar
/// built from the full ordered document list, identically for all pages of
/// the run.
pub proof fn lemma_run_shares_sidebar(rels: Seq<Seq<char>>, texts: Seq<Seq<char>>, j: int)
    requires
        rels.len() == texts.len(),
        0 <= j < rels.len(),
    ensures
        ({
            let sb = sidebar_of(rels);
            let h = header_of(title_of_document(rendered_html_of(texts[j]), rels[j])).len();
            site_of(rels, texts)[j].subrange(h as int, h + sb.len() as int) == sb
        }),
{
    lemma_page_contains_sidebar(
        title_of_document(rendered_html_of(texts[j]), rels[j]),
        sidebar_of(rels),
        rendered_html_of(texts[j]),
    );
}

} // verus!
