//! Path mapping: translating a document's relative source path into its
//! output file name, its display title, and its navigation link, and
//! classifying paths (hidden entries, parent-directory traversal).
//!
//! Paths are plain strings whose segments are separated by `/`. Output is
//! flat: every generated page lives at `<outputRoot>/<file stem>.html`, and
//! the hrefs emitted into the sidebar use exactly the same name.

use vstd::prelude::*;
use crate::errors::SiteError;

verus! {

/// A path segment beginning at position `i` starts with a dot: the path is
/// hidden at `i`.
pub open spec fn hidden_at(s: Seq<char>, i: int) -> bool {
    0 <= i < s.len() && s[i] == '.' && (i == 0 || s[i - 1] == '/')
}

/// A path is hidden when any of its segments starts with a dot.
pub open spec fn is_hidden_path(s: Seq<char>) -> bool {
    exists|i: int| hidden_at(s, i)
}

/// A `..` segment stands alone in the path beginning at position `i`.
pub open spec fn dotdot_at(s: Seq<char>, i: int) -> bool {
    0 <= i && i + 2 <= s.len() && s[i] == '.' && s[i + 1] == '.' && (i == 0 || s[i - 1] == '/')
        && (i + 2 == s.len() || s[i + 2] == '/')
}

/// The path climbs toward a parent directory somewhere.
pub open spec fn has_parent_traversal(s: Seq<char>) -> bool {
    exists|i: int| dotdot_at(s, i)
}

/// The file-name part of a path: everything after the last separator.
pub open spec fn file_name_of(s: Seq<char>) -> Seq<char>
    decreases s.len(),
{
    if s.len() == 0 {
        s
    } else if s[s.len() - 1] == '/' {
        Seq::empty()
    } else {
        file_name_of(s.take(s.len() - 1)).push(s[s.len() - 1])
    }
}

/// The path ends in the markdown extension `.md`.
pub open spec fn ends_with_md(s: Seq<char>) -> bool {
    s.len() >= 3 && s[s.len() - 3] == '.' && s[s.len() - 2] == 'm' && s[s.len() - 1] == 'd'
}

/// The name with a trailing `.md` removed, when it carries one.
pub open spec fn strip_md_suffix(name: Seq<char>) -> Seq<char> {
    if ends_with_md(name) {
        name.take(name.len() - 3)
    } else {
        name
    }
}

/// The display title derived from a path: its file name without the markdown
/// extension. Used only when no title can be taken from the content itself.
pub open spec fn title_of_path(s: Seq<char>) -> Seq<char> {
    strip_md_suffix(file_name_of(s))
}

/// The flat output name of a document: its file stem followed by `.html`.
/// Pages are written under this name and sidebar hrefs point at it, so the
/// two can never disagree.
pub open spec fn html_name_of(s: Seq<char>) -> Seq<char> {
    strip_md_suffix(file_name_of(s)) + ".html"@
}

/// A relative path names a document the build accepts: it ends in the
/// markdown extension and never climbs toward a parent directory.
pub open spec fn valid_document_path(s: Seq<char>) -> bool {
    ends_with_md(s) && !has_parent_traversal(s)
}

/// Returns whether any segment of `path` starts with a dot.
pub fn is_hidden(path: &str) -> (r: bool)
    ensures
        r == is_hidden_path(path@),
{
    let n = path.unicode_len();
    let mut i: usize = 0;
    let mut prev_is_slash = true;
    while i < n
        invariant
            0 <= i <= n,
            n == path@.len(),
            prev_is_slash == (i == 0 || path@[i - 1] == '/'),
            forall|j: int| 0 <= j < i ==> !hidden_at(path@, j),
        decreases n - i,
    {
        let c = path.get_char(i);
        if c == '.' && prev_is_slash {
            assert(hidden_at(path@, i as int));
            return true;
        }
        assert(!hidden_at(path@, i as int));
        prev_is_slash = c == '/';
        i = i + 1;
    }
    false
}

/// Returns whether the path holds a `..` segment.
pub fn contains_parent_traversal(path: &str) -> (r: bool)
    ensures
        r == has_parent_traversal(path@),
{
    let n = path.unicode_len();
    let mut i: usize = 0;
    let mut prev_is_slash = true;
    while i < n
        invariant
            0 <= i <= n,
            n == path@.len(),
            prev_is_slash == (i == 0 || path@[i - 1] == '/'),
            forall|j: int| 0 <= j < i ==> !dotdot_at(path@, j),
        decreases n - i,
    {
        let c = path.get_char(i);
        if c == '.' && prev_is_slash && i + 1 < n {
            let c2 = path.get_char(i + 1);
            if c2 == '.' && (i + 2 == n || path.get_char(i + 2) == '/') {
                assert(dotdot_at(path@, i as int));
                return true;
            }
        }
        assert(!dotdot_at(path@, i as int));
        prev_is_slash = c == '/';
        i = i + 1;
    }
    false
}

/// Relies on `String::push`: appends exactly the one character.
#[verifier::external_body]
fn push_char(s: &mut String, c: char)
    ensures
        final(s)@ == old(s)@.push(c),
{
    s.push(c);
}

/// The file-name part of a path, as an owned string.
pub fn file_name(path: &str) -> (r: String)
    ensures
        r@ == file_name_of(path@),
{
    let n = path.unicode_len();
    let mut acc = String::new();
    let mut i: usize = 0;
    while i < n
        invariant
            0 <= i <= n,
            n == path@.len(),
            acc@ == file_name_of(path@.take(i as int)),
        decreases n - i,
    {
        let c = path.get_char(i);
        if c == '/' {
            acc = String::new();
        } else {
            push_char(&mut acc, c);
        }
        proof {
            let t = path@.take(i + 1);
            assert(t.len() == i + 1);
            assert(t[t.len() - 1] == path@[i as int]);
            assert(t.take(t.len() - 1) =~= path@.take(i as int));
        }
        i = i + 1;
    }
    proof {
        assert(path@.take(n as int) =~= path@);
    }
    acc
}

/// Returns whether the path ends in the markdown extension.
pub fn has_md_extension(path: &str) -> (r: bool)
    ensures
        r == ends_with_md(path@),
{
    let n = path.unicode_len();
    n >= 3 && path.get_char(n - 3) == '.' && path.get_char(n - 2) == 'm' && path.get_char(n - 1)
        == 'd'
}

/// The display title derived from the path alone: the file name with the
/// markdown extension stripped (`docs/chapter-two.md` becomes `chapter-two`).
pub fn title_from_path(path: &str) -> (r: String)
    ensures
        r@ == title_of_path(path@),
{
    let name = file_name(path);
    let n = name.as_str().unicode_len();
    if has_md_extension(name.as_str()) {
        let stem = name.as_str().substring_char(0, n - 3);
        proof {
            assert(name@.subrange(0, n - 3) =~= name@.take(n - 3));
        }
        String::from_str(stem)
    } else {
        name
    }
}

/// The flat output name for a document, also used as its sidebar href.
pub fn html_file_name(path: &str) -> (r: String)
    ensures
        r@ == html_name_of(path@),
{
    let mut out = title_from_path(path);
    out.append(".html");
    out
}

/// Maps a document's relative path to the name of its generated page.
/// Succeeds exactly on the paths the build accepts; a path without the
/// markdown extension, or one that escapes the source root, is rejected
/// rather than normalized.
pub fn output_path_for(relative_path: &str) -> (r: Result<String, SiteError>)
    ensures
        r is Ok <==> valid_document_path(relative_path@),
        r matches Ok(p) ==> p@ == html_name_of(relative_path@),
        r matches Err(e) ==> (e matches SiteError::InvalidPath { path } && path@
            == relative_path@),
{
    if !has_md_extension(relative_path) || contains_parent_traversal(relative_path) {
        Err(SiteError::InvalidPath { path: String::from_str(relative_path) })
    } else {
        Ok(html_file_name(relative_path))
    }
}

} // verus!
