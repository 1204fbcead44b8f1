//! Embedded assets: which request paths are static files, where a file is
//! looked up, the content type it is served with, and the names templates
//! are registered under.
use vstd::prelude::*;

use crate::text::{cat, has_prefix, has_suffix, str_ends_with, str_strip_prefix};

verus! {

/// The MIME type that `mime_guess` gives first for a path, if any.
pub uninterp spec fn mime_for_path(path: Seq<char>) -> Option<Seq<char>>;

/// `mime_guess::from_path(path).first_raw()`: the first MIME type guessed from
/// the path's extension, if the extension is known.
#[verifier::external_body]
fn guess_mime(path: &str) -> (r: Option<String>)
    ensures
        match r {
            Some(m) => mime_for_path(path@) == Some(m@),
            None => mime_for_path(path@) is None,
        },
{
    mime_guess::from_path(path).first_raw().map(String::from)
}

/// The content type a static file is served with: the guessed MIME type, or
/// `application/octet-stream` when nothing is guessed.
pub fn content_type(path: &str) -> (r: String)
    ensures
        r@ == match mime_for_path(path@) {
            Some(m) => m,
            None => "application/octet-stream"@,
        },
{
    match guess_mime(path) {
        Some(m) => m,
        None => "application/octet-stream".to_string(),
    }
}

/// The static file a request path asks for: the path after `/static/`, for
/// paths under `/static/`.
pub fn static_asset_path(request_path: &str) -> (r: Option<String>)
    ensures
        r is Some <==> has_prefix(request_path@, "/static/"@),
        r matches Some(p) ==> p@ == request_path@.skip("/static/"@.len() as int),
{
    str_strip_prefix(request_path, "/static/")
}

/// Where a static file is looked for, in order: the path itself, then, for a
/// path ending in `/`, its `index.html`.
pub fn asset_candidates(path: &str) -> (r: Vec<String>)
    ensures
        r@.len() >= 1,
        r@[0]@ == path@,
        has_suffix(path@, "/"@) ==> r@.len() == 2 && r@[1]@ == path@ + "index.html"@,
        !has_suffix(path@, "/"@) ==> r@.len() == 1,
{
    let mut v: Vec<String> = Vec::new();
    v.push(path.to_string());
    if str_ends_with(path, "/") {
        v.push(cat(path, "index.html"));
    }
    v
}

/// The name a view template is registered under: its path with the leading
/// `assets/views/` removed, or the whole path when it does not start so.
pub fn template_name(path: &str) -> (r: String)
    ensures
        has_prefix(path@, "assets/views/"@) ==> r@ == path@.skip("assets/views/"@.len() as int),
        !has_prefix(path@, "assets/views/"@) ==> r@ == path@,
{
    match str_strip_prefix(path, "assets/views/") {
        Some(n) => n,
        None => path.to_string(),
    }
}

} // verus!
