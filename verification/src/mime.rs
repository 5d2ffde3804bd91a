//! MIME-type lookup from a file extension.

use vstd::prelude::*;

use crate::text::str_eq;

verus! {

/// MIME type for an already-lowercased extension, against the fixed table;
/// anything unmatched falls back to `application/octet-stream`.
pub open spec fn mime_of(ext: Seq<char>) -> Seq<char> {
    if ext == "png"@ {
        "image/png"@
    } else if ext == "jpg"@ || ext == "jpeg"@ {
        "image/jpeg"@
    } else if ext == "gif"@ {
        "image/gif"@
    } else if ext == "svg"@ {
        "image/svg+xml"@
    } else if ext == "ico"@ {
        "image/x-icon"@
    } else if ext == "txt"@ {
        "text/plain"@
    } else if ext == "html"@ {
        "text/html"@
    } else if ext == "css"@ {
        "text/css"@
    } else if ext == "js"@ {
        "application/javascript"@
    } else if ext == "json"@ {
        "application/json"@
    } else {
        "application/octet-stream"@
    }
}

/// Every character is ASCII and none is an uppercase letter, so that
/// lowercasing leaves the string unchanged.
pub open spec fn ascii_without_uppercase(s: Seq<char>) -> bool {
    forall|i: int|
        0 <= i < s.len() ==> ((#[trigger] s[i]) as int) < 128 && !(65 <= s[i] as int <= 90)
}

/// What `str::to_lowercase` returns: a function of the characters alone.
pub uninterp spec fn lower_of(s: Seq<char>) -> Seq<char>;

/// Relies on str::to_lowercase: the result depends only on the characters of
/// the input, and characters without a lowercase mapping (every ASCII
/// character that is not an uppercase letter among them) are kept as they
/// are.
#[verifier::external_body]
fn lowercase(s: &str) -> (r: String)
    ensures
        r@ == lower_of(s@),
        ascii_without_uppercase(s@) ==> r@ == s@,
{
    s.to_lowercase()
}

/// MIME type for an extension that is already lowercase.
pub fn mime_type_for_lowercase(ext: &str) -> (r: &'static str)
    ensures
        r@ == mime_of(ext@),
{
    if str_eq(ext, "png") {
        "image/png"
    } else if str_eq(ext, "jpg") || str_eq(ext, "jpeg") {
        "image/jpeg"
    } else if str_eq(ext, "gif") {
        "image/gif"
    } else if str_eq(ext, "svg") {
        "image/svg+xml"
    } else if str_eq(ext, "ico") {
        "image/x-icon"
    } else if str_eq(ext, "txt") {
        "text/plain"
    } else if str_eq(ext, "html") {
        "text/html"
    } else if str_eq(ext, "css") {
        "text/css"
    } else if str_eq(ext, "js") {
        "application/javascript"
    } else if str_eq(ext, "json") {
        "application/json"
    } else {
        "application/octet-stream"
    }
}

/// MIME type for a file extension, looked up case-insensitively: the
/// extension is lowercased, then matched against the fixed table.
pub fn mime_type_from_extension(ext: &str) -> (r: &'static str)
    ensures
        r@ == mime_of(lower_of(ext@)),
        ascii_without_uppercase(ext@) ==> r@ == mime_of(ext@),
{
    let lowered = lowercase(ext);
    mime_type_for_lowercase(lowered.as_str())
}

} // verus!
