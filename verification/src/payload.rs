//! The drag payload: one desktop entry's origin path, carried on the
//! wire as a single `file://` URI under the mime type `text/uri-list`.
//!
//! Encoding and decoding of the URI itself are delegated to the `url`
//! crate behind trusted wrappers; everything around them — the mime
//! check, what is accepted and what is dropped — is verified.

use vstd::prelude::*;
use crate::dnd_source::mime_uri_list;
use crate::group::str_views;
use crate::text::chars_of;

verus! {

/// The UTF-8 bytes of the `file://` URI that the `url` crate builds for
/// a path, or nothing when the path is rejected.  The result is a
/// function of the path alone.
pub uninterp spec fn file_uri_bytes_of(path: Seq<char>) -> Option<Seq<u8>>;

/// The filesystem path that the `url` crate recovers from the UTF-8
/// text of a URI, or nothing when the bytes are not UTF-8, not a URL,
/// or not a local file URL.  The result is a function of the bytes
/// alone.
pub uninterp spec fn decoded_file_path(data: Seq<u8>) -> Option<Seq<char>>;

/// Relies on `url::Url::from_file_path`: on this target it succeeds
/// exactly for absolute paths — those that start with `/` — and its
/// result depends on the path alone.
#[verifier::external_body]
fn path_to_uri_bytes(path: &str) -> (r: Option<Vec<u8>>)
    ensures
        r matches Option::Some(b) ==> file_uri_bytes_of(path@) == Option::Some(b@),
        r is None ==> file_uri_bytes_of(path@) is None,
        path@.len() > 0 && path@[0] == '/' ==> r is Some,
        !(path@.len() > 0 && path@[0] == '/') ==> r is None,
{
    url::Url::from_file_path(std::path::Path::new(path)).ok().map(|u| u.to_string().into_bytes())
}

/// Relies on `str::from_utf8`, `url::Url::parse` and
/// `url::Url::to_file_path`: the recovered path depends on the bytes
/// alone, and bytes that are not UTF-8, not a URL, or not a local file
/// URL yield nothing.
#[verifier::external_body]
fn decode_payload(data: &[u8]) -> (r: Option<String>)
    ensures
        r matches Option::Some(p) ==> decoded_file_path(data@) == Option::Some(p@),
        r is None ==> decoded_file_path(data@) is None,
{
    core::str::from_utf8(data)
        .ok()
        .and_then(|s| url::Url::parse(s).ok())
        .and_then(|u| u.to_file_path().ok())
        .and_then(|p| p.into_os_string().into_string().ok())
}

/// A path that can be offered to the compositor as a drag payload, or
/// recovered from one.
#[derive(Debug)]
pub struct AppletString(pub String);

impl AppletString {
    /// The mime types under which this payload is offered.
    pub fn allowed() -> (r: Vec<String>)
        ensures
            str_views(r@) =~= seq![mime_uri_list()],
    {
        let mut r: Vec<String> = Vec::new();
        r.push(crate::dnd_source::mime_type().to_owned());
        r
    }

    /// The mime types this payload can produce.
    pub fn available(&self) -> (r: Vec<String>)
        ensures
            str_views(r@) =~= seq![mime_uri_list()],
    {
        AppletString::allowed()
    }

    /// The wire bytes for `mime_type`: the path as a `file://` URI.
    /// Any other mime type, and any path the URI builder rejects,
    /// yields nothing.
    pub fn as_mime_bytes(&self, mime_type: &str) -> (r: Option<Vec<u8>>)
        ensures
            mime_type@ != mime_uri_list() ==> r is None,
            mime_type@ == mime_uri_list() ==> match r {
                Option::Some(b) => file_uri_bytes_of(self.0@) == Option::Some(b@),
                Option::None => file_uri_bytes_of(self.0@) is None,
            },
    {
        let expected = crate::dnd_source::mime_type();
        let mv = chars_of(mime_type);
        let ev = chars_of(expected);
        if !crate::group::seq_eq_chars(&mv, &ev) {
            return Option::None;
        }
        path_to_uri_bytes(self.0.as_str())
    }

    /// Recovers the payload from delivered wire data.  A mime type
    /// other than `text/uri-list`, or data that does not decode to a
    /// local path, yields nothing.
    pub fn try_from_mime_data(data: &[u8], mime_type: &str) -> (r: Option<AppletString>)
        ensures
            mime_type@ != mime_uri_list() ==> r is None,
            mime_type@ == mime_uri_list() ==> match decoded_file_path(data@) {
                Option::Some(p) => r matches Option::Some(a) && a.0@ == p,
                Option::None => r is None,
            },
    {
        let expected = crate::dnd_source::mime_type();
        let mv = chars_of(mime_type);
        let ev = chars_of(expected);
        if !crate::group::seq_eq_chars(&mv, &ev) {
            return Option::None;
        }
        match decode_payload(data) {
            Option::Some(p) => Option::Some(AppletString(p)),
            Option::None => Option::None,
        }
    }
}

} // verus!
