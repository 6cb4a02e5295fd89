//! The iframe document and its conditional-request handling: the body is
//! a fixed string, its `ETag` is the lowercase hex MD5 of that body, and
//! any request carrying `If-None-Match` is answered 304 with no body.

use vstd::prelude::*;
use vstd::string::StringSliceAdditionalSpecFns;

verus! {

/// The fixed iframe document.
pub open spec fn iframe_html_chars() -> Seq<char> {
    "<!DOCTYPE html>\n<html>\n<head>\n  <meta http-equiv=\"X-UA-Compatible\" content=\"IE=edge\" />\n  <meta http-equiv=\"Content-Type\" content=\"text/html; charset=UTF-8\" />\n  <script src=\"https://cdn.jsdelivr.net/npm/sockjs-client@1/dist/sockjs.min.js\"></script>\n  <script>\n    document.domain = document.domain;\n    SockJS.bootstrap_iframe();\n  </script>\n</head>\n<body>\n  <h2>Don't panic!</h2>\n  <p>This is a SockJS hidden iframe. It's used for cross domain magic.</p>\n</body>\n</html>"@
}

pub fn iframe_html() -> (r: String)
    ensures
        r@ == iframe_html_chars(),
{
    String::from_str(
        "<!DOCTYPE html>\n<html>\n<head>\n  <meta http-equiv=\"X-UA-Compatible\" content=\"IE=edge\" />\n  <meta http-equiv=\"Content-Type\" content=\"text/html; charset=UTF-8\" />\n  <script src=\"https://cdn.jsdelivr.net/npm/sockjs-client@1/dist/sockjs.min.js\"></script>\n  <script>\n    document.domain = document.domain;\n    SockJS.bootstrap_iframe();\n  </script>\n</head>\n<body>\n  <h2>Don't panic!</h2>\n  <p>This is a SockJS hidden iframe. It's used for cross domain magic.</p>\n</body>\n</html>",
    )
}

/// The lowercase hex MD5 digest of the bytes; a function of them alone.
pub uninterp spec fn md5_hex(b: Seq<u8>) -> Seq<char>;

/// Relies on `md5::compute` and the `LowerHex` rendering of its digest:
/// 32 lowercase hex digits determined by the input bytes alone.
#[verifier::external_body]
pub(crate) fn md5_hex_str(data: &str) -> (r: String)
    ensures
        r@ == md5_hex(data.spec_bytes()),
        r@.len() == 32,
{
    format!("{:x}", md5::compute(data.as_bytes()))
}

/// The response to an iframe request.
pub struct IframeResponse {
    /// HTTP status: 200 or 304.
    pub status: u16,
    /// Response body: the document, or empty on 304.
    pub body: String,
    /// `ETag` header: the document's MD5, absent on 304.
    pub etag: Option<String>,
}

/// Iframe caching: with `If-None-Match` present the response is 304 with
/// an empty body, whatever the tag's value; otherwise 200 with the exact
/// document and an `ETag` equal to its lowercase hex MD5.
pub fn iframe_response(has_if_none_match: bool) -> (r: IframeResponse)
    ensures
        has_if_none_match ==> r.status == 304 && r.body@.len() == 0 && r.etag is None,
        !has_if_none_match ==> r.status == 200 && r.body@ == iframe_html_chars() && (
        r.etag matches Some(t) && t@ == md5_hex(vstd::utf8::encode_utf8(iframe_html_chars()))),
{
    if has_if_none_match {
        IframeResponse { status: 304, body: String::new(), etag: None }
    } else {
        let body = iframe_html();
        let etag = md5_hex_str(body.as_str());
        IframeResponse { status: 200, body, etag: Some(etag) }
    }
}

} // verus!
