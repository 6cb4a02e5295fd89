//! HTTP header policies shared by the endpoints: CORS mirroring, the
//! `JSESSIONID` cookie, no-cache headers for session traffic, and the
//! one-year cache policy of the iframe and `OPTIONS` responses.

use vstd::prelude::*;

verus! {

/// The CORS headers computed for one request.
pub struct CorsHeaders {
    /// Value of `Access-Control-Allow-Origin`.
    pub allow_origin: String,
    /// Whether `Access-Control-Allow-Credentials: true` is set.
    pub allow_credentials: bool,
    /// Value of `Access-Control-Allow-Headers`, when set.
    pub allow_headers: Option<String>,
}

/// CORS mirroring: a present `Origin` is mirrored, and credentials are
/// allowed exactly when the mirrored origin is not `*`; without an
/// `Origin` the wildcard is used. `Access-Control-Request-Headers` is
/// propagated onto `Access-Control-Allow-Headers` verbatim.
pub fn cors_headers(origin: Option<&String>, request_headers: Option<&String>) -> (r: CorsHeaders)
    ensures
        origin matches Some(o) ==> r.allow_origin@ == o@ && (r.allow_credentials <==> o@
            != "*"@),
        origin is None ==> r.allow_origin@ == "*"@ && !r.allow_credentials,
        request_headers matches Some(h) ==> (r.allow_headers matches Some(ah) && ah@ == h@),
        request_headers is None ==> r.allow_headers is None,
{
    let (allow_origin, allow_credentials): (String, bool) = match origin {
        Some(o) => {
            let star = String::from_str("*");
            let creds = !(*o == star);
            (o.clone(), creds)
        },
        None => (String::from_str("*"), false),
    };
    let allow_headers: Option<String> = match request_headers {
        Some(h) => Some(h.clone()),
        None => None,
    };
    CorsHeaders { allow_origin, allow_credentials, allow_headers }
}

/// The `JSESSIONID` cookie value to set: the one the request carried,
/// else `dummy`.
pub fn session_cookie_value(existing: Option<&String>) -> (r: String)
    ensures
        existing matches Some(c) ==> r@ == c@,
        existing is None ==> r@ == "dummy"@,
{
    match existing {
        Some(c) => c.clone(),
        None => String::from_str("dummy"),
    }
}

/// `Cache-Control` for session traffic.
pub fn no_cache_value() -> (r: String)
    ensures
        r@ == "no-store, no-cache, no-transform, must-revalidate, max-age=0"@,
{
    String::from_str("no-store, no-cache, no-transform, must-revalidate, max-age=0")
}

/// `Access-Control-Allow-Methods` for the `info` endpoint.
pub fn allow_methods_info() -> (r: String)
    ensures
        r@ == "OPTIONS, GET"@,
{
    String::from_str("OPTIONS, GET")
}

/// `Access-Control-Allow-Methods` for the `xhr` family.
pub fn allow_methods_post() -> (r: String)
    ensures
        r@ == "OPTIONS, POST"@,
{
    String::from_str("OPTIONS, POST")
}

/// The one-year cache policy.
pub struct CacheHeaders {
    /// Value of `Cache-Control`.
    pub cache_control: String,
    /// Value of `Access-Control-Max-Age`.
    pub max_age: String,
    /// Value of `Expires`: a date one year ahead, rendered by the clock.
    pub expires: String,
}

/// Relies on `time::OffsetDateTime::now_utc`, date addition and
/// formatting: renders the instant one year from now. The result depends
/// on the clock, so nothing is promised of it.
#[verifier::external_body]
fn expires_value() -> String {
    let d = time::OffsetDateTime::now_utc() + time::Duration::days(365);
    let fmt = time::format_description::parse(
        "[weekday repr:short], [day] [month repr:short] [year] [hour]:[minute]:[second]",
    );
    match fmt {
        Ok(f) => d.format(&f).unwrap_or_default(),
        Err(_) => String::new(),
    }
}

/// The long-lived cache headers used by the iframe and `OPTIONS`
/// responses: one year, public, with a matching `Expires` date.
pub fn cache_headers() -> (r: CacheHeaders)
    ensures
        r.cache_control@ == "max-age=31536000, public"@,
        r.max_age@ == "31536000"@,
{
    CacheHeaders {
        cache_control: String::from_str("max-age=31536000, public"),
        max_age: String::from_str("31536000"),
        expires: expires_value(),
    }
}

} // verus!
