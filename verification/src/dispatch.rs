//! The endpoint dispatcher: the SockJS URL grammar, the transport-name
//! table, the disabled-transports check, and the configuration surface.
//!
//! Paths are taken relative to the mount prefix, without a leading slash.

use vstd::prelude::*;
use crate::transport::MAXSIZE;

verus! {

/// One of the eight HTTP/WebSocket transports of the endpoint family.
#[derive(Clone, Copy, Debug, PartialEq, Eq, Structural)]
pub enum TransportKind {
    Websocket,
    Xhr,
    XhrSend,
    XhrStreaming,
    EventSource,
    HtmlFile,
    Jsonp,
    JsonpSend,
}

/// Where a request goes.
pub enum RouteMatch {
    /// The greeting at the bare prefix.
    Greeting,
    /// The `info` endpoint.
    Info,
    /// An iframe document.
    IFrame,
    /// The raw websocket endpoint.
    RawWebsocket,
    /// A session endpoint: server id, session id, transport.
    Transport(String, String, TransportKind),
    /// Nothing matched.
    NotFound,
}

/// Mathematical model of a route.
pub enum RouteV {
    Greeting,
    Info,
    IFrame,
    RawWebsocket,
    Transport(Seq<char>, Seq<char>, TransportKind),
    NotFound,
}

impl View for RouteMatch {
    type V = RouteV;

    open spec fn view(&self) -> RouteV {
        match self {
            RouteMatch::Greeting => RouteV::Greeting,
            RouteMatch::Info => RouteV::Info,
            RouteMatch::IFrame => RouteV::IFrame,
            RouteMatch::RawWebsocket => RouteV::RawWebsocket,
            RouteMatch::Transport(sv, se, t) => RouteV::Transport(sv@, se@, *t),
            RouteMatch::NotFound => RouteV::NotFound,
        }
    }
}

/// Index of the first `/` in `p`, or `p.len()` if there is none.
pub open spec fn first_slash(p: Seq<char>) -> int
    decreases p.len(),
{
    if p.len() == 0 {
        0
    } else if p[0] == '/' {
        0
    } else {
        1 + first_slash(p.drop_first())
    }
}

pub proof fn lemma_first_slash(p: Seq<char>)
    ensures
        0 <= first_slash(p) <= p.len(),
        first_slash(p) < p.len() ==> p[first_slash(p)] == '/',
        forall|i: int| 0 <= i < first_slash(p) ==> p[i] != '/',
    decreases p.len(),
{
    if p.len() > 0 && p[0] != '/' {
        lemma_first_slash(p.drop_first());
        assert forall|i: int| 0 <= i < first_slash(p) implies p[i] != '/' by {
            if i > 0 {
                assert(p.drop_first()[i - 1] != '/');
                assert(p[i] == p.drop_first()[i - 1]);
            }
        }
    }
}

/// `first_slash` is pinned by its characterization: all of `[0, k)` free
/// of slashes, and `k` either the length or a slash position.
pub proof fn lemma_first_slash_at(p: Seq<char>, k: int)
    requires
        0 <= k <= p.len(),
        forall|i: int| 0 <= i < k ==> p[i] != '/',
        k < p.len() ==> p[k] == '/',
    ensures
        first_slash(p) == k,
    decreases p.len(),
{
    if p.len() > 0 && p[0] != '/' {
        lemma_first_slash_at(p.drop_first(), k - 1);
    }
}

/// The `/`-separated segments of `p`, in order. The empty path has one
/// empty segment.
pub open spec fn split_slash(p: Seq<char>) -> Seq<Seq<char>>
    decreases p.len(),
    via split_slash_decreases
{
    let k = first_slash(p);
    if k >= p.len() {
        seq![p]
    } else {
        seq![p.take(k)] + split_slash(p.skip(k + 1))
    }
}

#[via_fn]
proof fn split_slash_decreases(p: Seq<char>) {
    lemma_first_slash(p);
}

/// Splits a path on `/`.
pub fn split_path(p: &str) -> (segs: Vec<String>)
    ensures
        segs.deep_view() == split_slash(p@),
    decreases p@.len(),
{
    let n = p.unicode_len();
    let mut j: usize = 0;
    while j < n && p.get_char(j) != '/'
        invariant
            j <= n,
            n == p@.len(),
            forall|i: int| 0 <= i < j ==> p@[i] != '/',
        decreases n - j,
    {
        j = j + 1;
    }
    proof {
        lemma_first_slash_at(p@, j as int);
    }
    let head = p.substring_char(0, j);
    let head_string = head.to_owned();
    if j == n {
        let mut segs: Vec<String> = Vec::new();
        segs.push(head_string);
        proof {
            assert(p@.take(n as int) =~= p@);
            assert(segs.deep_view() =~= seq![p@]);
        }
        segs
    } else {
        let tail = p.substring_char(j + 1, n);
        let rest = split_path(tail);
        let mut segs: Vec<String> = Vec::new();
        segs.push(head_string);
        let mut k: usize = 0;
        let m = rest.len();
        while k < m
            invariant
                k <= m,
                m == rest.deep_view().len(),
                rest.deep_view() == split_slash(p@.skip(j as int + 1)),
                segs.deep_view() =~= seq![p@.take(j as int)] + rest.deep_view().take(k as int),
            decreases m - k,
        {
            let ghost before = segs.deep_view();
            segs.push(rest[k].clone());
            proof {
                assert(segs.deep_view() =~= before.push(rest.deep_view()[k as int]));
                assert(segs.deep_view() =~= seq![p@.take(j as int)] + rest.deep_view().take(
                    k as int + 1,
                ));
            }
            k = k + 1;
        }
        proof {
            assert(rest.deep_view().take(m as int) =~= rest.deep_view());
            assert(tail@ =~= p@.skip(j as int + 1));
            assert(segs.deep_view() =~= split_slash(p@));
        }
        segs
    }
}

/// A valid `server` or `session` path component: non-empty, no dot.
pub open spec fn valid_component(s: Seq<char>) -> bool {
    s.len() > 0 && forall|i: int| 0 <= i < s.len() ==> s[i] != '.'
}

/// Checks a `server` or `session` component.
pub fn check_component(s: &String) -> (r: bool)
    ensures
        r == valid_component(s@),
{
    let st = s.as_str();
    let n = st.unicode_len();
    if n == 0 {
        return false;
    }
    let mut i: usize = 0;
    while i < n
        invariant
            i <= n,
            n == st@.len(),
            st@ == s@,
            forall|k: int| 0 <= k < i ==> s@[k] != '.',
        decreases n - i,
    {
        if st.get_char(i) == '.' {
            return false;
        }
        i = i + 1;
    }
    true
}

/// The transport named by the last path segment, if any.
pub open spec fn spec_transport_name(s: Seq<char>) -> Option<TransportKind> {
    if s == "websocket"@ {
        Some(TransportKind::Websocket)
    } else if s == "xhr"@ {
        Some(TransportKind::Xhr)
    } else if s == "xhr_send"@ {
        Some(TransportKind::XhrSend)
    } else if s == "xhr_streaming"@ {
        Some(TransportKind::XhrStreaming)
    } else if s == "eventsource"@ {
        Some(TransportKind::EventSource)
    } else if s == "htmlfile"@ {
        Some(TransportKind::HtmlFile)
    } else if s == "jsonp"@ {
        Some(TransportKind::Jsonp)
    } else if s == "jsonp_send"@ {
        Some(TransportKind::JsonpSend)
    } else {
        None
    }
}

/// Looks a transport up by name.
pub fn transport_by_name(s: &String) -> (r: Option<TransportKind>)
    ensures
        r == spec_transport_name(s@),
{
    if *s == String::from_str("websocket") {
        Some(TransportKind::Websocket)
    } else if *s == String::from_str("xhr") {
        Some(TransportKind::Xhr)
    } else if *s == String::from_str("xhr_send") {
        Some(TransportKind::XhrSend)
    } else if *s == String::from_str("xhr_streaming") {
        Some(TransportKind::XhrStreaming)
    } else if *s == String::from_str("eventsource") {
        Some(TransportKind::EventSource)
    } else if *s == String::from_str("htmlfile") {
        Some(TransportKind::HtmlFile)
    } else if *s == String::from_str("jsonp") {
        Some(TransportKind::Jsonp)
    } else if *s == String::from_str("jsonp_send") {
        Some(TransportKind::JsonpSend)
    } else {
        None
    }
}

/// `x` occurs in `ss`.
pub open spec fn name_listed(ss: Seq<Seq<char>>, x: Seq<char>) -> bool {
    exists|i: int| 0 <= i < ss.len() && ss[i] == x
}

/// An iframe path: `iframe.html`, or `iframe<anything>.html`.
pub open spec fn is_iframe_path(p: Seq<char>) -> bool {
    p.len() >= 11 && p.take(6) == "iframe"@ && p.skip(p.len() - 5) == ".html"@
}

/// Where a path leads, under a set of disabled transport names: the
/// greeting at the empty path; `info`; `iframe*.html`; the raw websocket
/// at `websocket`; else `{server}/{session}/{transport}` with both ids
/// non-empty and dot-free and the transport known and enabled; anything
/// else is not found.
pub open spec fn spec_route(p: Seq<char>, disabled: Seq<Seq<char>>) -> RouteV {
    if p.len() == 0 {
        RouteV::Greeting
    } else if p == "info"@ {
        RouteV::Info
    } else if p == "websocket"@ {
        RouteV::RawWebsocket
    } else if is_iframe_path(p) {
        RouteV::IFrame
    } else {
        let segs = split_slash(p);
        if segs.len() == 3 && valid_component(segs[0]) && valid_component(segs[1]) {
            match spec_transport_name(segs[2]) {
                Some(t) => if name_listed(disabled, segs[2]) {
                    RouteV::NotFound
                } else {
                    RouteV::Transport(segs[0], segs[1], t)
                },
                None => RouteV::NotFound,
            }
        } else {
            RouteV::NotFound
        }
    }
}

/// Is `x` among the disabled transport names?
fn is_listed(disabled: &Vec<String>, x: &String) -> (r: bool)
    ensures
        r == name_listed(disabled.deep_view(), x@),
{
    let mut i: usize = 0;
    while i < disabled.len()
        invariant
            i <= disabled.len(),
            forall|k: int| 0 <= k < i ==> disabled.deep_view()[k] != x@,
        decreases disabled.len() - i,
    {
        if disabled[i] == *x {
            proof {
                assert(disabled.deep_view()[i as int] == x@);
            }
            return true;
        }
        i = i + 1;
    }
    false
}

/// Routes a path (relative to the mount prefix, no leading slash).
pub fn route(p: &str, disabled: &Vec<String>) -> (r: RouteMatch)
    ensures
        r@ == spec_route(p@, disabled.deep_view()),
{
    let n = p.unicode_len();
    if n == 0 {
        return RouteMatch::Greeting;
    }
    let ps: String = p.to_owned();
    if ps == String::from_str("info") {
        return RouteMatch::Info;
    }
    if ps == String::from_str("websocket") {
        return RouteMatch::RawWebsocket;
    }
    if n >= 11 {
        let head = p.substring_char(0, 6).to_owned();
        let tail = p.substring_char(n - 5, n).to_owned();
        if head == String::from_str("iframe") && tail == String::from_str(".html") {
            return RouteMatch::IFrame;
        }
    }
    proof {
        assert(!is_iframe_path(p@));
    }
    let segs = split_path(p);
    if segs.len() != 3 {
        return RouteMatch::NotFound;
    }
    if !check_component(&segs[0]) || !check_component(&segs[1]) {
        return RouteMatch::NotFound;
    }
    match transport_by_name(&segs[2]) {
        None => RouteMatch::NotFound,
        Some(t) => {
            if is_listed(disabled, &segs[2]) {
                RouteMatch::NotFound
            } else {
                let server = segs[0].clone();
                let session = segs[1].clone();
                RouteMatch::Transport(server, session, t)
            }
        },
    }
}

/// An HTTP request method, as far as the dispatcher cares.
#[derive(Clone, Copy, Debug, PartialEq, Eq, Structural)]
pub enum HttpMethod {
    Get,
    Post,
    Options,
    Other,
}

/// What the method check decides for a transport request.
#[derive(Clone, Copy, Debug, PartialEq, Eq, Structural)]
pub enum MethodOutcome {
    /// Hand the request to the transport.
    Proceed,
    /// Answer the CORS preflight.
    Preflight,
    /// Refuse with this HTTP status.
    Refuse(u16),
}

/// The method rule of each transport: the `xhr` family takes `POST` and
/// answers `OPTIONS` preflights; `eventsource`, `htmlfile` and `jsonp`
/// take `GET`; websockets upgrade on `GET`. An unsupported method is
/// refused with 405, or 400 on the send endpoints.
pub open spec fn spec_method_outcome(kind: TransportKind, m: HttpMethod) -> MethodOutcome {
    match kind {
        TransportKind::Xhr | TransportKind::XhrStreaming => match m {
            HttpMethod::Options => MethodOutcome::Preflight,
            HttpMethod::Post => MethodOutcome::Proceed,
            _ => MethodOutcome::Refuse(405),
        },
        TransportKind::XhrSend => match m {
            HttpMethod::Options => MethodOutcome::Preflight,
            HttpMethod::Post => MethodOutcome::Proceed,
            _ => MethodOutcome::Refuse(400),
        },
        TransportKind::EventSource | TransportKind::HtmlFile | TransportKind::Jsonp => match m {
            HttpMethod::Get => MethodOutcome::Proceed,
            _ => MethodOutcome::Refuse(405),
        },
        TransportKind::JsonpSend => match m {
            HttpMethod::Post => MethodOutcome::Proceed,
            _ => MethodOutcome::Refuse(400),
        },
        TransportKind::Websocket => match m {
            HttpMethod::Get => MethodOutcome::Proceed,
            _ => MethodOutcome::Refuse(405),
        },
    }
}

pub fn method_check(kind: TransportKind, m: HttpMethod) -> (r: MethodOutcome)
    ensures
        r == spec_method_outcome(kind, m),
{
    match kind {
        TransportKind::Xhr | TransportKind::XhrStreaming => match m {
            HttpMethod::Options => MethodOutcome::Preflight,
            HttpMethod::Post => MethodOutcome::Proceed,
            _ => MethodOutcome::Refuse(405),
        },
        TransportKind::XhrSend => match m {
            HttpMethod::Options => MethodOutcome::Preflight,
            HttpMethod::Post => MethodOutcome::Proceed,
            _ => MethodOutcome::Refuse(400),
        },
        TransportKind::EventSource | TransportKind::HtmlFile | TransportKind::Jsonp => match m {
            HttpMethod::Get => MethodOutcome::Proceed,
            _ => MethodOutcome::Refuse(405),
        },
        TransportKind::JsonpSend => match m {
            HttpMethod::Post => MethodOutcome::Proceed,
            _ => MethodOutcome::Refuse(400),
        },
        TransportKind::Websocket => match m {
            HttpMethod::Get => MethodOutcome::Proceed,
            _ => MethodOutcome::Refuse(405),
        },
    }
}

/// The greeting served at the bare mount prefix.
pub fn greeting_body() -> (r: String)
    ensures
        r@ == "Welcome to SockJS!\n"@,
{
    String::from_str("Welcome to SockJS!\n")
}

/// The configuration surface of the endpoint family.
pub struct SockJSConfig {
    /// Transport names treated as absent.
    pub disabled_transports: Vec<String>,
    /// Byte budget per streaming connection.
    pub max_size: usize,
    /// Whether `JSESSIONID` cookies are wanted, and reported by `info`.
    pub cookie_needed: bool,
}

impl SockJSConfig {
    pub fn new() -> (r: SockJSConfig)
        ensures
            r.disabled_transports.deep_view() == Seq::<Seq<char>>::empty(),
            r.max_size == MAXSIZE,
            !r.cookie_needed,
    {
        let r = SockJSConfig {
            disabled_transports: Vec::new(),
            max_size: MAXSIZE,
            cookie_needed: false,
        };
        proof {
            assert(r.disabled_transports.deep_view() =~= Seq::<Seq<char>>::empty());
        }
        r
    }

    /// Disables one more transport by name.
    pub fn disable_transport(&mut self, name: String)
        ensures
            final(self).disabled_transports.deep_view() == old(
                self,
            ).disabled_transports.deep_view().push(name@),
            final(self).max_size == old(self).max_size,
            final(self).cookie_needed == old(self).cookie_needed,
    {
        let ghost before = self.disabled_transports.deep_view();
        self.disabled_transports.push(name);
        proof {
            assert(self.disabled_transports.deep_view() =~= before.push(
                self.disabled_transports@[before.len() as int]@,
            ));
        }
    }

    /// Sets the streaming byte budget.
    pub fn maxsize(&mut self, size: usize)
        ensures
            *final(self) == (SockJSConfig { max_size: size, ..*old(self) }),
    {
        self.max_size = size;
    }

    /// Sets the cookie flag.
    pub fn set_cookie_needed(&mut self, val: bool)
        ensures
            *final(self) == (SockJSConfig { cookie_needed: val, ..*old(self) }),
    {
        self.cookie_needed = val;
    }

    /// Whether `info` reports the websocket transport as available.
    pub fn websocket_enabled(&self) -> (r: bool)
        ensures
            r == !name_listed(self.disabled_transports.deep_view(), "websocket"@),
    {
        let name = String::from_str("websocket");
        !is_listed(&self.disabled_transports, &name)
    }
}

} // verus!
