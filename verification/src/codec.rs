//! Per-transport wire framing: the textual form of each frame and the
//! wrapping each transport applies around it, plus the fixed preludes.

use vstd::prelude::*;
use crate::json::{json_quote, json_quote_str};
use crate::protocol::{CloseCode, Frame, FrameV};

verus! {

/// Decimal digits of a close code's number.
pub open spec fn code_digits(c: CloseCode) -> Seq<char> {
    match c {
        CloseCode::Interrupted => "1002"@,
        CloseCode::Acquired => "2010"@,
        CloseCode::GoAway => "3000"@,
        CloseCode::InternalError => "3000"@,
    }
}

/// Textual form of a close frame: `c[<code>,"<reason>"]`.
pub open spec fn close_chars(c: CloseCode) -> Seq<char> {
    "c["@ + code_digits(c) + ",\""@ + c.reason_text() + "\"]"@
}

/// Base textual form of a frame, before any transport-specific wrapping
/// or terminator. Blob frames have no textual form.
pub open spec fn frame_chars(f: FrameV) -> Seq<char> {
    match f {
        FrameV::Open => "o"@,
        FrameV::Heartbeat => "h"@,
        FrameV::Message(s) => "a["@ + json_quote(s) + "]"@,
        FrameV::MessageVec(s) => "a"@ + s,
        FrameV::MessageBlob(_) => Seq::<char>::empty(),
        FrameV::Close(c) => close_chars(c),
    }
}

pub fn encode_close(c: CloseCode) -> (r: String)
    ensures
        r@ == close_chars(c),
{
    let mut out: String = String::from_str("c[");
    let digits: &str = match c {
        CloseCode::Interrupted => "1002",
        CloseCode::Acquired => "2010",
        CloseCode::GoAway | CloseCode::InternalError => "3000",
    };
    out.append(digits);
    out.append(",\"");
    out.append(c.reason());
    out.append("\"]");
    out
}

/// Encodes a frame to its base textual form.
pub fn encode_frame(f: &Frame) -> (r: String)
    requires
        !(f@ is MessageBlob),
    ensures
        r@ == frame_chars(f@),
{
    match f {
        Frame::Open => String::from_str("o"),
        Frame::Heartbeat => String::from_str("h"),
        Frame::Message(s) => {
            let mut out: String = String::from_str("a[");
            let q = json_quote_str(s.as_str());
            out.append(q.as_str());
            out.append("]");
            out
        },
        Frame::MessageVec(s) => {
            let mut out: String = String::from_str("a");
            out.append(s.as_str());
            out
        },
        Frame::MessageBlob(_) => unreached(),
        Frame::Close(c) => encode_close(*c),
    }
}

/// `xhr` and `xhr_streaming` wire form: one frame per line.
pub open spec fn xhr_line(f: FrameV) -> Seq<char> {
    frame_chars(f) + "\n"@
}

pub fn encode_xhr(f: &Frame) -> (r: String)
    requires
        !(f@ is MessageBlob),
    ensures
        r@ == xhr_line(f@),
{
    let mut out = encode_frame(f);
    out.append("\n");
    out
}

/// `eventsource` wire form: the frame as one server-sent event.
pub open spec fn eventsource_chunk(f: FrameV) -> Seq<char> {
    "data: "@ + frame_chars(f) + "\r\n\r\n"@
}

pub fn encode_eventsource(f: &Frame) -> (r: String)
    requires
        !(f@ is MessageBlob),
    ensures
        r@ == eventsource_chunk(f@),
{
    let mut out: String = String::from_str("data: ");
    let base = encode_frame(f);
    out.append(base.as_str());
    out.append("\r\n\r\n");
    out
}

/// `htmlfile` wire form: the frame, JSON-quoted, handed to the parent
/// page's callback inside a script tag.
pub open spec fn htmlfile_chunk(f: FrameV) -> Seq<char> {
    "<script>\np("@ + json_quote(frame_chars(f)) + ");\n</script>\r\n"@
}

pub fn encode_htmlfile(f: &Frame) -> (r: String)
    requires
        !(f@ is MessageBlob),
    ensures
        r@ == htmlfile_chunk(f@),
{
    let base = encode_frame(f);
    let q = json_quote_str(base.as_str());
    let mut out: String = String::from_str("<script>\np(");
    out.append(q.as_str());
    out.append(");\n</script>\r\n");
    out
}

/// `jsonp` wire form: the frame, JSON-quoted, as a single callback
/// invocation.
pub open spec fn jsonp_chunk(cb: Seq<char>, f: FrameV) -> Seq<char> {
    "/**/"@ + cb + "("@ + json_quote(frame_chars(f)) + ");\r\n"@
}

pub fn encode_jsonp(cb: &str, f: &Frame) -> (r: String)
    requires
        !(f@ is MessageBlob),
    ensures
        r@ == jsonp_chunk(cb@, f@),
{
    let base = encode_frame(f);
    let q = json_quote_str(base.as_str());
    let mut out: String = String::from_str("/**/");
    out.append(cb);
    out.append("(");
    out.append(q.as_str());
    out.append(");\r\n");
    out
}

/// `websocket` (SockJS framing) wire form: the bare frame text.
pub open spec fn websocket_text(f: FrameV) -> Seq<char> {
    frame_chars(f)
}

pub fn encode_websocket(f: &Frame) -> (r: String)
    requires
        !(f@ is MessageBlob),
    ensures
        r@ == websocket_text(f@),
{
    encode_frame(f)
}

/// Number of padding bytes in the `xhr_streaming` prelude.
pub const STREAMING_PAD: usize = 2049;

/// The `xhr_streaming` prelude: `h` padding, then a newline.
pub open spec fn streaming_prelude_chars() -> Seq<char> {
    Seq::new((STREAMING_PAD + 1) as nat, |i: int| if i == STREAMING_PAD { '\n' } else { 'h' })
}

pub fn streaming_prelude() -> (r: String)
    ensures
        r@ == streaming_prelude_chars(),
{
    let mut out = String::new();
    let mut i: usize = 0;
    while i < STREAMING_PAD
        invariant
            i <= STREAMING_PAD,
            out@ =~= Seq::new(i as nat, |j: int| 'h'),
        decreases STREAMING_PAD - i,
    {
        out.append("h");
        proof {
            reveal_strlit("h");
            assert(out@ =~= Seq::new((i + 1) as nat, |j: int| 'h'));
        }
        i = i + 1;
    }
    out.append("\n");
    proof {
        reveal_strlit("\n");
        assert(out@ =~= streaming_prelude_chars());
    }
    out
}

/// Width of the whitespace padding in the `htmlfile` prelude.
pub const HTMLFILE_PAD: usize = 1024;

/// The padding characters.
pub open spec fn htmlfile_pad_chars() -> Seq<char> {
    Seq::new(HTMLFILE_PAD as nat, |i: int| ' ')
}

/// The `htmlfile` prelude: the HTML scaffold that hands frames to the
/// parent page's callback, padded so browsers start rendering.
pub open spec fn htmlfile_prelude_chars(cb: Seq<char>) -> Seq<char> {
    "\n<!doctype html>\n<html><head>\n  <meta http-equiv=\"X-UA-Compatible\" content=\"IE=edge\" />\n  <meta http-equiv=\"Content-Type\" content=\"text/html; charset=UTF-8\" />\n</head><body><h2>Don't panic!</h2>\n  <script>\n    document.domain = document.domain;\n    var c = parent."@
        + cb
        + ";\n    c.start();\n    function p(d) {c.message(d);};\n    window.onload = function() {c.stop();};\n  </script>"@
        + htmlfile_pad_chars()
}

pub fn htmlfile_prelude(cb: &str) -> (r: String)
    ensures
        r@ == htmlfile_prelude_chars(cb@),
{
    let mut out: String = String::from_str(
        "\n<!doctype html>\n<html><head>\n  <meta http-equiv=\"X-UA-Compatible\" content=\"IE=edge\" />\n  <meta http-equiv=\"Content-Type\" content=\"text/html; charset=UTF-8\" />\n</head><body><h2>Don't panic!</h2>\n  <script>\n    document.domain = document.domain;\n    var c = parent.",
    );
    out.append(cb);
    out.append(
        ";\n    c.start();\n    function p(d) {c.message(d);};\n    window.onload = function() {c.stop();};\n  </script>",
    );
    let ghost head = out@;
    let mut i: usize = 0;
    while i < HTMLFILE_PAD
        invariant
            i <= HTMLFILE_PAD,
            out@ =~= head + Seq::new(i as nat, |j: int| ' '),
        decreases HTMLFILE_PAD - i,
    {
        out.append(" ");
        proof {
            reveal_strlit(" ");
            assert(out@ =~= head + Seq::new((i + 1) as nat, |j: int| ' '));
        }
        i = i + 1;
    }
    proof {
        assert(out@ =~= htmlfile_prelude_chars(cb@));
    }
    out
}

/// The `eventsource` prelude.
pub fn eventsource_prelude() -> (r: String)
    ensures
        r@ == "\r\n"@,
{
    String::from_str("\r\n")
}

} // verus!
