//! The inbound half: decoding the bodies posted to the `xhr_send` and
//! `jsonp_send` endpoints, websocket text payloads, and the callback
//! parameter of `htmlfile` and `jsonp`; and the raw websocket's outbound
//! rules.

use vstd::prelude::*;
use vstd::utf8::encode_utf8;
use crate::json::{json_msg, json_msgs, parse_msg_array, parse_msg_string};
use crate::manager::{Record, RecordV};
use crate::protocol::{Frame, FrameV, SessionState};
use crate::transport::AttachOutcome;

verus! {

/// What a send-endpoint body decodes to.
pub enum SendPayload {
    /// Body missing or unusable: `Payload expected.`
    PayloadExpected,
    /// Body present but not a JSON array of strings: `Broken JSON encoding.`
    BrokenJson,
    /// The decoded messages, in posting order (possibly none).
    Messages(Vec<String>),
}

/// Mathematical model of a decoded body.
pub enum SendPayloadV {
    PayloadExpected,
    BrokenJson,
    Messages(Seq<Seq<char>>),
}

impl View for SendPayload {
    type V = SendPayloadV;

    open spec fn view(&self) -> SendPayloadV {
        match self {
            SendPayload::PayloadExpected => SendPayloadV::PayloadExpected,
            SendPayload::BrokenJson => SendPayloadV::BrokenJson,
            SendPayload::Messages(v) => SendPayloadV::Messages(v.deep_view()),
        }
    }
}

/// How `xhr_send` reads its body: empty means no payload; the literal
/// `[]` is accepted with no messages; anything else must be a JSON array
/// of strings, delivered in order.
pub open spec fn spec_decode_send(body: Seq<u8>) -> SendPayloadV {
    if body.len() == 0 {
        SendPayloadV::PayloadExpected
    } else if body == seq!['[' as u8, ']' as u8] {
        SendPayloadV::Messages(Seq::<Seq<char>>::empty())
    } else {
        match json_msgs(body) {
            Option::None => SendPayloadV::BrokenJson,
            Option::Some(m) => SendPayloadV::Messages(m),
        }
    }
}

pub fn decode_send_body(body: &Vec<u8>) -> (r: SendPayload)
    ensures
        r@ == spec_decode_send(body@),
{
    if body.len() == 0 {
        return SendPayload::PayloadExpected;
    }
    let lb: u8 = '[' as u8;
    let rb: u8 = ']' as u8;
    if body.len() == 2 && body[0] == lb && body[1] == rb {
        proof {
            assert(body@ =~= seq!['[' as u8, ']' as u8]);
        }
        let empty: Vec<String> = Vec::new();
        proof {
            assert(empty.deep_view() =~= Seq::<Seq<char>>::empty());
        }
        return SendPayload::Messages(empty);
    }
    proof {
        assert(body@ != seq!['[' as u8, ']' as u8]);
    }
    match parse_msg_array(body.as_slice()) {
        Option::None => SendPayload::BrokenJson,
        Option::Some(v) => SendPayload::Messages(v),
    }
}

/// The characters the percent-decoded bytes spell, `None` when the
/// decoded bytes are not UTF-8; a function of the bytes alone.
pub uninterp spec fn pct_decoded(b: Seq<u8>) -> Option<Seq<char>>;

/// Relies on `percent_encoding::percent_decode` and `decode_utf8`: the
/// percent-decoded bytes as a string, failing exactly on non-UTF-8.
#[verifier::external_body]
pub(crate) fn percent_decode_utf8(b: &[u8]) -> (r: Option<String>)
    ensures
        r is Some <==> pct_decoded(b@) is Some,
        r matches Some(s) ==> pct_decoded(b@) matches Some(m) && s@ == m,
{
    match percent_encoding::percent_decode(b).decode_utf8() {
        Ok(c) => Some(c.into_owned()),
        Err(_) => None,
    }
}

/// How `jsonp_send` reads its body: a form-encoded body must carry the
/// JSON inside a `d=` field, percent-encoded; a raw body is the JSON
/// array itself.
pub open spec fn spec_decode_jsonp_send(body: Seq<u8>, urlencoded: bool) -> SendPayloadV {
    if body.len() == 0 {
        SendPayloadV::PayloadExpected
    } else if urlencoded {
        if body.len() <= 2 || body.take(2) != seq!['d' as u8, '=' as u8] {
            SendPayloadV::PayloadExpected
        } else {
            match pct_decoded(body.skip(2)) {
                Option::None => SendPayloadV::PayloadExpected,
                Option::Some(chars) => match json_msgs(encode_utf8(chars)) {
                    Option::None => SendPayloadV::BrokenJson,
                    Option::Some(m) => SendPayloadV::Messages(m),
                },
            }
        }
    } else {
        match json_msgs(body) {
            Option::None => SendPayloadV::BrokenJson,
            Option::Some(m) => SendPayloadV::Messages(m),
        }
    }
}

pub fn decode_jsonp_send_body(body: &Vec<u8>, urlencoded: bool) -> (r: SendPayload)
    ensures
        r@ == spec_decode_jsonp_send(body@, urlencoded),
{
    if body.len() == 0 {
        return SendPayload::PayloadExpected;
    }
    if urlencoded {
        let dc: u8 = 'd' as u8;
        let eq: u8 = '=' as u8;
        if body.len() <= 2 || !(body[0] == dc && body[1] == eq) {
            proof {
                if body@.len() > 2 {
                    assert(body@.take(2) != seq!['d' as u8, '=' as u8]) by {
                        if body@.take(2) == seq!['d' as u8, '=' as u8] {
                            assert(body@[0] == 'd' as u8 && body@[1] == '=' as u8);
                        }
                    }
                }
            }
            return SendPayload::PayloadExpected;
        }
        proof {
            assert(body@.take(2) =~= seq!['d' as u8, '=' as u8]);
        }
        let rest = slice_after_two(body);
        match percent_decode_utf8(rest) {
            Option::None => SendPayload::PayloadExpected,
            Option::Some(s) => {
                match parse_msg_array(s.as_str().as_bytes()) {
                    Option::None => SendPayload::BrokenJson,
                    Option::Some(v) => SendPayload::Messages(v),
                }
            },
        }
    } else {
        match parse_msg_array(body.as_slice()) {
            Option::None => SendPayload::BrokenJson,
            Option::Some(v) => SendPayload::Messages(v),
        }
    }
}

/// The bytes after the two-byte field prefix.
fn slice_after_two(body: &Vec<u8>) -> (r: &[u8])
    requires
        body@.len() > 2,
    ensures
        r@ == body@.skip(2),
{
    let r = body.as_slice().split_at(2).1;
    proof {
        assert(r@ =~= body@.skip(2));
    }
    r
}

/// An HTTP reply from a send endpoint.
pub struct SendReply {
    pub status: u16,
    pub body: String,
}

/// The reply `xhr_send` owes for a decoded body: 500 with the exact
/// diagnostic for a missing payload or broken JSON; 404 when messages
/// arrived for an unknown session; 204 with an empty body otherwise.
pub fn xhr_send_reply(payload: &SendPayload, session_known: bool) -> (r: SendReply)
    ensures
        payload@ is PayloadExpected ==> r.status == 500 && r.body@ == "Payload expected."@,
        payload@ is BrokenJson ==> r.status == 500 && r.body@ == "Broken JSON encoding."@,
        (payload@ matches SendPayloadV::Messages(m) && m.len() == 0) ==> r.status == 204
            && r.body@.len() == 0,
        (payload@ matches SendPayloadV::Messages(m) && m.len() > 0) ==> {
            &&& session_known ==> r.status == 204 && r.body@.len() == 0
            &&& !session_known ==> r.status == 404
        },
{
    match payload {
        SendPayload::PayloadExpected => SendReply {
            status: 500,
            body: String::from_str("Payload expected."),
        },
        SendPayload::BrokenJson => SendReply {
            status: 500,
            body: String::from_str("Broken JSON encoding."),
        },
        SendPayload::Messages(v) => {
            if v.len() == 0 {
                SendReply { status: 204, body: String::new() }
            } else if session_known {
                SendReply { status: 204, body: String::new() }
            } else {
                SendReply { status: 404, body: String::new() }
            }
        },
    }
}

/// The reply `jsonp_send` owes: as `xhr_send`, except success is
/// 200 `ok`.
pub fn jsonp_send_reply(payload: &SendPayload, session_known: bool) -> (r: SendReply)
    ensures
        payload@ is PayloadExpected ==> r.status == 500 && r.body@ == "Payload expected."@,
        payload@ is BrokenJson ==> r.status == 500 && r.body@ == "Broken JSON encoding."@,
        (payload@ matches SendPayloadV::Messages(m) && m.len() == 0) ==> r.status == 200
            && r.body@ == "ok"@,
        (payload@ matches SendPayloadV::Messages(m) && m.len() > 0) ==> {
            &&& session_known ==> r.status == 200 && r.body@ == "ok"@
            &&& !session_known ==> r.status == 404
        },
{
    match payload {
        SendPayload::PayloadExpected => SendReply {
            status: 500,
            body: String::from_str("Payload expected."),
        },
        SendPayload::BrokenJson => SendReply {
            status: 500,
            body: String::from_str("Broken JSON encoding."),
        },
        SendPayload::Messages(v) => {
            if v.len() == 0 {
                SendReply { status: 200, body: String::from_str("ok") }
            } else if session_known {
                SendReply { status: 200, body: String::from_str("ok") }
            } else {
                SendReply { status: 404, body: String::new() }
            }
        },
    }
}

/// What an inbound websocket text frame means.
pub enum WsInbound {
    /// Empty text: ignored.
    Ignore,
    /// Peer messages, in order.
    Messages(Vec<String>),
    /// Invalid JSON: close the socket with the invalid-payload code.
    CloseInvalid,
}

/// Mathematical model of an inbound websocket decision.
pub enum WsInboundV {
    Ignore,
    Messages(Seq<Seq<char>>),
    CloseInvalid,
}

impl View for WsInbound {
    type V = WsInboundV;

    open spec fn view(&self) -> WsInboundV {
        match self {
            WsInbound::Ignore => WsInboundV::Ignore,
            WsInbound::Messages(v) => WsInboundV::Messages(v.deep_view()),
            WsInbound::CloseInvalid => WsInboundV::CloseInvalid,
        }
    }
}

/// How the SockJS websocket reads inbound text: empty text is ignored;
/// text opening with `[` must be a JSON array of strings; any other text
/// must be a single JSON string; invalid JSON closes the socket.
pub open spec fn spec_ws_inbound(text: Seq<char>) -> WsInboundV {
    if text.len() == 0 {
        WsInboundV::Ignore
    } else if text[0] == '[' {
        match json_msgs(encode_utf8(text)) {
            Option::None => WsInboundV::CloseInvalid,
            Option::Some(m) => WsInboundV::Messages(m),
        }
    } else {
        match json_msg(encode_utf8(text)) {
            Option::None => WsInboundV::CloseInvalid,
            Option::Some(m) => WsInboundV::Messages(seq![m]),
        }
    }
}

pub fn ws_inbound(text: &str) -> (r: WsInbound)
    ensures
        r@ == spec_ws_inbound(text@),
{
    let n = text.unicode_len();
    if n == 0 {
        return WsInbound::Ignore;
    }
    if text.get_char(0) == '[' {
        match parse_msg_array(text.as_bytes()) {
            Option::None => WsInbound::CloseInvalid,
            Option::Some(v) => WsInbound::Messages(v),
        }
    } else {
        match parse_msg_string(text.as_bytes()) {
            Option::None => WsInbound::CloseInvalid,
            Option::Some(s) => {
                let mut v: Vec<String> = Vec::new();
                let ghost sv = s@;
                v.push(s);
                proof {
                    assert(v.deep_view() =~= seq![sv]);
                }
                WsInbound::Messages(v)
            },
        }
    }
}

/// A character the callback parameter may contain.
pub open spec fn is_cb_char(c: char) -> bool {
    ('a' <= c && c <= 'z') || ('A' <= c && c <= 'Z') || ('0' <= c && c <= '9') || c == '_' || c
        == '.'
}

/// A valid `c` query parameter for `htmlfile` and `jsonp`: non-empty,
/// letters, digits, underscore and dot only.
pub open spec fn valid_callback(s: Seq<char>) -> bool {
    s.len() > 0 && forall|i: int| 0 <= i < s.len() ==> is_cb_char(#[trigger] s[i])
}

pub fn check_callback(s: &str) -> (r: bool)
    ensures
        r == valid_callback(s@),
{
    let n = s.unicode_len();
    if n == 0 {
        return false;
    }
    let mut i: usize = 0;
    while i < n
        invariant
            i <= n,
            n == s@.len(),
            forall|k: int| 0 <= k < i ==> is_cb_char(#[trigger] s@[k]),
        decreases n - i,
    {
        let c = s.get_char(i);
        let ok = ('a' <= c && c <= 'z') || ('A' <= c && c <= 'Z') || ('0' <= c && c <= '9') || c
            == '_' || c == '.';
        if !ok {
            return false;
        }
        i = i + 1;
    }
    true
}

/// What the raw websocket puts on its socket for one frame.
pub enum RawWsOut {
    /// Nothing (the raw mode has no `Open` frame).
    Nothing,
    /// A text frame carrying the payload verbatim.
    Text(String),
    /// A binary frame carrying the payload verbatim.
    Binary(Vec<u8>),
    /// A websocket ping, the raw mode's heartbeat.
    Ping,
    /// A normal websocket close, reason `Go away!`.
    Close,
}

/// Mathematical model of a raw websocket output.
pub enum RawWsOutV {
    Nothing,
    Text(Seq<char>),
    Binary(Seq<u8>),
    Ping,
    Close,
}

impl View for RawWsOut {
    type V = RawWsOutV;

    open spec fn view(&self) -> RawWsOutV {
        match self {
            RawWsOut::Nothing => RawWsOutV::Nothing,
            RawWsOut::Text(t) => RawWsOutV::Text(t@),
            RawWsOut::Binary(b) => RawWsOutV::Binary(b@),
            RawWsOut::Ping => RawWsOutV::Ping,
            RawWsOut::Close => RawWsOutV::Close,
        }
    }
}

impl DeepView for RawWsOut {
    type V = RawWsOutV;

    open spec fn deep_view(&self) -> RawWsOutV {
        self.view()
    }
}

/// The raw wire form of one frame.
pub open spec fn raw_out(f: FrameV) -> RawWsOutV {
    match f {
        FrameV::Open => RawWsOutV::Nothing,
        FrameV::Heartbeat => RawWsOutV::Ping,
        FrameV::Message(s) => RawWsOutV::Text(s),
        FrameV::MessageVec(s) => RawWsOutV::Text(s),
        FrameV::MessageBlob(b) => RawWsOutV::Binary(b),
        FrameV::Close(_) => RawWsOutV::Close,
    }
}

/// The raw wire forms of a frame run, in order.
pub open spec fn raw_outs(fs: Seq<FrameV>) -> Seq<RawWsOutV> {
    fs.map_values(|f: FrameV| raw_out(f))
}

/// Record state after a raw run: terminal once any close frame went out.
pub open spec fn raw_state(st: SessionState, fs: Seq<FrameV>) -> SessionState
    decreases fs.len(),
{
    if fs.len() == 0 {
        st
    } else if fs[0] is Close {
        raw_state(SessionState::Closed, fs.skip(1))
    } else {
        raw_state(st, fs.skip(1))
    }
}

/// The raw websocket's outbound rules: payloads go out verbatim, without
/// SockJS framing; heartbeats are pings; a close frame closes the record
/// and the socket with a normal close.
pub fn raw_ws_send(f: Frame, record: &mut Record) -> (r: RawWsOut)
    ensures
        r@ == raw_out(f@),
        !(f@ is Close) ==> final(record)@ == old(record)@,
        f@ is Close ==> final(record)@ == (RecordV {
            state: SessionState::Closed,
            ..old(record)@
        }),
{
    match f {
        Frame::Open => RawWsOut::Nothing,
        Frame::Heartbeat => RawWsOut::Ping,
        Frame::Message(s) => RawWsOut::Text(s),
        Frame::MessageVec(s) => RawWsOut::Text(s),
        Frame::MessageBlob(b) => RawWsOut::Binary(b),
        Frame::Close(_) => {
            record.close();
            RawWsOut::Close
        },
    }
}

/// Flushes a record's buffered frames through the raw rules, in order.
pub fn raw_ws_flush(record: &mut Record) -> (outs: Vec<RawWsOut>)
    ensures
        outs.deep_view() == raw_outs(old(record)@.buffer),
        final(record)@ == (RecordV {
            state: raw_state(old(record)@.state, old(record)@.buffer),
            buffer: Seq::<FrameV>::empty(),
            ..old(record)@
        }),
{
    let ghost buf0 = record@.buffer;
    let n = record.buffer.len();
    proof {
        assert(buf0.len() == n);
    }
    let mut outs: Vec<RawWsOut> = Vec::new();
    let mut done: usize = 0;
    proof {
        assert(buf0.skip(0) =~= buf0);
        assert(buf0.take(0) =~= Seq::<FrameV>::empty());
        assert(raw_outs(buf0.take(0)) =~= Seq::<RawWsOutV>::empty());
        assert(outs.deep_view() =~= Seq::<RawWsOutV>::empty());
    }
    while record.buffer.len() > 0
        invariant
            done + record.buffer.len() == buf0.len(),
            buf0.len() <= usize::MAX,
            buf0 == old(record)@.buffer,
            record@.sid == old(record)@.sid,
            record.buffer.deep_view() =~= buf0.skip(done as int),
            outs.deep_view() =~= raw_outs(buf0.take(done as int)),
            raw_state(old(record)@.state, buf0) == raw_state(
                record@.state,
                buf0.skip(done as int),
            ),
        decreases record.buffer.len(),
    {
        let ghost pre = record.buffer.deep_view();
        let ghost stpre = record@.state;
        let f = record.buffer.remove(0);
        proof {
            assert(pre[0] == buf0.skip(done as int)[0]);
            assert(f@ == buf0[done as int]);
            assert(record.buffer.deep_view() =~= pre.skip(1));
            assert(record.buffer.deep_view() =~= buf0.skip(done as int + 1));
        }
        let o = raw_ws_send(f, record);
        let ghost oprev = outs.deep_view();
        outs.push(o);
        done = done + 1;
        proof {
            assert(outs.deep_view() =~= oprev.push(o@));
            assert(buf0.take(done as int).drop_last() =~= buf0.take(done as int - 1));
            assert(outs.deep_view() =~= raw_outs(buf0.take(done as int)));
            assert(buf0.skip(done as int - 1).skip(1) =~= buf0.skip(done as int));
        }
    }
    proof {
        assert(buf0.take(done as int) =~= buf0);
        assert(buf0.skip(done as int) =~= Seq::<FrameV>::empty());
        assert(record.buffer.deep_view() =~= Seq::<FrameV>::empty());
    }
    outs
}

/// The raw websocket attach sequence: a new session's `Open` produces no
/// output in raw mode, the buffered frames follow verbatim; an
/// interrupted or closed session gets the socket close at once and the
/// record goes straight back.
pub fn raw_ws_attach(record: &mut Record) -> (r: (Vec<RawWsOut>, AttachOutcome))
    ensures
        ({
            let st0 = old(record)@.state;
            let fs = if st0 == SessionState::New {
                seq![FrameV::Open] + old(record)@.buffer
            } else {
                old(record)@.buffer
            };
            (st0 == SessionState::New || st0 == SessionState::Running) ==> {
                &&& r.0.deep_view() == raw_outs(fs)
                &&& r.1 == AttachOutcome::Attached
                &&& final(record)@ == (RecordV {
                    state: raw_state(SessionState::Running, fs),
                    buffer: Seq::<FrameV>::empty(),
                    ..old(record)@
                })
            }
        }),
        (old(record)@.state == SessionState::Interrupted || old(record)@.state
            == SessionState::Closed) ==> {
            &&& r.0.deep_view() == seq![RawWsOutV::Close]
            &&& r.1 == AttachOutcome::Release
            &&& final(record)@ == (RecordV { state: SessionState::Closed, ..old(record)@ })
        },
{
    match record.state {
        SessionState::Interrupted | SessionState::Closed => {
            record.close();
            let mut outs: Vec<RawWsOut> = Vec::new();
            outs.push(RawWsOut::Close);
            proof {
                assert(outs.deep_view() =~= seq![RawWsOutV::Close]);
            }
            (outs, AttachOutcome::Release)
        },
        SessionState::New => {
            record.state = SessionState::Running;
            let ghost buf0 = record@.buffer;
            let ghost fs = seq![FrameV::Open] + buf0;
            let ghost restdv = raw_outs(buf0);
            let mut outs = raw_ws_flush(record);
            outs.insert(0, RawWsOut::Nothing);
            proof {
                assert(fs[0] == FrameV::Open);
                assert(fs.skip(1) =~= buf0);
                assert(outs.deep_view() =~= seq![RawWsOutV::Nothing] + restdv);
                assert(outs.deep_view() =~= raw_outs(fs));
                assert(raw_state(SessionState::Running, fs) == raw_state(
                    SessionState::Running,
                    buf0,
                ));
            }
            (outs, AttachOutcome::Attached)
        },
        SessionState::Running => {
            let outs = raw_ws_flush(record);
            (outs, AttachOutcome::Attached)
        },
    }
}

} // verus!
