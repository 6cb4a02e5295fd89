//! The transport event loop, shared by every HTTP transport and the
//! SockJS websocket: sending one frame, flushing a record's buffer,
//! the attach sequence, and the channel event handlers. Streaming
//! transports account every byte written against `maxsize`.

use vstd::prelude::*;
use vstd::utf8::encode_utf8;
use crate::codec::{
    encode_eventsource, encode_htmlfile, encode_jsonp, encode_websocket, encode_xhr,
    eventsource_chunk, htmlfile_chunk, jsonp_chunk, websocket_text, xhr_line,
};
use crate::manager::{Record, RecordV};
use crate::protocol::{CloseCode, Frame, FrameV, SendResult, SessionState};

verus! {

/// Byte limit on request bodies, and the default per-connection budget of
/// streaming transports.
pub const MAXSIZE: usize = 131072;

/// Which wire framing a transport uses.
#[derive(Clone, Copy, Debug, PartialEq, Eq, Structural)]
pub enum Framing {
    Xhr,
    XhrStreaming,
    EventSource,
    HtmlFile,
    Jsonp,
    Websocket,
}

/// Polling transports close after one frame.
pub open spec fn is_polling(fr: Framing) -> bool {
    fr is Xhr || fr is Jsonp
}

/// Streaming transports run until their byte budget is spent.
pub open spec fn is_streaming(fr: Framing) -> bool {
    fr is XhrStreaming || fr is EventSource || fr is HtmlFile
}

/// The characters a frame puts on the wire under a framing (`cb` is the
/// callback name, used by `jsonp` only).
pub open spec fn wire_chunk(fr: Framing, cb: Seq<char>, f: FrameV) -> Seq<char> {
    match fr {
        Framing::Xhr => xhr_line(f),
        Framing::XhrStreaming => xhr_line(f),
        Framing::EventSource => eventsource_chunk(f),
        Framing::HtmlFile => htmlfile_chunk(f),
        Framing::Jsonp => jsonp_chunk(cb, f),
        Framing::Websocket => websocket_text(f),
    }
}

/// Bytes of a frame's wire form.
pub open spec fn chunk_bytes(fr: Framing, cb: Seq<char>, f: FrameV) -> int {
    encode_utf8(wire_chunk(fr, cb, f)).len() as int
}

/// Whether the transport stops after putting `f` on the wire, with
/// `size_after` bytes written so far.
pub open spec fn stops_after(fr: Framing, size_after: int, maxsize: int, f: FrameV) -> bool {
    if fr is Websocket {
        false
    } else if f is Close {
        true
    } else if is_polling(fr) {
        true
    } else {
        size_after > maxsize
    }
}

/// Record state after a frame went out: a close frame is terminal.
pub open spec fn step_state(st: SessionState, f: FrameV) -> SessionState {
    if f is Close {
        SessionState::Closed
    } else {
        st
    }
}

/// Everything one pass over a frame sequence produces.
pub struct DrainOut {
    /// Characters written to the wire, in order.
    pub out: Seq<char>,
    /// Byte counter afterwards.
    pub size: int,
    /// Record state afterwards.
    pub state: SessionState,
    /// Frames not yet sent when the pass stopped.
    pub rest: Seq<FrameV>,
    /// Whether the loop goes on.
    pub res: SendResult,
}

/// The transport event loop on a frame sequence: frames go out in order,
/// a close frame closes the record, and the pass stops at the first frame
/// whose emission stops the transport, leaving the rest unsent.
pub open spec fn drain(
    fr: Framing,
    cb: Seq<char>,
    size: int,
    maxsize: int,
    st: SessionState,
    fs: Seq<FrameV>,
) -> DrainOut
    decreases fs.len(),
{
    if fs.len() == 0 {
        DrainOut { out: Seq::<char>::empty(), size, state: st, rest: Seq::<FrameV>::empty(), res: SendResult::Continue }
    } else {
        let f = fs[0];
        let nsize = if is_streaming(fr) {
            size + chunk_bytes(fr, cb, f)
        } else {
            size
        };
        let nst = step_state(st, f);
        if stops_after(fr, nsize, maxsize, f) {
            DrainOut { out: wire_chunk(fr, cb, f), size: nsize, state: nst, rest: fs.skip(1), res: SendResult::Stop }
        } else {
            let d = drain(fr, cb, nsize, maxsize, nst, fs.skip(1));
            DrainOut { out: wire_chunk(fr, cb, f) + d.out, size: d.size, state: d.state, rest: d.rest, res: d.res }
        }
    }
}

/// No frame of `fs` is a blob (blobs have no textual wire form).
pub open spec fn no_blobs(fs: Seq<FrameV>) -> bool {
    forall|i: int| 0 <= i < fs.len() ==> !(#[trigger] fs[i] is MessageBlob)
}

/// An event arriving on a transport's channel.
pub enum ChannelItem {
    /// An outbound frame from the session.
    Frame(Frame),
    /// The attach-time flush is complete.
    Ready,
}

/// What becomes of the transport after the attach sequence.
#[derive(Clone, Copy, Debug, PartialEq, Eq, Structural)]
pub enum AttachOutcome {
    /// The transport holds the record and enters its event loop.
    Attached,
    /// The record must be released at once.
    Release,
}

/// Per-connection mutable state of a transport.
pub struct TransportState {
    /// Wire framing.
    pub framing: Framing,
    /// Callback name (used by `jsonp`; empty elsewhere).
    pub callback: String,
    /// Bytes written since the prelude.
    pub size: u128,
    /// Byte budget of a streaming connection.
    pub maxsize: usize,
    /// The attach-time flush has completed.
    pub ready: bool,
    /// Release the record as soon as the flush completes.
    pub release_after_ready: bool,
}

impl TransportState {
    pub fn new(framing: Framing, callback: String, maxsize: usize) -> (r: TransportState)
        ensures
            r == (TransportState {
                framing,
                callback,
                size: 0u128,
                maxsize,
                ready: false,
                release_after_ready: false,
            }),
    {
        TransportState { framing, callback, size: 0, maxsize, ready: false, release_after_ready: false }
    }

    /// Puts one frame on the wire: returns its wire form and whether the
    /// transport stops; a close frame closes the record.
    pub fn send(&mut self, msg: &Frame, record: &mut Record) -> (r: (String, SendResult))
        requires
            !(msg@ is MessageBlob),
            is_streaming(old(self).framing) ==> old(self).size <= old(self).maxsize as u128,
        ensures
            ({
                let d = drain(
                    old(self).framing,
                    old(self).callback@,
                    old(self).size as int,
                    old(self).maxsize as int,
                    old(record)@.state,
                    seq![msg@],
                );
                &&& r.0@ == d.out
                &&& r.1 == d.res
                &&& final(self).size as int == d.size
                &&& *final(self) == (TransportState { size: final(self).size, ..*old(self) })
                &&& final(record)@ == (RecordV { state: d.state, ..old(record)@ })
            }),
    {
        let ghost d = drain(
            self.framing,
            self.callback@,
            self.size as int,
            self.maxsize as int,
            record@.state,
            seq![msg@],
        );
        let chunk: String = match self.framing {
            Framing::Xhr | Framing::XhrStreaming => encode_xhr(msg),
            Framing::EventSource => encode_eventsource(msg),
            Framing::HtmlFile => encode_htmlfile(msg),
            Framing::Jsonp => encode_jsonp(self.callback.as_str(), msg),
            Framing::Websocket => encode_websocket(msg),
        };
        let is_close = matches!(msg, Frame::Close(_));
        if is_close {
            record.close();
        }
        let streaming = matches!(
            self.framing,
            Framing::XhrStreaming | Framing::EventSource | Framing::HtmlFile
        );
        if streaming {
            let inc = chunk.as_str().as_bytes().len();
            proof {
                assert(inc as int == chunk_bytes(self.framing, self.callback@, msg@));
            }
            self.size = self.size + (inc as u128);
        }
        let stop: bool = match self.framing {
            Framing::Xhr | Framing::Jsonp => true,
            Framing::Websocket => false,
            Framing::XhrStreaming | Framing::EventSource | Framing::HtmlFile => is_close
                || self.size > (self.maxsize as u128),
        };
        proof {
            reveal_with_fuel(drain, 2);
            assert(seq![msg@].len() == 1);
            assert(seq![msg@][0] == msg@);
            assert(seq![msg@].skip(1) =~= Seq::<FrameV>::empty());
            let fr = old(self).framing;
            let cbv = old(self).callback@;
            let sz = old(self).size as int;
            let mx = old(self).maxsize as int;
            let st = old(record)@.state;
            let ch = wire_chunk(fr, cbv, msg@);
            assert(ch + Seq::<char>::empty() =~= ch);
            let nsize: int = if is_streaming(fr) {
                sz + chunk_bytes(fr, cbv, msg@)
            } else {
                sz
            };
            assert(chunk@ == ch);
            assert(self.size as int == nsize);
            assert(stop == stops_after(fr, nsize, mx, msg@));
            if stops_after(fr, nsize, mx, msg@) {
                assert(d.out == ch && d.res is Stop && d.size == nsize && d.state == step_state(
                    st,
                    msg@,
                ));
            } else {
                assert(d.out == ch && d.res is Continue && d.size == nsize && d.state
                    == step_state(st, msg@));
            }
        }
        if stop {
            (chunk, SendResult::Stop)
        } else {
            (chunk, SendResult::Continue)
        }
    }

    /// Flushes the record's buffered frames in order, stopping early if
    /// one of them stops the transport; the unsent remainder stays
    /// buffered.
    pub fn send_buffered(&mut self, record: &mut Record) -> (r: (String, SendResult))
        requires
            no_blobs(old(record)@.buffer),
            is_streaming(old(self).framing) ==> old(self).size <= old(self).maxsize as u128,
        ensures
            ({
                let d = drain(
                    old(self).framing,
                    old(self).callback@,
                    old(self).size as int,
                    old(self).maxsize as int,
                    old(record)@.state,
                    old(record)@.buffer,
                );
                &&& r.0@ == d.out
                &&& r.1 == d.res
                &&& final(self).size as int == d.size
                &&& *final(self) == (TransportState { size: final(self).size, ..*old(self) })
                &&& final(record)@ == (RecordV {
                    state: d.state,
                    buffer: d.rest,
                    ..old(record)@
                })
                &&& (r.1 is Continue ==> d.rest.len() == 0)
            }),
    {
        let ghost fr0 = self.framing;
        let ghost cb0 = self.callback@;
        let ghost max0 = self.maxsize as int;
        let ghost d0 = drain(
            fr0,
            cb0,
            self.size as int,
            max0,
            record@.state,
            record@.buffer,
        );
        let mut out = String::new();
        loop
            invariant
                d0 == drain(
                    old(self).framing,
                    old(self).callback@,
                    old(self).size as int,
                    old(self).maxsize as int,
                    old(record)@.state,
                    old(record)@.buffer,
                ),
                self.framing == fr0,
                self.callback@ == cb0,
                self.maxsize as int == max0,
                no_blobs(record@.buffer),
                is_streaming(fr0) ==> self.size <= self.maxsize as u128,
                record@.sid == old(record)@.sid,
                *self == (TransportState { size: self.size, ..*old(self) }),
                ({
                    let dc = drain(
                        fr0,
                        cb0,
                        self.size as int,
                        max0,
                        record@.state,
                        record@.buffer,
                    );
                    d0 == (DrainOut {
                        out: out@ + dc.out,
                        size: dc.size,
                        state: dc.state,
                        rest: dc.rest,
                        res: dc.res,
                    })
                }),
            decreases record@.buffer.len(),
        {
            if record.buffer.len() == 0 {
                proof {
                    let dc = drain(fr0, cb0, self.size as int, max0, record@.state, record@.buffer);
                    assert(record@.buffer.len() == 0);
                    assert(record@.buffer =~= Seq::<FrameV>::empty());
                    assert(dc.out == Seq::<char>::empty() && dc.res is Continue && dc.size
                        == self.size as int && dc.state == record@.state && dc.rest
                        == Seq::<FrameV>::empty());
                    assert(out@ + dc.out =~= out@);
                    assert(d0.out == out@);
                }
                return (out, SendResult::Continue);
            }
            let ghost bufpre = record@.buffer;
            let ghost sizepre = self.size as int;
            let ghost stpre = record@.state;
            let f = record.buffer.remove(0);
            proof {
                assert(record.buffer.deep_view() =~= bufpre.skip(1));
                assert(f@ == bufpre[0]);
            }
            let ghost outpre = out@;
            let (chunk, res) = self.send(&f, record);
            out.append(chunk.as_str());
            proof {
                reveal_with_fuel(drain, 2);
                assert(seq![f@].len() == 1);
                assert(seq![f@][0] == f@);
                assert(seq![f@].skip(1) =~= Seq::<FrameV>::empty());
                let one = drain(fr0, cb0, sizepre, max0, stpre, seq![f@]);
                let ch = wire_chunk(fr0, cb0, f@);
                let nsize: int = if is_streaming(fr0) {
                    sizepre + chunk_bytes(fr0, cb0, f@)
                } else {
                    sizepre
                };
                assert(ch + Seq::<char>::empty() =~= ch);
                assert(one.out == ch && one.size == nsize && one.state == step_state(stpre, f@));
                assert(one.res is Stop <==> stops_after(fr0, nsize, max0, f@));
            }
            if matches!(res, SendResult::Stop) {
                proof {
                    let dcpre = drain(fr0, cb0, sizepre, max0, stpre, bufpre);
                    let ch = wire_chunk(fr0, cb0, bufpre[0]);
                    let nsize: int = if is_streaming(fr0) {
                        sizepre + chunk_bytes(fr0, cb0, bufpre[0])
                    } else {
                        sizepre
                    };
                    assert(stops_after(fr0, nsize, max0, bufpre[0]));
                    assert(dcpre.out == ch && dcpre.res is Stop && dcpre.size == nsize
                        && dcpre.state == step_state(stpre, bufpre[0]) && dcpre.rest
                        == bufpre.skip(1));
                    assert(out@ == outpre + ch);
                    assert(out@ =~= d0.out);
                }
                return (out, SendResult::Stop);
            }
            proof {
                let dcpre = drain(fr0, cb0, sizepre, max0, stpre, bufpre);
                let dc = drain(
                    fr0,
                    cb0,
                    self.size as int,
                    max0,
                    record@.state,
                    record@.buffer,
                );
                let ch = wire_chunk(fr0, cb0, bufpre[0]);
                let nsize: int = if is_streaming(fr0) {
                    sizepre + chunk_bytes(fr0, cb0, bufpre[0])
                } else {
                    sizepre
                };
                assert(!stops_after(fr0, nsize, max0, bufpre[0]));
                assert(self.size as int == nsize && record@.state == step_state(
                    stpre,
                    bufpre[0],
                ) && record@.buffer == bufpre.skip(1));
                assert(dcpre.out == ch + dc.out && dcpre.size == dc.size && dcpre.state
                    == dc.state && dcpre.rest == dc.rest && dcpre.res == dc.res);
                assert(out@ == outpre + ch);
                assert((outpre + ch) + dc.out =~= outpre + (ch + dc.out));
                assert(out@ + dc.out == d0.out);
            }
        }
    }

    /// The attach sequence, from the state of the just-acquired record:
    /// a new session gets `Open` first, then the buffered frames; a
    /// running one gets the buffered frames; an interrupted or closed one
    /// gets the matching close frame and the record goes straight back.
    pub fn attach(&mut self, record: &mut Record) -> (r: (String, AttachOutcome))
        requires
            no_blobs(old(record)@.buffer),
            is_streaming(old(self).framing) ==> old(self).size <= old(self).maxsize as u128,
        ensures
            ({
                let st0 = old(record)@.state;
                let fs = if st0 == SessionState::New {
                    seq![FrameV::Open] + old(record)@.buffer
                } else {
                    old(record)@.buffer
                };
                let d = drain(
                    old(self).framing,
                    old(self).callback@,
                    old(self).size as int,
                    old(self).maxsize as int,
                    SessionState::Running,
                    fs,
                );
                (st0 == SessionState::New || st0 == SessionState::Running) ==> {
                    &&& r.0@ == d.out
                    &&& r.1 == AttachOutcome::Attached
                    &&& final(self).size as int == d.size
                    &&& *final(self) == (TransportState {
                        size: final(self).size,
                        release_after_ready: (d.res is Stop),
                        ..*old(self)
                    })
                    &&& final(record)@ == (RecordV {
                        state: d.state,
                        buffer: d.rest,
                        ..old(record)@
                    })
                }
            }),
            old(record)@.state == SessionState::Interrupted ==> {
                &&& r.0@ == wire_chunk(
                    old(self).framing,
                    old(self).callback@,
                    FrameV::Close(CloseCode::Interrupted),
                )
                &&& r.1 == AttachOutcome::Release
                &&& final(record)@ == (RecordV { state: SessionState::Closed, ..old(record)@ })
            },
            old(record)@.state == SessionState::Closed ==> {
                &&& r.0@ == wire_chunk(
                    old(self).framing,
                    old(self).callback@,
                    FrameV::Close(CloseCode::GoAway),
                )
                &&& r.1 == AttachOutcome::Release
                &&& final(record)@ == (RecordV { state: SessionState::Closed, ..old(record)@ })
            },
    {
        match record.state {
            SessionState::Interrupted => {
                let (o, _res) = self.send(&Frame::Close(CloseCode::Interrupted), record);
                proof {
                    reveal_with_fuel(drain, 2);
                    let f = FrameV::Close(CloseCode::Interrupted);
                    assert(seq![f].len() == 1);
                    assert(seq![f][0] == f);
                    assert(seq![f].skip(1) =~= Seq::<FrameV>::empty());
                    let ch = wire_chunk(old(self).framing, old(self).callback@, f);
                    assert(ch + Seq::<char>::empty() =~= ch);
                }
                (o, AttachOutcome::Release)
            },
            SessionState::Closed => {
                let (o, _res) = self.send(&Frame::Close(CloseCode::GoAway), record);
                proof {
                    reveal_with_fuel(drain, 2);
                    let f = FrameV::Close(CloseCode::GoAway);
                    assert(seq![f].len() == 1);
                    assert(seq![f][0] == f);
                    assert(seq![f].skip(1) =~= Seq::<FrameV>::empty());
                    let ch = wire_chunk(old(self).framing, old(self).callback@, f);
                    assert(ch + Seq::<char>::empty() =~= ch);
                }
                (o, AttachOutcome::Release)
            },
            SessionState::New => {
                record.state = SessionState::Running;
                let ghost fr = old(self).framing;
                let ghost cbv = old(self).callback@;
                let ghost sz0 = old(self).size as int;
                let ghost mx = old(self).maxsize as int;
                let ghost buf0 = old(record)@.buffer;
                let ghost fs = seq![FrameV::Open] + buf0;
                let (o1, r1) = self.send(&Frame::Open, record);
                proof {
                    reveal_with_fuel(drain, 2);
                    assert(fs.len() == buf0.len() + 1);
                    assert(fs[0] == FrameV::Open);
                    assert(fs.skip(1) =~= buf0);
                    assert(seq![FrameV::Open].len() == 1);
                    assert(seq![FrameV::Open][0] == FrameV::Open);
                    assert(seq![FrameV::Open].skip(1) =~= Seq::<FrameV>::empty());
                    let ch = wire_chunk(fr, cbv, FrameV::Open);
                    assert(ch + Seq::<char>::empty() =~= ch);
                }
                if matches!(r1, SendResult::Stop) {
                    self.release_after_ready = true;
                    proof {
                        let ch = wire_chunk(fr, cbv, FrameV::Open);
                        let d = drain(fr, cbv, sz0, mx, SessionState::Running, fs);
                        assert(d.out == ch && d.res is Stop && d.rest == buf0);
                    }
                    (o1, AttachOutcome::Attached)
                } else {
                    proof {
                        if is_streaming(fr) {
                            let nsize1 = sz0 + chunk_bytes(fr, cbv, FrameV::Open);
                            assert(!stops_after(fr, nsize1, mx, FrameV::Open));
                            assert(self.size as int == nsize1);
                            assert(self.size <= self.maxsize as u128);
                        }
                    }
                    let mut out = o1;
                    let (o2, r2) = self.send_buffered(record);
                    out.append(o2.as_str());
                    proof {
                        let ch = wire_chunk(fr, cbv, FrameV::Open);
                        let nsize1: int = if is_streaming(fr) {
                            sz0 + chunk_bytes(fr, cbv, FrameV::Open)
                        } else {
                            sz0
                        };
                        let d = drain(fr, cbv, sz0, mx, SessionState::Running, fs);
                        let d2 = drain(fr, cbv, nsize1, mx, SessionState::Running, buf0);
                        assert(d.out == ch + d2.out && d.size == d2.size && d.state == d2.state
                            && d.rest == d2.rest && d.res == d2.res);
                        assert(o1@ =~= ch);
                        assert(out@ =~= ch + d2.out);
                    }
                    if matches!(r2, SendResult::Stop) {
                        self.release_after_ready = true;
                    } else {
                        self.release_after_ready = false;
                    }
                    (out, AttachOutcome::Attached)
                }
            },
            SessionState::Running => {
                let (out, res) = self.send_buffered(record);
                if matches!(res, SendResult::Stop) {
                    self.release_after_ready = true;
                } else {
                    self.release_after_ready = false;
                }
                (out, AttachOutcome::Attached)
            },
        }
    }

    /// One event from the session's channel. Returns the wire output and
    /// whether the transport must now release the record.
    pub fn handle_message(&mut self, item: ChannelItem, record: &mut Record) -> (r: (
        String,
        bool,
    ))
        requires
            (item matches ChannelItem::Frame(f) ==> !(f@ is MessageBlob)),
            no_blobs(old(record)@.buffer),
            is_streaming(old(self).framing) ==> old(self).size <= old(self).maxsize as u128,
        ensures
            item matches ChannelItem::Frame(f) ==> ({
                let d = drain(
                    old(self).framing,
                    old(self).callback@,
                    old(self).size as int,
                    old(self).maxsize as int,
                    old(record)@.state,
                    seq![f@],
                );
                &&& old(self).ready ==> {
                    &&& r.0@ == d.out
                    &&& r.1 == (d.res is Stop)
                    &&& final(self).size as int == d.size
                    &&& *final(self) == (TransportState { size: final(self).size, ..*old(self) })
                    &&& final(record)@ == (RecordV { state: d.state, ..old(record)@ })
                }
                &&& !old(self).ready ==> {
                    &&& r.0@ == Seq::<char>::empty()
                    &&& r.1 == false
                    &&& final(record)@ == (RecordV {
                        buffer: old(record)@.buffer.push(f@),
                        ..old(record)@
                    })
                    &&& *final(self) == *old(self)
                }
            }),
            item is Ready ==> ({
                let d = drain(
                    old(self).framing,
                    old(self).callback@,
                    old(self).size as int,
                    old(self).maxsize as int,
                    old(record)@.state,
                    old(record)@.buffer,
                );
                &&& r.0@ == d.out
                &&& r.1 == ((d.res is Stop) || old(self).release_after_ready)
                &&& final(self).size as int == d.size
                &&& *final(self) == (TransportState {
                    size: final(self).size,
                    ready: final(self).ready,
                    ..*old(self)
                })
                &&& final(self).ready == (if r.1 { old(self).ready } else { true })
                &&& final(record)@ == (RecordV {
                    state: d.state,
                    buffer: d.rest,
                    ..old(record)@
                })
            }),
    {
        match item {
            ChannelItem::Frame(f) => {
                if self.ready {
                    let (out, res) = self.send(&f, record);
                    (out, matches!(res, SendResult::Stop))
                } else {
                    record.add(f);
                    (String::new(), false)
                }
            },
            ChannelItem::Ready => {
                let (out, res) = self.send_buffered(record);
                if matches!(res, SendResult::Stop) {
                    (out, true)
                } else if self.release_after_ready {
                    (out, true)
                } else {
                    self.ready = true;
                    (out, false)
                }
            },
        }
    }

    /// A broadcast frame reaches this attached transport: once the flush
    /// is done it goes straight out; before that it joins the record's
    /// buffer, so it cannot overtake frames already enqueued.
    pub fn handle_broadcast(&mut self, f: Frame, record: &mut Record) -> (r: (String, bool))
        requires
            !(f@ is MessageBlob),
            is_streaming(old(self).framing) ==> old(self).size <= old(self).maxsize as u128,
        ensures
            old(self).ready ==> ({
                let d = drain(
                    old(self).framing,
                    old(self).callback@,
                    old(self).size as int,
                    old(self).maxsize as int,
                    old(record)@.state,
                    seq![f@],
                );
                &&& r.0@ == d.out
                &&& r.1 == (d.res is Stop)
                &&& final(self).size as int == d.size
                &&& *final(self) == (TransportState { size: final(self).size, ..*old(self) })
                &&& final(record)@ == (RecordV { state: d.state, ..old(record)@ })
            }),
            !old(self).ready ==> {
                &&& r.0@ == Seq::<char>::empty()
                &&& r.1 == false
                &&& final(record)@ == (RecordV {
                    buffer: old(record)@.buffer.push(f@),
                    ..old(record)@
                })
                &&& *final(self) == *old(self)
            },
    {
        if self.ready {
            let (out, res) = self.send(&f, record);
            (out, matches!(res, SendResult::Stop))
        } else {
            record.add(f);
            (String::new(), false)
        }
    }

    /// The wire form of a heartbeat on this transport.
    pub fn heartbeat_chunk(&self) -> (r: String)
        ensures
            r@ == wire_chunk(self.framing, self.callback@, FrameV::Heartbeat),
    {
        match self.framing {
            Framing::Xhr | Framing::XhrStreaming => encode_xhr(&Frame::Heartbeat),
            Framing::EventSource => encode_eventsource(&Frame::Heartbeat),
            Framing::HtmlFile => encode_htmlfile(&Frame::Heartbeat),
            Framing::Jsonp => encode_jsonp(self.callback.as_str(), &Frame::Heartbeat),
            Framing::Websocket => encode_websocket(&Frame::Heartbeat),
        }
    }

    /// The wire form of a close frame on this transport, for refusals
    /// made before any record is held.
    pub fn close_chunk(&self, code: CloseCode) -> (r: String)
        ensures
            r@ == wire_chunk(self.framing, self.callback@, FrameV::Close(code)),
    {
        match self.framing {
            Framing::Xhr | Framing::XhrStreaming => encode_xhr(&Frame::Close(code)),
            Framing::EventSource => encode_eventsource(&Frame::Close(code)),
            Framing::HtmlFile => encode_htmlfile(&Frame::Close(code)),
            Framing::Jsonp => encode_jsonp(self.callback.as_str(), &Frame::Close(code)),
            Framing::Websocket => encode_websocket(&Frame::Close(code)),
        }
    }
}

/// The largest wire form among `fs`, in bytes.
pub open spec fn max_chunk_bytes(fr: Framing, cb: Seq<char>, fs: Seq<FrameV>) -> int
    decreases fs.len(),
{
    if fs.len() == 0 {
        0
    } else {
        let first = chunk_bytes(fr, cb, fs[0]);
        let rest = max_chunk_bytes(fr, cb, fs.skip(1));
        if first > rest {
            first
        } else {
            rest
        }
    }
}

/// UTF-8 encoding distributes over concatenation.
proof fn lemma_encode_utf8_concat(a: Seq<char>, b: Seq<char>)
    ensures
        encode_utf8(a + b) == encode_utf8(a) + encode_utf8(b),
    decreases a.len(),
{
    if a.len() == 0 {
        assert(a + b =~= b);
        assert(encode_utf8(a) + encode_utf8(b) =~= encode_utf8(b));
    } else {
        assert((a + b).len() > 0);
        assert((a + b)[0] == a[0]);
        assert((a + b).drop_first() =~= a.drop_first() + b);
        lemma_encode_utf8_concat(a.drop_first(), b);
        assert(encode_utf8(a + b) =~= encode_utf8(a) + encode_utf8(b));
    }
}

/// On a streaming transport the byte counter counts exactly the bytes of
/// what was written.
proof fn lemma_drain_bytes(
    fr: Framing,
    cb: Seq<char>,
    size: int,
    maxsize: int,
    st: SessionState,
    fs: Seq<FrameV>,
)
    requires
        is_streaming(fr),
    ensures
        encode_utf8(drain(fr, cb, size, maxsize, st, fs).out).len() == drain(
            fr,
            cb,
            size,
            maxsize,
            st,
            fs,
        ).size - size,
    decreases fs.len(),
{
    if fs.len() > 0 {
        let f = fs[0];
        let nsize = size + chunk_bytes(fr, cb, f);
        let nst = step_state(st, f);
        if !stops_after(fr, nsize, maxsize, f) {
            lemma_drain_bytes(fr, cb, nsize, maxsize, nst, fs.skip(1));
            let d = drain(fr, cb, nsize, maxsize, nst, fs.skip(1));
            lemma_encode_utf8_concat(wire_chunk(fr, cb, f), d.out);
        }
    }
}

/// Size budget: a streaming pass that starts within its budget never
/// writes more than `maxsize - size` plus one frame's bytes; once the
/// budget is crossed the pass stops.
pub proof fn lemma_size_budget(
    fr: Framing,
    cb: Seq<char>,
    size: int,
    maxsize: int,
    st: SessionState,
    fs: Seq<FrameV>,
)
    requires
        is_streaming(fr),
        0 <= size <= maxsize,
    ensures
        drain(fr, cb, size, maxsize, st, fs).size <= maxsize + max_chunk_bytes(fr, cb, fs),
        encode_utf8(drain(fr, cb, size, maxsize, st, fs).out).len() + size <= maxsize
            + max_chunk_bytes(fr, cb, fs),
    decreases fs.len(),
{
    lemma_drain_bytes(fr, cb, size, maxsize, st, fs);
    if fs.len() > 0 {
        let f = fs[0];
        let nsize = size + chunk_bytes(fr, cb, f);
        let nst = step_state(st, f);
        assert(chunk_bytes(fr, cb, f) <= max_chunk_bytes(fr, cb, fs));
        assert(max_chunk_bytes(fr, cb, fs.skip(1)) <= max_chunk_bytes(fr, cb, fs));
        if !stops_after(fr, nsize, maxsize, f) {
            assert(nsize <= maxsize);
            lemma_size_budget(fr, cb, nsize, maxsize, nst, fs.skip(1));
        }
    }
}

/// Open precedes all: for a new session the attach pass emits the `Open`
/// frame's wire form first, before anything else.
pub proof fn lemma_open_first(
    fr: Framing,
    cb: Seq<char>,
    size: int,
    maxsize: int,
    fs: Seq<FrameV>,
)
    ensures
        ({
            let d = drain(fr, cb, size, maxsize, SessionState::Running, seq![FrameV::Open] + fs);
            let open_chunk = wire_chunk(fr, cb, FrameV::Open);
            &&& d.out.len() >= open_chunk.len()
            &&& d.out.take(open_chunk.len() as int) == open_chunk
        }),
{
    let full = seq![FrameV::Open] + fs;
    assert(full[0] == FrameV::Open);
    let open_chunk = wire_chunk(fr, cb, FrameV::Open);
    let nsize = if is_streaming(fr) {
        size + chunk_bytes(fr, cb, FrameV::Open)
    } else {
        size
    };
    if stops_after(fr, nsize, maxsize, FrameV::Open) {
        assert(drain(fr, cb, size, maxsize, SessionState::Running, full).out == open_chunk);
        assert(open_chunk.take(open_chunk.len() as int) =~= open_chunk);
    } else {
        let d = drain(fr, cb, nsize, maxsize, SessionState::Running, full.skip(1));
        assert(drain(fr, cb, size, maxsize, SessionState::Running, full).out == open_chunk
            + d.out);
        assert((open_chunk + d.out).take(open_chunk.len() as int) =~= open_chunk);
    }
}

} // verus!
