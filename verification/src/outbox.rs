//! The session-side outbound path. While a transport is attached, frames
//! are handed straight to it; while detached they are buffered, and
//! adjacent message frames fuse into one vector entry, so that an attach
//! flushes a run of buffered messages as a single JSON array frame.

use vstd::prelude::*;
use crate::json::{encode_msg_array, json_array_of};
use crate::protocol::{CloseCode, Frame, FrameV};

verus! {

/// One buffered outbound item.
pub enum BufItem {
    /// A lone message.
    Message(String),
    /// A fused run of adjacent messages, oldest first.
    Messages(Vec<String>),
    /// Any non-message frame.
    Plain(Frame),
}

/// Mathematical model of a `BufItem`.
pub enum BufItemV {
    Message(Seq<char>),
    Messages(Seq<Seq<char>>),
    Plain(FrameV),
}

impl View for BufItem {
    type V = BufItemV;

    open spec fn view(&self) -> BufItemV {
        match self {
            BufItem::Message(m) => BufItemV::Message(m@),
            BufItem::Messages(v) => BufItemV::Messages(v.deep_view()),
            BufItem::Plain(f) => BufItemV::Plain(f@),
        }
    }
}

impl DeepView for BufItem {
    type V = BufItemV;

    open spec fn deep_view(&self) -> BufItemV {
        self.view()
    }
}

/// True of the items that a further message may fuse with.
pub open spec fn is_msg_item(it: BufItemV) -> bool {
    it is Message || it is Messages
}

/// One step of buffering: a message frame fuses with a trailing message
/// run; everything else is appended as its own item.
pub open spec fn buf_add(buf: Seq<BufItemV>, f: FrameV) -> Seq<BufItemV> {
    if f is Message {
        let m = f->Message_0;
        if buf.len() > 0 && is_msg_item(buf.last()) {
            match buf.last() {
                BufItemV::Message(a) => buf.drop_last().push(BufItemV::Messages(seq![a, m])),
                BufItemV::Messages(v) => buf.drop_last().push(BufItemV::Messages(v.push(m))),
                BufItemV::Plain(_) => buf,
            }
        } else {
            buf.push(BufItemV::Message(m))
        }
    } else {
        buf.push(BufItemV::Plain(f))
    }
}

/// The frame a buffered item turns into at flush time: a fused run
/// becomes one JSON array frame.
pub open spec fn item_frame(it: BufItemV) -> FrameV {
    match it {
        BufItemV::Message(m) => FrameV::Message(m),
        BufItemV::Messages(v) => FrameV::MessageVec(json_array_of(v)),
        BufItemV::Plain(f) => f,
    }
}

/// The frames an attach flushes, in buffer order.
pub open spec fn flush_frames(buf: Seq<BufItemV>) -> Seq<FrameV> {
    buf.map_values(|it: BufItemV| item_frame(it))
}

/// The message payloads held in a buffer, oldest first.
pub open spec fn item_msgs(it: BufItemV) -> Seq<Seq<char>> {
    match it {
        BufItemV::Message(m) => seq![m],
        BufItemV::Messages(v) => v,
        BufItemV::Plain(_) => Seq::<Seq<char>>::empty(),
    }
}

pub open spec fn buffered_msgs(buf: Seq<BufItemV>) -> Seq<Seq<char>>
    decreases buf.len(),
{
    if buf.len() == 0 {
        Seq::<Seq<char>>::empty()
    } else {
        buffered_msgs(buf.drop_last()) + item_msgs(buf.last())
    }
}

/// Buffering messages `msgs` one by one, oldest first.
pub open spec fn add_msgs(buf: Seq<BufItemV>, msgs: Seq<Seq<char>>) -> Seq<BufItemV>
    decreases msgs.len(),
{
    if msgs.len() == 0 {
        buf
    } else {
        buf_add(add_msgs(buf, msgs.drop_last()), FrameV::Message(msgs.last()))
    }
}

/// The outbound side of one session.
pub struct Outbox {
    /// Whether a transport currently holds the receive side.
    pub attached: bool,
    /// Frames buffered while detached.
    pub buf: Vec<BufItem>,
}

impl Outbox {
    /// Model of the buffer contents.
    pub open spec fn buf_model(&self) -> Seq<BufItemV> {
        self.buf.deep_view()
    }

    pub fn new() -> (r: Outbox)
        ensures
            !r.attached,
            r.buf_model() == Seq::<BufItemV>::empty(),
    {
        let r = Outbox { attached: false, buf: Vec::new() };
        proof {
            assert(r.buf_model() =~= Seq::<BufItemV>::empty());
        }
        r
    }

    /// Buffers one frame, fusing adjacent messages.
    pub fn add_to_buf(&mut self, f: Frame)
        ensures
            *final(self) == (Outbox { buf: final(self).buf, ..*old(self) }),
            final(self).buf_model() == buf_add(old(self).buf_model(), f@),
    {
        let ghost buf0 = self.buf_model();
        let fuse: bool = if self.buf.len() > 0 {
            match &self.buf[self.buf.len() - 1] {
                BufItem::Message(_) | BufItem::Messages(_) => true,
                BufItem::Plain(_) => false,
            }
        } else {
            false
        };
        if fuse && f.is_msg() {
            let item = self.buf.pop().unwrap();
            proof {
                assert(item@ == buf0.last());
                assert(self.buf.deep_view() =~= buf0.drop_last());
            }
            match item {
                BufItem::Message(m) => {
                    let mut v: Vec<String> = Vec::new();
                    v.push(m);
                    v.push(f.into_message());
                    proof {
                        assert(v.deep_view() =~= seq![buf0.last()->Message_0, f@->Message_0]);
                    }
                    self.buf.push(BufItem::Messages(v));
                },
                BufItem::Messages(v) => {
                    let ghost v0 = v.deep_view();
                    let mut v = v;
                    v.push(f.into_message());
                    proof {
                        assert(v.deep_view() =~= v0.push(f@->Message_0));
                    }
                    self.buf.push(BufItem::Messages(v));
                },
                BufItem::Plain(_) => unreached(),
            }
            proof {
                assert(self.buf.deep_view() =~= buf_add(buf0, f@));
            }
        } else if f.is_msg() {
            self.buf.push(BufItem::Message(f.into_message()));
            proof {
                assert(self.buf.deep_view() =~= buf_add(buf0, f@));
            }
        } else {
            self.buf.push(BufItem::Plain(f));
            proof {
                assert(self.buf.deep_view() =~= buf_add(buf0, f@));
            }
        }
    }

    /// Outbound frame from the session: handed to the attached transport
    /// when there is one, buffered (with coalescing) otherwise.
    pub fn send_frame(&mut self, f: Frame) -> (out: Option<Frame>)
        ensures
            old(self).attached ==> (out matches Some(g) && g@ == f@ && *final(self) == *old(self)),
            !old(self).attached ==> out is None && !final(self).attached && final(self).buf_model()
                == buf_add(old(self).buf_model(), f@),
    {
        if self.attached {
            Some(f)
        } else {
            self.add_to_buf(f);
            None
        }
    }

    /// A transport acquired the session: marks it attached and flushes the
    /// buffer, a fused message run becoming one JSON array frame.
    pub fn on_acquired(&mut self) -> (frames: Vec<Frame>)
        ensures
            final(self).attached,
            final(self).buf_model() == Seq::<BufItemV>::empty(),
            frames.deep_view() == flush_frames(old(self).buf_model()),
    {
        let ghost buf0 = self.buf_model();
        let n = self.buf.len();
        proof {
            assert(buf0.len() == n);
        }
        let mut frames: Vec<Frame> = Vec::new();
        let mut done: usize = 0;
        while self.buf.len() > 0
            invariant
                done + self.buf.len() == buf0.len(),
                buf0.len() <= usize::MAX,
                self.buf.deep_view() =~= buf0.skip(done as int),
                frames.deep_view() =~= flush_frames(buf0.take(done as int)),
            decreases self.buf.len(),
        {
            let ghost pre = self.buf.deep_view();
            let it = self.buf.remove(0);
            proof {
                assert(pre[0] == buf0.skip(done as int)[0]);
                assert(it@ == pre[0]);
                assert(it@ == buf0[done as int]);
                assert(self.buf.deep_view() =~= pre.skip(1));
                assert(self.buf.deep_view() =~= buf0.skip(done as int + 1));
            }
            let fr = match it {
                BufItem::Message(m) => Frame::Message(m),
                BufItem::Messages(v) => Frame::MessageVec(encode_msg_array(&v)),
                BufItem::Plain(f) => f,
            };
            proof {
                assert(fr@ == item_frame(buf0[done as int]));
            }
            let ghost fprev = frames.deep_view();
            frames.push(fr);
            done = done + 1;
            proof {
                assert(frames.deep_view() =~= fprev.push(fr@));
                assert(buf0.take(done as int).drop_last() =~= buf0.take(done as int - 1));
                assert(frames.deep_view() =~= flush_frames(buf0.take(done as int)));
            }
        }
        self.attached = true;
        proof {
            assert(buf0.take(done as int) =~= buf0);
            assert(self.buf.deep_view() =~= Seq::<BufItemV>::empty());
        }
        frames
    }

    /// Closing the session from the application side: a `Close(GoAway)`
    /// frame takes the same path as any other outbound frame.
    pub fn close(&mut self) -> (out: Option<Frame>)
        ensures
            old(self).attached ==> (out matches Some(g) && g@ == FrameV::Close(CloseCode::GoAway)
                && *final(self) == *old(self)),
            !old(self).attached ==> (out is None && !final(self).attached
                && final(self).buf_model() == buf_add(
                old(self).buf_model(),
                FrameV::Close(CloseCode::GoAway),
            )),
    {
        self.send_frame(Frame::Close(CloseCode::GoAway))
    }

    /// Whether a transport currently holds the receive side.
    pub fn connected(&self) -> (r: bool)
        ensures
            r == self.attached,
    {
        self.attached
    }

    /// The transport released the session.
    pub fn on_released(&mut self)
        ensures
            !final(self).attached,
            final(self).buf_model() == old(self).buf_model(),
    {
        self.attached = false;
    }
}

/// Buffering a message appends exactly that message to the buffered
/// payloads, whatever the buffer held.
proof fn lemma_buf_add_msg(buf: Seq<BufItemV>, m: Seq<char>)
    ensures
        buffered_msgs(buf_add(buf, FrameV::Message(m))) =~= buffered_msgs(buf) + seq![m],
{
    let out = buf_add(buf, FrameV::Message(m));
    if buf.len() > 0 && is_msg_item(buf.last()) {
        assert(out.drop_last() =~= buf.drop_last());
        match buf.last() {
            BufItemV::Message(a) => {
                assert(item_msgs(out.last()) =~= item_msgs(buf.last()) + seq![m]);
            },
            BufItemV::Messages(v) => {
                assert(item_msgs(out.last()) =~= item_msgs(buf.last()) + seq![m]);
            },
            BufItemV::Plain(_) => {},
        }
    } else {
        assert(out.drop_last() =~= buf);
        assert(out.last() == BufItemV::Message(m));
    }
}

/// First-in-first-out: sending messages while detached appends them, in
/// send order, to the messages already buffered; none is lost, duplicated
/// or reordered.
pub proof fn lemma_fifo_order(buf: Seq<BufItemV>, msgs: Seq<Seq<char>>)
    ensures
        buffered_msgs(add_msgs(buf, msgs)) =~= buffered_msgs(buf) + msgs,
    decreases msgs.len(),
{
    if msgs.len() == 0 {
        assert(buffered_msgs(buf) + msgs =~= buffered_msgs(buf));
    } else {
        lemma_fifo_order(buf, msgs.drop_last());
        lemma_buf_add_msg(add_msgs(buf, msgs.drop_last()), msgs.last());
        assert(buffered_msgs(buf) + msgs.drop_last() + seq![msgs.last()] =~= buffered_msgs(buf)
            + msgs);
    }
}

/// Buffering one more message after `msgs` is one `buf_add` step on the
/// buffer that `msgs` produced.
proof fn lemma_add_msgs_push(buf: Seq<BufItemV>, msgs: Seq<Seq<char>>, m: Seq<char>)
    ensures
        add_msgs(buf, msgs.push(m)) == buf_add(add_msgs(buf, msgs), FrameV::Message(m)),
{
    let p = msgs.push(m);
    assert(p.len() == msgs.len() + 1);
    assert(p.drop_last() =~= msgs);
    assert(p.last() == m);
}

/// Buffering one message into an empty buffer yields one lone item.
proof fn lemma_add_one(m: Seq<char>)
    ensures
        add_msgs(Seq::<BufItemV>::empty(), seq![m]) == seq![BufItemV::Message(m)],
{
    let empty = Seq::<BufItemV>::empty();
    let s = seq![m];
    assert(s.drop_last() =~= Seq::<Seq<char>>::empty());
    assert(add_msgs(empty, s.drop_last()) == empty);
    assert(s.last() == m);
    assert(buf_add(empty, FrameV::Message(m)) =~= seq![BufItemV::Message(m)]);
}

/// Coalescing: two or more messages buffered into an empty buffer form a
/// single fused item holding exactly those messages in order, so an attach
/// flushes them as one JSON array frame, not several.
pub proof fn lemma_coalesce(msgs: Seq<Seq<char>>)
    requires
        msgs.len() >= 2,
    ensures
        add_msgs(Seq::<BufItemV>::empty(), msgs) == seq![BufItemV::Messages(msgs)],
        flush_frames(add_msgs(Seq::<BufItemV>::empty(), msgs)) == seq![
            FrameV::MessageVec(json_array_of(msgs)),
        ],
    decreases msgs.len(),
{
    let empty = Seq::<BufItemV>::empty();
    let dl = msgs.drop_last();
    let m = msgs.last();
    assert(msgs =~= dl.push(m));
    lemma_add_msgs_push(empty, dl, m);
    if msgs.len() == 2 {
        let m0 = msgs[0];
        assert(dl =~= seq![m0]);
        lemma_add_one(m0);
        let one = seq![BufItemV::Message(m0)];
        assert(one.last() == BufItemV::Message(m0));
        assert(one.drop_last() =~= empty);
        assert(buf_add(one, FrameV::Message(m)) =~= seq![BufItemV::Messages(seq![m0, m])]);
        assert(seq![m0, m] =~= msgs);
        assert(BufItemV::Messages(seq![m0, m]) == BufItemV::Messages(msgs));
        assert(add_msgs(empty, msgs) == seq![BufItemV::Messages(msgs)]);
    } else {
        lemma_coalesce(dl);
        let pre = seq![BufItemV::Messages(dl)];
        assert(pre.last() == BufItemV::Messages(dl));
        assert(pre.drop_last() =~= empty);
        assert(buf_add(pre, FrameV::Message(m)) =~= seq![BufItemV::Messages(dl.push(m))]);
        assert(dl.push(m) == msgs);
        assert(add_msgs(empty, msgs) == seq![BufItemV::Messages(msgs)]);
    }
    assert(flush_frames(seq![BufItemV::Messages(msgs)]) =~= seq![
        FrameV::MessageVec(json_array_of(msgs)),
    ]);
}

/// A single message buffered into an empty buffer flushes as the single
/// message frame carrying it.
pub proof fn lemma_single_message(m: Seq<char>)
    ensures
        flush_frames(add_msgs(Seq::<BufItemV>::empty(), seq![m])) == seq![FrameV::Message(m)],
{
    lemma_add_one(m);
    assert(flush_frames(seq![BufItemV::Message(m)]) =~= seq![FrameV::Message(m)]);
}

} // verus!
