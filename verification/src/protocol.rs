//! The common frame alphabet shared by every transport, the close codes
//! with their fixed numbers and reasons, and the session lifecycle states.

use vstd::prelude::*;

verus! {

/// A single SockJS-level unit travelling from a session to a transport.
pub enum Frame {
    Open,
    Close(CloseCode),
    Message(String),
    MessageBlob(Vec<u8>),
    MessageVec(String),
    Heartbeat,
}

/// Mathematical model of a `Frame`: payloads as character / byte sequences.
pub enum FrameV {
    Open,
    Close(CloseCode),
    Message(Seq<char>),
    MessageBlob(Seq<u8>),
    MessageVec(Seq<char>),
    Heartbeat,
}

impl View for Frame {
    type V = FrameV;

    open spec fn view(&self) -> FrameV {
        match self {
            Frame::Open => FrameV::Open,
            Frame::Close(c) => FrameV::Close(*c),
            Frame::Message(s) => FrameV::Message(s@),
            Frame::MessageBlob(b) => FrameV::MessageBlob(b@),
            Frame::MessageVec(s) => FrameV::MessageVec(s@),
            Frame::Heartbeat => FrameV::Heartbeat,
        }
    }
}

impl DeepView for Frame {
    type V = FrameV;

    open spec fn deep_view(&self) -> FrameV {
        self.view()
    }
}

impl Frame {
    /// True exactly for single-message frames.
    pub fn is_msg(&self) -> (b: bool)
        ensures
            b == (self@ is Message),
    {
        match *self {
            Frame::Message(_) => true,
            _ => false,
        }
    }

    /// The payload of a single-message frame.
    pub fn into_message(self) -> (r: String)
        requires
            self@ is Message,
        ensures
            r@ == self@->Message_0,
    {
        match self {
            Frame::Message(msg) => msg,
            _ => unreached(),
        }
    }
}

impl Frame {
    /// A value-equal copy of this frame, for fanning one frame out to
    /// several sessions.
    pub fn duplicate(&self) -> (r: Frame)
        ensures
            r@ == self@,
    {
        match self {
            Frame::Open => Frame::Open,
            Frame::Heartbeat => Frame::Heartbeat,
            Frame::Close(c) => Frame::Close(*c),
            Frame::Message(s) => Frame::Message(s.clone()),
            Frame::MessageVec(s) => Frame::MessageVec(s.clone()),
            Frame::MessageBlob(b) => Frame::MessageBlob(copy_bytes(b)),
        }
    }
}

/// A fresh vector holding the same bytes.
fn copy_bytes(b: &Vec<u8>) -> (r: Vec<u8>)
    ensures
        r@ == b@,
{
    let mut r: Vec<u8> = Vec::new();
    let mut i: usize = 0;
    while i < b.len()
        invariant
            i <= b.len(),
            r@ =~= b@.take(i as int),
        decreases b.len() - i,
    {
        r.push(b[i]);
        proof {
            assert(r@ =~= b@.take(i as int + 1));
        }
        i = i + 1;
    }
    proof {
        assert(b@.take(b@.len() as int) =~= b@);
    }
    r
}

/// Reason a session is being closed on the wire, with a fixed numeric code.
#[derive(Clone, Copy, Debug, PartialEq, Eq, Structural)]
pub enum CloseCode {
    Interrupted,
    GoAway,
    Acquired,
    InternalError,
}

impl CloseCode {
    /// Numeric wire code of this close reason.
    pub open spec fn code_num(self) -> int {
        match self {
            CloseCode::Interrupted => 1002,
            CloseCode::Acquired => 2010,
            CloseCode::GoAway => 3000,
            CloseCode::InternalError => 3000,
        }
    }

    /// Reason text that accompanies the code on the wire.
    pub open spec fn reason_text(self) -> Seq<char> {
        match self {
            CloseCode::Interrupted => "Connection interrupted"@,
            CloseCode::GoAway => "Go away!"@,
            CloseCode::Acquired => "Another connection still open"@,
            CloseCode::InternalError => "Internal error"@,
        }
    }

    pub fn num(&self) -> (n: usize)
        ensures
            n == self.code_num(),
    {
        match *self {
            CloseCode::Interrupted => 1002,
            CloseCode::Acquired => 2010,
            CloseCode::GoAway | CloseCode::InternalError => 3000,
        }
    }

    pub fn reason(&self) -> (r: &'static str)
        ensures
            r@ == self.reason_text(),
    {
        match *self {
            CloseCode::Interrupted => "Connection interrupted",
            CloseCode::GoAway => "Go away!",
            CloseCode::Acquired => "Another connection still open",
            CloseCode::InternalError => "Internal error",
        }
    }
}

/// Lifecycle phase of a session record; it only ever advances.
#[derive(Clone, Copy, Debug, PartialEq, Eq, Structural)]
pub enum SessionState {
    /// Newly created session; `Open` has not been sent yet.
    New,
    /// A transport has delivered `Open`.
    Running,
    /// The peer vanished while a transport was attached.
    Interrupted,
    /// Final state.
    Closed,
}

/// Reason surfaced to the user's `closed` hook.
#[derive(Clone, Copy, Debug, PartialEq, Eq, Structural)]
pub enum CloseReason {
    Normal,
    Expired,
    Interrupted,
}

/// Session-level error surfaced to a transport.
#[derive(Clone, Copy, Debug, PartialEq, Eq, Structural)]
pub enum SessionError {
    Acquired,
    Interrupted,
    Closing,
    InternalError,
}

impl SessionError {
    /// The close code a transport puts on the wire for this error.
    pub open spec fn spec_close_code(self) -> CloseCode {
        match self {
            SessionError::Acquired => CloseCode::Acquired,
            SessionError::Interrupted => CloseCode::Interrupted,
            SessionError::Closing => CloseCode::GoAway,
            SessionError::InternalError => CloseCode::InternalError,
        }
    }

    pub fn close_code(&self) -> (c: CloseCode)
        ensures
            c == self.spec_close_code(),
    {
        match *self {
            SessionError::Acquired => CloseCode::Acquired,
            SessionError::Interrupted => CloseCode::Interrupted,
            SessionError::Closing => CloseCode::GoAway,
            SessionError::InternalError => CloseCode::InternalError,
        }
    }
}

/// An application-level message bound for or coming from a peer.
pub struct Message(pub String);

/// What a transport's event loop does after emitting a frame.
#[derive(Clone, Copy, Debug, PartialEq, Eq, Structural)]
pub enum SendResult {
    /// Keep the transport attached and continue the event loop.
    Continue,
    /// Stop the transport; the client is expected to reconnect.
    Stop,
}

} // verus!
