use sockjs::codec::encode_xhr;
use sockjs::manager::{Record, SessionEvent, SockJSManager};
use sockjs::outbox::Outbox;
use sockjs::protocol::{CloseCode, CloseReason, Frame, SendResult, SessionError, SessionState};
use sockjs::transport::{AttachOutcome, ChannelItem, Framing, TransportState, MAXSIZE};

fn msg(s: &str) -> Frame {
    Frame::Message(s.to_string())
}

#[test]
fn coalescing_three_messages() {
    // Three messages buffered while detached flush as one array frame.
    let mut ob = Outbox::new();
    assert!(ob.send_frame(msg("a")).is_none());
    assert!(ob.send_frame(msg("b")).is_none());
    assert!(ob.send_frame(msg("c")).is_none());
    let frames = ob.on_acquired();
    assert_eq!(frames.len(), 1);
    match &frames[0] {
        Frame::MessageVec(s) => assert_eq!(s, "[\"a\",\"b\",\"c\"]"),
        _ => panic!("expected one fused array frame"),
    }
    assert_eq!(encode_xhr(&frames[0]), "a[\"a\",\"b\",\"c\"]\n");
}

#[test]
fn single_message_not_fused() {
    let mut ob = Outbox::new();
    assert!(ob.send_frame(msg("only")).is_none());
    let frames = ob.on_acquired();
    assert_eq!(frames.len(), 1);
    match &frames[0] {
        Frame::Message(s) => assert_eq!(s, "only"),
        _ => panic!("expected a lone message frame"),
    }
}

#[test]
fn non_message_breaks_coalescing() {
    let mut ob = Outbox::new();
    assert!(ob.send_frame(msg("a")).is_none());
    assert!(ob.send_frame(Frame::Close(CloseCode::GoAway)).is_none());
    assert!(ob.send_frame(msg("b")).is_none());
    let frames = ob.on_acquired();
    assert_eq!(frames.len(), 3);
    assert!(matches!(frames[0], Frame::Message(_)));
    assert!(matches!(frames[1], Frame::Close(CloseCode::GoAway)));
    assert!(matches!(frames[2], Frame::Message(_)));
}

#[test]
fn attached_outbox_passes_through() {
    let mut ob = Outbox::new();
    let _ = ob.on_acquired();
    let out = ob.send_frame(msg("now"));
    match out {
        Some(Frame::Message(s)) => assert_eq!(s, "now"),
        _ => panic!("attached sends go straight to the transport"),
    }
    ob.on_released();
    assert!(ob.send_frame(msg("later")).is_none());
}

#[test]
fn fifo_order_kept() {
    let mut ob = Outbox::new();
    for i in 0..5 {
        assert!(ob.send_frame(msg(&format!("m{}", i))).is_none());
    }
    let frames = ob.on_acquired();
    assert_eq!(frames.len(), 1);
    match &frames[0] {
        Frame::MessageVec(s) => assert_eq!(s, "[\"m0\",\"m1\",\"m2\",\"m3\",\"m4\"]"),
        _ => panic!("expected one fused array frame"),
    }
}

#[test]
fn close_through_send_path() {
    let mut ob = Outbox::new();
    assert!(!ob.connected());
    assert!(ob.send_frame(msg("bye")).is_none());
    assert!(ob.close().is_none());
    let frames = ob.on_acquired();
    assert!(ob.connected());
    assert_eq!(frames.len(), 2);
    assert!(matches!(frames[0], Frame::Message(_)));
    assert!(matches!(frames[1], Frame::Close(CloseCode::GoAway)));
    match ob.close() {
        Some(Frame::Close(CloseCode::GoAway)) => {},
        _ => panic!("an attached close goes straight to the transport"),
    }
}

#[test]
fn acquire_new_session() {
    let mut mgr = SockJSManager::new();
    let sid = "s1".to_string();
    let (rec, ev) = mgr.acquire(&sid, 0).expect("fresh sid must acquire");
    assert_eq!(ev, vec![SessionEvent::Opened, SessionEvent::Acquired]);
    assert_eq!(rec.sid, "s1");
    assert_eq!(rec.state, SessionState::New);
    assert!(rec.buffer.is_empty());
}

#[test]
fn session_hijack_refused() {
    // While one transport holds the record, a second acquire is refused
    // and the first attachment is untouched.
    let mut mgr = SockJSManager::new();
    let sid = "s".to_string();
    let (mut rec, _) = mgr.acquire(&sid, 0).unwrap();
    match mgr.acquire(&sid, 1) {
        Err(SessionError::Acquired) => {},
        _ => panic!("second acquire must fail with Acquired"),
    }
    // The wire form the contender sends:
    let tr = TransportState::new(Framing::Xhr, String::new(), MAXSIZE);
    assert_eq!(
        tr.close_chunk(SessionError::Acquired.close_code()),
        "c[2010,\"Another connection still open\"]\n"
    );
    // The original stream is unaffected: its record still works.
    let mut t1 = TransportState::new(Framing::XhrStreaming, String::new(), MAXSIZE);
    let (out, _) = t1.attach(&mut rec);
    assert_eq!(out, "o\n");
    // And a third acquire still sees the record checked out.
    assert!(mgr.acquire(&sid, 2).is_err());
}

#[test]
fn release_and_reacquire() {
    let mut mgr = SockJSManager::new();
    let sid = "s2".to_string();
    let (mut rec, _) = mgr.acquire(&sid, 0).unwrap();
    rec.state = SessionState::Running;
    let ev = mgr.release(rec, 5);
    assert_eq!(ev, Some(SessionEvent::Released));
    let (rec2, ev2) = mgr.acquire(&sid, 6).expect("detached sid must reattach");
    assert_eq!(ev2, vec![SessionEvent::Acquired]);
    assert_eq!(rec2.state, SessionState::Running);
}

#[test]
fn release_closed_session() {
    let mut mgr = SockJSManager::new();
    let sid = "s3".to_string();
    let (mut rec, _) = mgr.acquire(&sid, 0).unwrap();
    rec.close();
    let ev = mgr.release(rec, 1);
    assert_eq!(ev, Some(SessionEvent::Closed(CloseReason::Normal)));
}

#[test]
fn release_interrupted_session() {
    let mut mgr = SockJSManager::new();
    let sid = "s4".to_string();
    let (mut rec, _) = mgr.acquire(&sid, 0).unwrap();
    rec.state = SessionState::Running;
    rec.interrupted();
    assert_eq!(rec.state, SessionState::Interrupted);
    let ev = mgr.release(rec, 1);
    assert_eq!(ev, Some(SessionEvent::Closed(CloseReason::Interrupted)));
}

#[test]
fn deliver_routing() {
    let mut mgr = SockJSManager::new();
    let sid = "known".to_string();
    let other = "unknown".to_string();
    let (_rec, _) = mgr.acquire(&sid, 0).unwrap();
    assert!(mgr.deliver(&sid).is_ok());
    assert!(mgr.deliver(&other).is_err());
}

#[test]
fn session_expiry_exactly_once() {
    // A session left detached past the idle timeout is removed and its
    // closed(Expired) notification is owed exactly once.
    let mut mgr = SockJSManager::new();
    let sid = "exp".to_string();
    let (mut rec, _) = mgr.acquire(&sid, 0).unwrap();
    rec.state = SessionState::Running;
    mgr.release(rec, 0);
    let expired = mgr.sweep(11, 10);
    assert_eq!(expired, vec!["exp".to_string()]);
    // A second sweep finds nothing.
    let expired2 = mgr.sweep(12, 10);
    assert!(expired2.is_empty());
    // A later request for the same sid opens a fresh session.
    let (rec2, ev) = mgr.acquire(&sid, 13).expect("expired sid starts fresh");
    assert_eq!(ev, vec![SessionEvent::Opened, SessionEvent::Acquired]);
    assert_eq!(rec2.state, SessionState::New);
    let mut tr = TransportState::new(Framing::Xhr, String::new(), MAXSIZE);
    let mut rec2 = rec2;
    let (out, _) = tr.attach(&mut rec2);
    assert_eq!(out, "o\n");
}

#[test]
fn sweep_spares_recent_and_attached() {
    let mut mgr = SockJSManager::new();
    let idle = "idle".to_string();
    let fresh = "fresh".to_string();
    let held = "held".to_string();
    let (r1, _) = mgr.acquire(&idle, 0).unwrap();
    mgr.release(r1, 0);
    let (r2, _) = mgr.acquire(&fresh, 0).unwrap();
    mgr.release(r2, 8);
    let (_r3, _) = mgr.acquire(&held, 0).unwrap();
    let expired = mgr.sweep(11, 10);
    assert_eq!(expired, vec!["idle".to_string()]);
    assert!(mgr.deliver(&fresh).is_ok());
    assert!(mgr.deliver(&held).is_ok());
    assert!(mgr.deliver(&idle).is_err());
}

#[test]
fn broadcast_buffers_detached_and_notifies_attached() {
    let mut mgr = SockJSManager::new();
    let a = "a".to_string();
    let b = "b".to_string();
    let (ra, _) = mgr.acquire(&a, 0).unwrap();
    mgr.release(ra, 0);
    let (_rb, _) = mgr.acquire(&b, 0).unwrap();
    let notify = mgr.broadcast(&msg("fanout"));
    assert_eq!(notify, vec!["b".to_string()]);
    // The detached session's record now buffers the frame.
    let (ra2, _) = mgr.acquire(&a, 1).unwrap();
    assert_eq!(ra2.buffer.len(), 1);
    match &ra2.buffer[0] {
        Frame::Message(s) => assert_eq!(s, "fanout"),
        _ => panic!("expected the broadcast message"),
    }
}

#[test]
fn xhr_polling_echo() {
    // POST /srv/s1/xhr -> o\n ; xhr_send ["hello"] ; POST /srv/s1/xhr -> a["hello"]\n
    let mut mgr = SockJSManager::new();
    let sid = "s1".to_string();
    let mut session = Outbox::new();

    // First poll: new session, Open goes out, polling stops after it.
    let (rec, ev) = mgr.acquire(&sid, 0).unwrap();
    assert_eq!(ev, vec![SessionEvent::Opened, SessionEvent::Acquired]);
    let _ = session.on_acquired();
    let mut rec = rec;
    let mut t1 = TransportState::new(Framing::Xhr, String::new(), MAXSIZE);
    let (out1, outcome) = t1.attach(&mut rec);
    assert_eq!(out1, "o\n");
    assert_eq!(outcome, AttachOutcome::Attached);
    assert!(t1.release_after_ready);
    session.on_released();
    mgr.release(rec, 0);

    // xhr_send: the peer posts ["hello"]; the echoing application hands
    // it straight back through the session.
    let payload = sockjs::sendapi::decode_send_body(&b"[\"hello\"]".to_vec());
    let msgs = match payload {
        sockjs::sendapi::SendPayload::Messages(v) => v,
        _ => panic!("well-formed body must decode"),
    };
    assert_eq!(msgs, vec!["hello".to_string()]);
    assert!(mgr.deliver(&sid).is_ok());
    for m in msgs {
        assert!(session.send_frame(Frame::Message(m)).is_none());
    }

    // Second poll: the buffered echo flushes as one frame.
    let (rec2, ev2) = mgr.acquire(&sid, 1).unwrap();
    assert_eq!(ev2, vec![SessionEvent::Acquired]);
    let mut rec2 = rec2;
    let mut t2 = TransportState::new(Framing::Xhr, String::new(), MAXSIZE);
    let (out2, _) = t2.attach(&mut rec2);
    assert_eq!(out2, "");
    let flushed = session.on_acquired();
    let mut wire = String::new();
    let mut release = false;
    for f in flushed {
        let (o, r) = t2.handle_message(ChannelItem::Frame(f), &mut rec2);
        wire.push_str(&o);
        release = release || r;
    }
    let (o, _r) = t2.handle_message(ChannelItem::Ready, &mut rec2);
    wire.push_str(&o);
    assert_eq!(wire, "a[\"hello\"]\n");
}

#[test]
fn streaming_byte_budget() {
    // A streaming transport stops once maxsize is crossed, within one
    // frame of the budget.
    let maxsize = 10usize;
    let mut tr = TransportState::new(Framing::XhrStreaming, String::new(), maxsize);
    let mut rec = Record::new("s".to_string());
    rec.state = SessionState::Running;
    let (o1, r1) = tr.send(&msg("x"), &mut rec);
    assert_eq!(o1, "a[\"x\"]\n");
    assert_eq!(r1, SendResult::Continue);
    assert_eq!(tr.size, 7);
    let (o2, r2) = tr.send(&msg("y"), &mut rec);
    assert_eq!(o2, "a[\"y\"]\n");
    assert_eq!(r2, SendResult::Stop);
    let written = (o1.len() + o2.len()) as u128;
    assert_eq!(tr.size, written);
    assert!(written <= (maxsize + o2.len()) as u128);
}

#[test]
fn streaming_budget_on_flush() {
    // Flushing a long backlog stops within one frame of the budget and
    // leaves the remainder buffered.
    let mut rec = Record::new("s".to_string());
    rec.state = SessionState::Running;
    for _ in 0..100 {
        rec.add(msg("xxxxxxxxxx"));
    }
    let mut tr = TransportState::new(Framing::XhrStreaming, String::new(), 50);
    let (out, outcome) = tr.attach(&mut rec);
    assert_eq!(outcome, AttachOutcome::Attached);
    assert!(tr.release_after_ready);
    let one_frame = "a[\"xxxxxxxxxx\"]\n".len();
    assert!(out.len() <= 50 + one_frame);
    assert!(out.len() > 50);
    assert_eq!(rec.buffer.len(), 100 - out.len() / one_frame);
}

#[test]
fn polling_stops_after_one_frame() {
    let mut tr = TransportState::new(Framing::Xhr, String::new(), MAXSIZE);
    let mut rec = Record::new("s".to_string());
    rec.state = SessionState::Running;
    let (_o, r) = tr.send(&Frame::Heartbeat, &mut rec);
    assert_eq!(r, SendResult::Stop);
}

#[test]
fn attach_interrupted_session() {
    let mut tr = TransportState::new(Framing::Xhr, String::new(), MAXSIZE);
    let mut rec = Record::new("s".to_string());
    rec.state = SessionState::Interrupted;
    let (out, outcome) = tr.attach(&mut rec);
    assert_eq!(out, "c[1002,\"Connection interrupted\"]\n");
    assert_eq!(outcome, AttachOutcome::Release);
    assert_eq!(rec.state, SessionState::Closed);
}

#[test]
fn attach_closed_session() {
    let mut tr = TransportState::new(Framing::Xhr, String::new(), MAXSIZE);
    let mut rec = Record::new("s".to_string());
    rec.state = SessionState::Closed;
    let (out, outcome) = tr.attach(&mut rec);
    assert_eq!(out, "c[3000,\"Go away!\"]\n");
    assert_eq!(outcome, AttachOutcome::Release);
}

#[test]
fn attach_running_flushes_record_buffer() {
    // Frames buffered in the record (for example broadcasts) go out on
    // attach, in order, before anything new.
    let mut tr = TransportState::new(Framing::XhrStreaming, String::new(), MAXSIZE);
    let mut rec = Record::new("s".to_string());
    rec.state = SessionState::Running;
    rec.add(msg("one"));
    rec.add(msg("two"));
    let (out, outcome) = tr.attach(&mut rec);
    assert_eq!(out, "a[\"one\"]\na[\"two\"]\n");
    assert_eq!(outcome, AttachOutcome::Attached);
    assert!(rec.buffer.is_empty());
    assert!(!tr.release_after_ready);
}

#[test]
fn open_precedes_buffered_frames() {
    // For a new session the very first frame on the wire is Open.
    let mut tr = TransportState::new(Framing::XhrStreaming, String::new(), MAXSIZE);
    let mut rec = Record::new("s".to_string());
    rec.add(msg("early"));
    let (out, _) = tr.attach(&mut rec);
    assert_eq!(out, "o\na[\"early\"]\n");
    assert!(out.starts_with("o\n"));
    assert_eq!(rec.state, SessionState::Running);
}

#[test]
fn close_frame_stops_stream_and_closes_record() {
    let mut tr = TransportState::new(Framing::XhrStreaming, String::new(), MAXSIZE);
    let mut rec = Record::new("s".to_string());
    rec.state = SessionState::Running;
    let (out, r) = tr.send(&Frame::Close(CloseCode::GoAway), &mut rec);
    assert_eq!(out, "c[3000,\"Go away!\"]\n");
    assert_eq!(r, SendResult::Stop);
    assert_eq!(rec.state, SessionState::Closed);
}

#[test]
fn frames_before_ready_are_buffered() {
    let mut tr = TransportState::new(Framing::XhrStreaming, String::new(), MAXSIZE);
    let mut rec = Record::new("s".to_string());
    rec.state = SessionState::Running;
    let (out, release) = tr.handle_message(ChannelItem::Frame(msg("wait")), &mut rec);
    assert_eq!(out, "");
    assert!(!release);
    assert_eq!(rec.buffer.len(), 1);
    let (out2, release2) = tr.handle_message(ChannelItem::Ready, &mut rec);
    assert_eq!(out2, "a[\"wait\"]\n");
    assert!(!release2);
    assert!(tr.ready);
    let (out3, release3) = tr.handle_message(ChannelItem::Frame(msg("now")), &mut rec);
    assert_eq!(out3, "a[\"now\"]\n");
    assert!(!release3);
}

#[test]
fn broadcast_before_ready_keeps_order() {
    let mut tr = TransportState::new(Framing::XhrStreaming, String::new(), MAXSIZE);
    let mut rec = Record::new("s".to_string());
    rec.state = SessionState::Running;
    rec.add(msg("first"));
    let (out0, _) = tr.handle_broadcast(msg("fanout"), &mut rec);
    assert_eq!(out0, "");
    let (out, release) = tr.handle_message(ChannelItem::Ready, &mut rec);
    assert_eq!(out, "a[\"first\"]\na[\"fanout\"]\n");
    assert!(!release);
}

#[test]
fn heartbeat_chunks() {
    let xhr = TransportState::new(Framing::Xhr, String::new(), MAXSIZE);
    assert_eq!(xhr.heartbeat_chunk(), "h\n");
    let es = TransportState::new(Framing::EventSource, String::new(), MAXSIZE);
    assert_eq!(es.heartbeat_chunk(), "data: h\r\n\r\n");
    let jp = TransportState::new(Framing::Jsonp, "cb".to_string(), MAXSIZE);
    assert_eq!(jp.heartbeat_chunk(), "/**/cb(\"h\");\r\n");
}
