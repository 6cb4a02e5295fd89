use sockjs::dispatch::{
    greeting_body, method_check, route, split_path, transport_by_name, HttpMethod, MethodOutcome,
    RouteMatch, SockJSConfig, TransportKind,
};
use sockjs::info::{info_body, Info};
use sockjs::manager::Record;
use sockjs::protocol::{CloseCode, Frame, SessionState};
use sockjs::sendapi::{
    check_callback, decode_jsonp_send_body, decode_send_body, jsonp_send_reply, raw_ws_attach,
    raw_ws_send, ws_inbound, xhr_send_reply, RawWsOut, SendPayload, WsInbound,
};
use sockjs::transport::AttachOutcome;

fn no_disabled() -> Vec<String> {
    Vec::new()
}

#[test]
fn greeting() {
    assert_eq!(greeting_body(), "Welcome to SockJS!\n");
    assert!(matches!(route("", &no_disabled()), RouteMatch::Greeting));
}

#[test]
fn fixed_routes() {
    assert!(matches!(route("info", &no_disabled()), RouteMatch::Info));
    assert!(matches!(route("websocket", &no_disabled()), RouteMatch::RawWebsocket));
    assert!(matches!(route("iframe.html", &no_disabled()), RouteMatch::IFrame));
    assert!(matches!(route("iframe-1.2.3.min.html", &no_disabled()), RouteMatch::IFrame));
    assert!(matches!(route("iframe.htm", &no_disabled()), RouteMatch::NotFound));
    assert!(matches!(route("nothing", &no_disabled()), RouteMatch::NotFound));
}

#[test]
fn transport_routes() {
    match route("srv/s1/xhr", &no_disabled()) {
        RouteMatch::Transport(server, session, t) => {
            assert_eq!(server, "srv");
            assert_eq!(session, "s1");
            assert_eq!(t, TransportKind::Xhr);
        },
        _ => panic!("three valid segments route to a transport"),
    }
    match route("a/b/jsonp_send", &no_disabled()) {
        RouteMatch::Transport(_, _, t) => assert_eq!(t, TransportKind::JsonpSend),
        _ => panic!("jsonp_send must route"),
    }
}

#[test]
fn invalid_components_rejected() {
    assert!(matches!(route("srv/s.1/xhr", &no_disabled()), RouteMatch::NotFound));
    assert!(matches!(route("s.rv/s1/xhr", &no_disabled()), RouteMatch::NotFound));
    assert!(matches!(route("srv//xhr", &no_disabled()), RouteMatch::NotFound));
    assert!(matches!(route("/s1/xhr", &no_disabled()), RouteMatch::NotFound));
    assert!(matches!(route("srv/s1/teleport", &no_disabled()), RouteMatch::NotFound));
    assert!(matches!(route("srv/s1/xhr/extra", &no_disabled()), RouteMatch::NotFound));
    assert!(matches!(route("srv/s1", &no_disabled()), RouteMatch::NotFound));
}

#[test]
fn disabled_websocket() {
    // With websocket disabled, its session route 404s and info reports
    // websocket:false.
    let disabled = vec!["websocket".to_string()];
    assert!(matches!(route("srv/s/websocket", &disabled), RouteMatch::NotFound));
    assert!(matches!(route("srv/s/xhr", &disabled), RouteMatch::Transport(_, _, _)));

    let mut cfg = SockJSConfig::new();
    assert!(cfg.websocket_enabled());
    cfg.disable_transport("websocket".to_string());
    assert!(!cfg.websocket_enabled());
    let i = Info::new(1, cfg.websocket_enabled(), cfg.cookie_needed);
    assert!(info_body(&i).contains("\"websocket\":false"));
}

#[test]
fn transport_names() {
    let names = [
        ("websocket", TransportKind::Websocket),
        ("xhr", TransportKind::Xhr),
        ("xhr_send", TransportKind::XhrSend),
        ("xhr_streaming", TransportKind::XhrStreaming),
        ("eventsource", TransportKind::EventSource),
        ("htmlfile", TransportKind::HtmlFile),
        ("jsonp", TransportKind::Jsonp),
        ("jsonp_send", TransportKind::JsonpSend),
    ];
    for (name, kind) in names {
        assert_eq!(transport_by_name(&name.to_string()), Some(kind));
    }
    assert_eq!(transport_by_name(&"ftp".to_string()), None);
}

#[test]
fn path_splitting() {
    assert_eq!(split_path("a/b/c"), vec!["a", "b", "c"]);
    assert_eq!(split_path("a"), vec!["a"]);
    assert_eq!(split_path(""), vec![""]);
    assert_eq!(split_path("a//c"), vec!["a", "", "c"]);
    assert_eq!(split_path("/x"), vec!["", "x"]);
}

#[test]
fn callback_validation() {
    assert!(check_callback("cb"));
    assert!(check_callback("parent.frames[0]".replace(['[', ']'], "_").as_str()));
    assert!(check_callback("A9_z.fn"));
    assert!(!check_callback(""));
    assert!(!check_callback("bad callback"));
    assert!(!check_callback("x;alert(1)"));
    assert!(!check_callback("a-b"));
}

#[test]
fn xhr_send_decoding() {
    match decode_send_body(&b"[\"x\",\"y\"]".to_vec()) {
        SendPayload::Messages(v) => assert_eq!(v, vec!["x".to_string(), "y".to_string()]),
        _ => panic!("a JSON array of strings decodes"),
    }
    match decode_send_body(&b"[]".to_vec()) {
        SendPayload::Messages(v) => assert!(v.is_empty()),
        _ => panic!("the empty array is accepted"),
    }
    assert!(matches!(decode_send_body(&Vec::new()), SendPayload::PayloadExpected));
    assert!(matches!(decode_send_body(&b"[\"x".to_vec()), SendPayload::BrokenJson));
    assert!(matches!(decode_send_body(&b"{\"a\":1}".to_vec()), SendPayload::BrokenJson));
}

#[test]
fn xhr_send_replies() {
    let r = xhr_send_reply(&decode_send_body(&Vec::new()), true);
    assert_eq!((r.status, r.body.as_str()), (500, "Payload expected."));
    let r = xhr_send_reply(&decode_send_body(&b"[\"x".to_vec()), true);
    assert_eq!((r.status, r.body.as_str()), (500, "Broken JSON encoding."));
    let r = xhr_send_reply(&decode_send_body(&b"[]".to_vec()), false);
    assert_eq!(r.status, 204);
    assert!(r.body.is_empty());
    let r = xhr_send_reply(&decode_send_body(&b"[\"m\"]".to_vec()), true);
    assert_eq!(r.status, 204);
    let r = xhr_send_reply(&decode_send_body(&b"[\"m\"]".to_vec()), false);
    assert_eq!(r.status, 404);
}

#[test]
fn jsonp_send_urlencoded() {
    // d=%5B%22x%22%5D percent-decodes to ["x"].
    match decode_jsonp_send_body(&b"d=%5B%22x%22%5D".to_vec(), true) {
        SendPayload::Messages(v) => assert_eq!(v, vec!["x".to_string()]),
        _ => panic!("the form field must decode"),
    }
    assert!(matches!(
        decode_jsonp_send_body(&b"d=".to_vec(), true),
        SendPayload::PayloadExpected
    ));
    assert!(matches!(
        decode_jsonp_send_body(&b"x=%5B%5D".to_vec(), true),
        SendPayload::PayloadExpected
    ));
    assert!(matches!(
        decode_jsonp_send_body(&b"d=%5B%22x".to_vec(), true),
        SendPayload::BrokenJson
    ));
    match decode_jsonp_send_body(&b"[\"raw\"]".to_vec(), false) {
        SendPayload::Messages(v) => assert_eq!(v, vec!["raw".to_string()]),
        _ => panic!("a raw JSON body must decode"),
    }
}

#[test]
fn jsonp_send_replies() {
    let r = jsonp_send_reply(&decode_jsonp_send_body(&b"[\"m\"]".to_vec(), false), true);
    assert_eq!((r.status, r.body.as_str()), (200, "ok"));
    let r = jsonp_send_reply(&decode_jsonp_send_body(&b"[]".to_vec(), false), true);
    assert_eq!((r.status, r.body.as_str()), (200, "ok"));
    let r = jsonp_send_reply(&decode_jsonp_send_body(&Vec::new(), false), true);
    assert_eq!((r.status, r.body.as_str()), (500, "Payload expected."));
    let r = jsonp_send_reply(&decode_jsonp_send_body(&b"[\"m\"]".to_vec(), false), false);
    assert_eq!(r.status, 404);
}

#[test]
fn websocket_inbound() {
    assert!(matches!(ws_inbound(""), WsInbound::Ignore));
    match ws_inbound("\"one\"") {
        WsInbound::Messages(v) => assert_eq!(v, vec!["one".to_string()]),
        _ => panic!("a single JSON string is one message"),
    }
    match ws_inbound("[\"a\",\"b\"]") {
        WsInbound::Messages(v) => assert_eq!(v, vec!["a".to_string(), "b".to_string()]),
        _ => panic!("a JSON array is several messages"),
    }
    assert!(matches!(ws_inbound("[broken"), WsInbound::CloseInvalid));
    assert!(matches!(ws_inbound("bare"), WsInbound::CloseInvalid));
}

#[test]
fn raw_websocket_rules() {
    let mut rec = Record::new("r".to_string());
    rec.state = SessionState::Running;
    assert!(matches!(raw_ws_send(Frame::Open, &mut rec), RawWsOut::Nothing));
    assert!(matches!(raw_ws_send(Frame::Heartbeat, &mut rec), RawWsOut::Ping));
    match raw_ws_send(Frame::Message("payload".to_string()), &mut rec) {
        RawWsOut::Text(t) => assert_eq!(t, "payload"),
        _ => panic!("raw mode sends payloads verbatim"),
    }
    match raw_ws_send(Frame::MessageBlob(vec![1, 2, 3]), &mut rec) {
        RawWsOut::Binary(b) => assert_eq!(b, vec![1, 2, 3]),
        _ => panic!("raw mode sends blobs as binary"),
    }
    assert!(matches!(
        raw_ws_send(Frame::Close(CloseCode::GoAway), &mut rec),
        RawWsOut::Close
    ));
    assert_eq!(rec.state, SessionState::Closed);
}

#[test]
fn method_rules() {
    assert_eq!(method_check(TransportKind::Xhr, HttpMethod::Post), MethodOutcome::Proceed);
    assert_eq!(method_check(TransportKind::Xhr, HttpMethod::Options), MethodOutcome::Preflight);
    assert_eq!(method_check(TransportKind::Xhr, HttpMethod::Get), MethodOutcome::Refuse(405));
    assert_eq!(
        method_check(TransportKind::XhrStreaming, HttpMethod::Other),
        MethodOutcome::Refuse(405)
    );
    assert_eq!(method_check(TransportKind::XhrSend, HttpMethod::Get), MethodOutcome::Refuse(400));
    assert_eq!(
        method_check(TransportKind::XhrSend, HttpMethod::Options),
        MethodOutcome::Preflight
    );
    assert_eq!(method_check(TransportKind::EventSource, HttpMethod::Get), MethodOutcome::Proceed);
    assert_eq!(
        method_check(TransportKind::EventSource, HttpMethod::Post),
        MethodOutcome::Refuse(405)
    );
    assert_eq!(method_check(TransportKind::Jsonp, HttpMethod::Get), MethodOutcome::Proceed);
    assert_eq!(
        method_check(TransportKind::JsonpSend, HttpMethod::Get),
        MethodOutcome::Refuse(400)
    );
    assert_eq!(method_check(TransportKind::JsonpSend, HttpMethod::Post), MethodOutcome::Proceed);
    assert_eq!(method_check(TransportKind::HtmlFile, HttpMethod::Get), MethodOutcome::Proceed);
    assert_eq!(method_check(TransportKind::Websocket, HttpMethod::Get), MethodOutcome::Proceed);
    assert_eq!(
        method_check(TransportKind::Websocket, HttpMethod::Post),
        MethodOutcome::Refuse(405)
    );
}

#[test]
fn raw_websocket_attach() {
    // A new raw session: Open yields nothing, buffered payloads follow
    // verbatim.
    let mut rec = Record::new("r".to_string());
    rec.add(Frame::Message("queued".to_string()));
    let (outs, outcome) = raw_ws_attach(&mut rec);
    assert_eq!(outcome, AttachOutcome::Attached);
    assert_eq!(outs.len(), 2);
    assert!(matches!(outs[0], RawWsOut::Nothing));
    match &outs[1] {
        RawWsOut::Text(t) => assert_eq!(t, "queued"),
        _ => panic!("buffered payloads go out verbatim"),
    }
    assert_eq!(rec.state, SessionState::Running);
    assert!(rec.buffer.is_empty());

    // An interrupted session gets the socket close at once.
    let mut rec2 = Record::new("r2".to_string());
    rec2.state = SessionState::Interrupted;
    let (outs2, outcome2) = raw_ws_attach(&mut rec2);
    assert_eq!(outcome2, AttachOutcome::Release);
    assert_eq!(outs2.len(), 1);
    assert!(matches!(outs2[0], RawWsOut::Close));
    assert_eq!(rec2.state, SessionState::Closed);
}

#[test]
fn config_surface() {
    let mut cfg = SockJSConfig::new();
    assert_eq!(cfg.max_size, 131072);
    assert!(!cfg.cookie_needed);
    cfg.maxsize(4096);
    assert_eq!(cfg.max_size, 4096);
    cfg.set_cookie_needed(true);
    assert!(cfg.cookie_needed);
}
