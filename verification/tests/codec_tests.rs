use sockjs::codec::{
    encode_close, encode_eventsource, encode_frame, encode_htmlfile, encode_jsonp,
    encode_websocket, encode_xhr, eventsource_prelude, htmlfile_prelude, streaming_prelude,
};
use sockjs::headers::{
    allow_methods_info, allow_methods_post, cache_headers, cors_headers, no_cache_value,
    session_cookie_value,
};
use sockjs::iframe::iframe_response;
use sockjs::info::{entropy, info_body, u32_to_dec, Info};
use sockjs::protocol::{CloseCode, Frame};

#[test]
fn close_code_numbers() {
    assert_eq!(CloseCode::Interrupted.num(), 1002);
    assert_eq!(CloseCode::Acquired.num(), 2010);
    assert_eq!(CloseCode::GoAway.num(), 3000);
    assert_eq!(CloseCode::InternalError.num(), 3000);
}

#[test]
fn close_code_reasons() {
    assert_eq!(CloseCode::Interrupted.reason(), "Connection interrupted");
    assert_eq!(CloseCode::GoAway.reason(), "Go away!");
    assert_eq!(CloseCode::Acquired.reason(), "Another connection still open");
    assert_eq!(CloseCode::InternalError.reason(), "Internal error");
}

#[test]
fn frame_is_msg() {
    assert!(Frame::Message("x".to_string()).is_msg());
    assert!(!Frame::Open.is_msg());
    assert!(!Frame::MessageVec("[\"x\"]".to_string()).is_msg());
    assert_eq!(Frame::Message("pay".to_string()).into_message(), "pay");
}

#[test]
fn close_frame_encoding() {
    assert_eq!(encode_close(CloseCode::GoAway), "c[3000,\"Go away!\"]");
    assert_eq!(encode_close(CloseCode::Interrupted), "c[1002,\"Connection interrupted\"]");
    assert_eq!(encode_close(CloseCode::Acquired), "c[2010,\"Another connection still open\"]");
    assert_eq!(encode_close(CloseCode::InternalError), "c[3000,\"Internal error\"]");
}

#[test]
fn xhr_framing() {
    assert_eq!(encode_xhr(&Frame::Open), "o\n");
    assert_eq!(encode_xhr(&Frame::Heartbeat), "h\n");
    assert_eq!(encode_xhr(&Frame::Message("hello".to_string())), "a[\"hello\"]\n");
    assert_eq!(
        encode_xhr(&Frame::MessageVec("[\"a\",\"b\"]".to_string())),
        "a[\"a\",\"b\"]\n"
    );
    assert_eq!(
        encode_xhr(&Frame::Close(CloseCode::GoAway)),
        "c[3000,\"Go away!\"]\n"
    );
}

#[test]
fn xhr_framing_escapes_message() {
    // The JSON encoder must escape, not echo, the payload.
    assert_eq!(
        encode_xhr(&Frame::Message("he\"llo\\".to_string())),
        "a[\"he\\\"llo\\\\\"]\n"
    );
}

#[test]
fn eventsource_framing() {
    assert_eq!(encode_eventsource(&Frame::Open), "data: o\r\n\r\n");
    assert_eq!(encode_eventsource(&Frame::Heartbeat), "data: h\r\n\r\n");
    assert_eq!(
        encode_eventsource(&Frame::Message("m".to_string())),
        "data: a[\"m\"]\r\n\r\n"
    );
    assert_eq!(eventsource_prelude(), "\r\n");
}

#[test]
fn htmlfile_framing() {
    assert_eq!(
        encode_htmlfile(&Frame::Heartbeat),
        "<script>\np(\"h\");\n</script>\r\n"
    );
    assert_eq!(
        encode_htmlfile(&Frame::Message("m".to_string())),
        "<script>\np(\"a[\\\"m\\\"]\");\n</script>\r\n"
    );
}

#[test]
fn jsonp_framing() {
    assert_eq!(encode_jsonp("cb", &Frame::Open), "/**/cb(\"o\");\r\n");
    assert_eq!(
        encode_jsonp("callback.fn", &Frame::Message("x".to_string())),
        "/**/callback.fn(\"a[\\\"x\\\"]\");\r\n"
    );
}

#[test]
fn websocket_framing() {
    assert_eq!(encode_websocket(&Frame::Open), "o");
    assert_eq!(encode_websocket(&Frame::Heartbeat), "h");
    assert_eq!(
        encode_websocket(&Frame::Close(CloseCode::GoAway)),
        "c[3000,\"Go away!\"]"
    );
    assert_eq!(encode_frame(&Frame::Message("z".to_string())), "a[\"z\"]");
}

#[test]
fn streaming_prelude_shape() {
    let p = streaming_prelude();
    assert_eq!(p.len(), 2050);
    assert!(p[..2049].bytes().all(|b| b == b'h'));
    assert!(p.ends_with('\n'));
}

#[test]
fn htmlfile_prelude_shape() {
    let p = htmlfile_prelude("cb");
    assert!(p.contains("var c = parent.cb;"));
    assert!(p.contains("function p(d) {c.message(d);};"));
    assert!(p.ends_with(&" ".repeat(1024)));
    assert!(p.trim_end().len() + 1024 == p.len());
}

#[test]
fn cors_mirrors_origin() {
    let origin = "https://example.test".to_string();
    let h = cors_headers(Some(&origin), None);
    assert_eq!(h.allow_origin, "https://example.test");
    assert!(h.allow_credentials);
    assert!(h.allow_headers.is_none());
}

#[test]
fn cors_wildcard_cases() {
    let h = cors_headers(None, None);
    assert_eq!(h.allow_origin, "*");
    assert!(!h.allow_credentials);

    let star = "*".to_string();
    let h2 = cors_headers(Some(&star), None);
    assert_eq!(h2.allow_origin, "*");
    assert!(!h2.allow_credentials);
}

#[test]
fn cors_propagates_request_headers() {
    let origin = "http://a.b".to_string();
    let acrh = "X-Custom, Content-Type".to_string();
    let h = cors_headers(Some(&origin), Some(&acrh));
    assert_eq!(h.allow_headers.as_deref(), Some("X-Custom, Content-Type"));
}

#[test]
fn cookie_policy() {
    let existing = "abc123".to_string();
    assert_eq!(session_cookie_value(Some(&existing)), "abc123");
    assert_eq!(session_cookie_value(None), "dummy");
}

#[test]
fn header_constants() {
    assert_eq!(
        no_cache_value(),
        "no-store, no-cache, no-transform, must-revalidate, max-age=0"
    );
    assert_eq!(allow_methods_info(), "OPTIONS, GET");
    assert_eq!(allow_methods_post(), "OPTIONS, POST");
    let c = cache_headers();
    assert_eq!(c.cache_control, "max-age=31536000, public");
    assert_eq!(c.max_age, "31536000");
}

#[test]
fn iframe_fresh_request() {
    let r = iframe_response(false);
    assert_eq!(r.status, 200);
    assert!(r.body.contains("SockJS.bootstrap_iframe();"));
    let etag = r.etag.expect("fresh response carries an ETag");
    assert_eq!(etag.len(), 32);
    assert!(etag.bytes().all(|b| b.is_ascii_hexdigit() && !b.is_ascii_uppercase()));
    let expected = format!("{:x}", md5::compute(r.body.as_bytes()));
    assert_eq!(etag, expected);
}

#[test]
fn iframe_not_modified() {
    let fresh = iframe_response(false);
    let etag = fresh.etag.unwrap();
    assert!(!etag.is_empty());
    let again = iframe_response(true);
    assert_eq!(again.status, 304);
    assert!(again.body.is_empty());
    assert!(again.etag.is_none());
}

#[test]
fn decimal_rendering() {
    assert_eq!(u32_to_dec(0), "0");
    assert_eq!(u32_to_dec(7), "7");
    assert_eq!(u32_to_dec(42), "42");
    assert_eq!(u32_to_dec(4294967295), "4294967295");
}

#[test]
fn info_document() {
    let i = Info::new(1234, true, false);
    assert_eq!(
        info_body(&i),
        "{\"entropy\":1234,\"websocket\":true,\"cookie_needed\":false,\"origins\":[\"*:*\"]}"
    );
    let v: serde_json::Value = serde_json::from_str(&info_body(&i)).unwrap();
    assert_eq!(v["entropy"], 1234);
    assert_eq!(v["websocket"], true);
    assert_eq!(v["cookie_needed"], false);
    assert_eq!(v["origins"][0], "*:*");
}

#[test]
fn info_entropy_varies() {
    let a = entropy();
    let b = entropy();
    let c = entropy();
    // Three equal uniform draws are astronomically unlikely.
    assert!(!(a == b && b == c));
}
