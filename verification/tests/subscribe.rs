use noetive::semantik::limits::MAX_SSE_FRAME_BYTES;
use noetive::semantik::subscribe::{
    decode_match, is_event_stream_content_type, match_item, open_stream, wrap_setup, Handshake,
    HandshakeStep, NextStep, Opening, Subscribed,
};
use noetive::semantik::{Error, ErrorCode, Float32, MatchEvent, SubscribeRequest, Subscription};
use reqwest::header::{HeaderMap, HeaderValue};

fn parse(data: &str) -> Result<MatchEvent, String> {
    let v: serde_json::Value = serde_json::from_str(data).map_err(|e| e.to_string())?;
    let score = v.get("score").and_then(|s| s.as_f64()).unwrap_or(0.0) as f32;
    Ok(MatchEvent {
        message_id: v
            .get("message_id")
            .and_then(|s| s.as_str())
            .unwrap_or("")
            .to_string(),
        score: Float32::from_bits(score.to_bits()),
    })
}

fn stream_headers() -> HeaderMap {
    let mut h = HeaderMap::new();
    h.insert("content-type", HeaderValue::from_static("text/event-stream"));
    h.insert("x-request-id", HeaderValue::from_static("r-1"));
    h
}

fn listening() -> Handshake {
    match open_stream(200, &stream_headers()) {
        Opening::Listen(h) => h,
        _ => panic!("expected a stream"),
    }
}

fn subscribed(step: HandshakeStep) -> Subscribed {
    match step {
        HandshakeStep::Decode(s) => s,
        other => panic!("expected a subscribed frame, got {other:?}"),
    }
}

fn failed(step: HandshakeStep) -> String {
    match step {
        HandshakeStep::Fail(e) => e.text(),
        other => panic!("expected a failure, got {other:?}"),
    }
}

fn subscription(body: &[u8]) -> Subscription {
    subscribed(listening().on_chunk(body))
        .finish(Ok("sub-1".to_string()))
        .unwrap()
}

fn queued(s: &mut Subscription) -> Vec<String> {
    let mut out = Vec::new();
    while let NextStep::Decode(data) = s.next_step() {
        out.push(data);
    }
    out
}

#[test]
fn content_type_accepts_with_charset() {
    assert!(is_event_stream_content_type(
        "text/event-stream; charset=utf-8"
    ));
    assert!(is_event_stream_content_type("text/event-stream"));
    assert!(is_event_stream_content_type("TEXT/EVENT-STREAM"));
    assert!(!is_event_stream_content_type("application/json"));
    assert!(!is_event_stream_content_type(""));
}

#[test]
fn content_type_tolerates_white_space_only() {
    assert!(is_event_stream_content_type("  Text/Event-Stream\t;x=y;z"));
    assert!(!is_event_stream_content_type("text/event-stream2"));
    assert!(!is_event_stream_content_type("text/event-strea"));
    assert!(!is_event_stream_content_type("text /event-stream"));
    assert!(!is_event_stream_content_type(";text/event-stream"));
}

fn valid_request() -> SubscribeRequest {
    SubscribeRequest {
        query: "q".into(),
        namespace: "global".into(),
        model: "Qwen3-Embedding-4B".into(),
        dimensions: 1024,
    }
}

#[test]
fn subscribe_validate_accepts_fully_specified_request() {
    assert!(valid_request().validate().is_ok());
}

#[test]
fn subscribe_validate_empty_query() {
    let r = SubscribeRequest {
        query: String::new(),
        ..valid_request()
    };
    assert!(r.validate().is_err());
}

#[test]
fn subscribe_validate_requires_targeting_fields() {
    // No defaults: an unset namespace/model/dimensions fails preflight.
    assert!(SubscribeRequest {
        namespace: String::new(),
        ..valid_request()
    }
    .validate()
    .is_err());
    assert!(SubscribeRequest {
        model: String::new(),
        ..valid_request()
    }
    .validate()
    .is_err());
    assert!(SubscribeRequest {
        dimensions: 0,
        ..valid_request()
    }
    .validate()
    .is_err());
}

#[test]
fn subscribe_preflight_is_not_wrapped() {
    let err = SubscribeRequest::default().validate().unwrap_err();
    assert!(err.is_preflight());
    assert_eq!(
        err.text(),
        "semantik: invalid_request: subscribe query must not be empty"
    );
}

#[test]
fn decode_match_event() {
    let data = r#"{"message_id":"abc","score":0.42}"#;
    let m = decode_match(data, parse(data)).unwrap();
    assert_eq!(m.message_id, "abc");
    assert!((f32::from_bits(m.score.bits) - 0.42).abs() < 1e-6);
}

#[test]
fn decode_match_event_malformed() {
    let err = decode_match("not json", parse("not json")).unwrap_err();
    assert!(matches!(err, Error::MalformedSse(_)));
}

#[test]
fn a_match_that_does_not_decode_is_a_stream_error() {
    let err = match_item("{", Err("cut short".to_string())).unwrap_err();
    assert!(matches!(err, Error::SubscribeStream { .. }));
    assert_eq!(
        err.text(),
        "semantik: subscribe stream failed: semantik: malformed SSE frame: decode match frame: cut short; payload={"
    );
    let m = match_item("{}", Ok(MatchEvent::default())).unwrap();
    assert_eq!((m.message_id.as_str(), m.score.bits), ("", 0));
}

#[test]
fn only_an_event_stream_is_listened_to() {
    assert!(matches!(
        open_stream(503, &stream_headers()),
        Opening::DecodeError
    ));
    let mut h = HeaderMap::new();
    h.insert("content-type", HeaderValue::from_static("application/json"));
    match open_stream(200, &h) {
        Opening::Refuse(e) => assert_eq!(
            e.text(),
            "semantik: malformed SSE frame: expected text/event-stream, got \"application/json\""
        ),
        _ => panic!("expected a refusal"),
    }
    match open_stream(200, &HeaderMap::new()) {
        Opening::Refuse(e) => assert_eq!(
            e.text(),
            "semantik: malformed SSE frame: expected text/event-stream, got \"\""
        ),
        _ => panic!("expected a refusal"),
    }
}

#[test]
fn handshake_waits_for_the_first_frame() {
    let h = listening();
    let h = match h.on_chunk(b": hello\n\nevent: subscr") {
        HandshakeStep::ReadMore(h) => h,
        other => panic!("expected to read more, got {other:?}"),
    };
    let s = subscribed(h.on_chunk(b"ibed\ndata: {\"subscription_id\":\"s\"}\n\nevent: match\ndata: 1\n\n"));
    assert_eq!(s.data(), "{\"subscription_id\":\"s\"}");
    let mut sub = s.finish(Ok("s".to_string())).unwrap();
    assert_eq!(sub.id(), "s");
    assert_eq!(sub.request_id(), Some("r-1"));
    assert_eq!(queued(&mut sub), vec!["1"]);
    assert!(matches!(sub.next_step(), NextStep::Read));
}

#[test]
fn handshake_accepts_a_frame_that_the_end_completes() {
    let h = match listening().on_chunk(b"event: subscribed\ndata: d") {
        HandshakeStep::ReadMore(h) => h,
        other => panic!("expected to read more, got {other:?}"),
    };
    let s = subscribed(h.on_end());
    assert_eq!(s.data(), "d");
    let mut sub = s.finish(Ok("s".to_string())).unwrap();
    assert!(matches!(sub.next_step(), NextStep::Read));
    sub.on_end();
    assert!(matches!(sub.next_step(), NextStep::Done));
}

#[test]
fn handshake_failures_say_what_is_wrong() {
    let said = |what: &str| format!("semantik: malformed SSE frame: {what}");
    assert_eq!(
        failed(listening().on_end()),
        said("stream closed before subscribed frame")
    );
    assert_eq!(
        failed(listening().on_chunk(b"event: match\ndata: x\n\n")),
        said("expected 'subscribed' event, got \"match\"")
    );
    let mut big = b"data: ".to_vec();
    big.extend(vec![b'a'; MAX_SSE_FRAME_BYTES]);
    assert_eq!(
        failed(listening().on_chunk(&big)),
        said("subscribed frame exceeds 65536 bytes")
    );
    big.extend(b"\n");
    assert_eq!(
        failed(listening().on_chunk(&big)),
        said("subscribed frame exceeds 65536 bytes")
    );
    let done = || subscribed(listening().on_chunk(b"event: subscribed\n\n"));
    assert_eq!(
        done().finish(Ok(String::new())).unwrap_err().text(),
        said("subscribed frame missing subscription_id")
    );
    assert_eq!(
        done().finish(Err("eof".to_string())).unwrap_err().text(),
        said("decode subscribed frame: eof")
    );
}

#[test]
fn handshake_body_errors_are_transport_errors() {
    let e = reqwest::Client::new().get("not a url").build().unwrap_err();
    let err = listening().on_error(e);
    assert!(matches!(err, Error::Transport(_)));
    let err = wrap_setup(err);
    assert!(matches!(err, Error::SubscribeSetup { .. }));
    assert!(err
        .text()
        .starts_with("semantik: subscribe handshake failed: semantik: transport: "));
}

#[test]
fn unknown_events_are_skipped() {
    let mut s = subscription(b"event: subscribed\n\n");
    s.on_chunk(b"event: ping\ndata: 0\n\nevent: match\ndata: 1\n\ndata: 2\n\nevent: match\ndata: 3\n\nevent: Match\ndata: 4\n\n");
    assert_eq!(s.try_take_match(), Some("1".to_string()));
    assert_eq!(s.try_take_match(), Some("3".to_string()));
    assert_eq!(s.try_take_match(), None);
}

#[test]
fn every_match_arrives_however_the_body_is_cut() {
    let body: &[u8] = b"event: subscribed\ndata: x\n\nevent: match\ndata: 1\n\nevent: match\r\ndata: 2\r\n\r\nevent: match\ndata: 3";
    for cut in 27..=body.len() {
        let mut s = subscription(&body[..cut]);
        let mut got = queued(&mut s);
        s.on_chunk(&body[cut..]);
        got.extend(queued(&mut s));
        s.on_end();
        got.extend(queued(&mut s));
        assert_eq!(got, vec!["1", "2", "3"], "cut at {cut}");
        assert!(matches!(s.next_step(), NextStep::Done));
    }
}

const OVERSIZED: &str =
    "semantik: subscribe stream failed: semantik: malformed SSE frame: frame exceeds 65536 bytes";

/// A field line over the cap that has not ended.
fn overlong() -> Vec<u8> {
    let mut line = b"data: ".to_vec();
    line.extend(vec![b'a'; MAX_SSE_FRAME_BYTES]);
    line
}

fn failure(s: &mut Subscription) -> Error {
    match s.next_step() {
        NextStep::Fail(e) => e,
        other => panic!("expected an error, got {other:?}"),
    }
}

#[test]
fn an_oversized_frame_closes_the_stream() {
    for end in ["", "\n", "\n\n"] {
        let mut s = subscription(b"event: subscribed\n\nevent: match\ndata: 1\n\n");
        let mut big = overlong();
        big.extend(end.as_bytes());
        s.on_chunk(&big);
        assert_eq!(s.try_take_match(), Some("1".to_string()));
        assert_eq!(failure(&mut s).text(), OVERSIZED);
        assert!(matches!(s.next_step(), NextStep::Done));
        // Nothing is read any more.
        s.on_chunk(b"\n\nevent: match\ndata: 2\n\n");
        s.on_end();
        assert!(matches!(s.next_step(), NextStep::Done));
        assert!(s.debug_text().contains("closed_with_error: true"));
    }
}

#[test]
fn matches_before_an_overlong_line_are_handed_out_first() {
    for end in ["", "\r", "\n\n", "\n\nevent: match\ndata: 9\n\n"] {
        let mut chunk = b"event: match\ndata: 1\n\nevent: match\ndata: 2\n\n".to_vec();
        chunk.extend(overlong());
        chunk.extend(end.as_bytes());
        let mut s = subscription(b"event: subscribed\n\n");
        s.on_chunk(&chunk);
        assert!(matches!(s.next_step(), NextStep::Decode(d) if d == "1"));
        assert!(matches!(s.next_step(), NextStep::Decode(d) if d == "2"));
        assert_eq!(failure(&mut s).text(), OVERSIZED);
        assert!(matches!(s.next_step(), NextStep::Done));
    }
}

#[test]
fn an_overlong_line_does_not_undo_a_good_handshake() {
    for end in ["", "\n", "\n\n"] {
        let mut chunk =
            b"event: subscribed\ndata: {}\n\nevent: match\ndata: 1\n\n".to_vec();
        chunk.extend(overlong());
        chunk.extend(end.as_bytes());
        let step = subscribed(listening().on_chunk(&chunk));
        assert_eq!(step.data(), "{}");
        let mut s = step.finish(Ok("s".to_string())).unwrap();
        assert_eq!(s.id(), "s");
        assert!(matches!(s.next_step(), NextStep::Decode(d) if d == "1"));
        assert_eq!(failure(&mut s).text(), OVERSIZED);
        assert!(matches!(s.next_step(), NextStep::Done));
    }
}

#[test]
fn a_body_error_closes_the_stream() {
    let mut s = subscription(b"event: subscribed\n\nevent: match\ndata: 1\n\n");
    let e = reqwest::Client::new().get("not a url").build().unwrap_err();
    s.on_body_error(e);
    assert_eq!(s.try_take_match(), Some("1".to_string()));
    let err = failure(&mut s);
    assert!(matches!(&err, Error::SubscribeStream { source } if matches!(**source, Error::Transport(_))));
    assert_eq!(err.code(), None);
    assert!(matches!(s.next_step(), NextStep::Done));
}

#[test]
fn setup_errors_keep_their_code() {
    let err = wrap_setup(Error::Api {
        code: ErrorCode::Unavailable,
        message: String::new(),
        request_id: None,
        retry_after: None,
        http_status: 503,
    });
    assert_eq!(err.code(), Some(&ErrorCode::Unavailable));
    assert_eq!(
        err.text(),
        "semantik: subscribe handshake failed: semantik: 503 unavailable"
    );
}

#[test]
fn debug_text_shows_the_state() {
    let s = subscription(b"event: subscribed\n\nevent: match\ndata: 1\n\n");
    assert_eq!(
        s.debug_text(),
        "Subscription { id: \"sub-1\", request_id: Some(\"r-1\"), finished: false, closed_with_error: false, pending_frames: 1 }"
    );
    let mut h = stream_headers();
    h.remove("x-request-id");
    let h = match open_stream(200, &h) {
        Opening::Listen(h) => h,
        _ => panic!("expected a stream"),
    };
    let mut s = subscribed(h.on_chunk(b"event: subscribed\n\n"))
        .finish(Ok("a\"b".to_string()))
        .unwrap();
    s.on_end();
    assert_eq!(s.request_id(), None);
    assert_eq!(
        s.debug_text(),
        "Subscription { id: \"a\\\"b\", request_id: None, finished: true, closed_with_error: false, pending_frames: 0 }"
    );
}
