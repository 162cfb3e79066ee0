use noetive::semantik::decode::{
    decode_error_response, decode_error_response_at, error_body, parse_retry_after_header,
    retry_after_at, status_code_fallback, ErrorEnvelope,
};
use noetive::semantik::headers::request_id_from_headers;
use noetive::semantik::limits::{MAX_ERROR_BODY_BYTES, MAX_RESPONSE_BYTES};
use noetive::semantik::transport::{
    encode_failure, finish_response, is_success, on_reply, reads_on, ReplyStep, SetRequestId,
};
use noetive::semantik::{Duration, Error, ErrorCode, LintResponse, PublishResponse, SearchResponse};
use reqwest::header::{HeaderMap, HeaderValue};
use serde_json::Value;

fn hdrs(pairs: &[(&'static str, &'static str)]) -> HeaderMap {
    let mut h = HeaderMap::new();
    for (k, v) in pairs {
        h.insert(*k, HeaderValue::from_static(v));
    }
    h
}

fn text_field(v: &Value, name: &str) -> String {
    v.get(name)
        .and_then(|f| f.as_str())
        .unwrap_or("")
        .to_string()
}

fn envelope(body: &[u8]) -> Option<ErrorEnvelope> {
    let v: Value = serde_json::from_slice(body).ok()?;
    v.as_object()?;
    Some(ErrorEnvelope {
        error: text_field(&v, "error"),
        message: text_field(&v, "message"),
        request_id: text_field(&v, "request_id"),
        retry_after_ms: v
            .get("retry_after_ms")
            .and_then(|f| f.as_u64())
            .unwrap_or(0) as u32,
    })
}

const NOW: i128 = 1_700_000_000_000_000_000;

fn decode(status: u16, headers: &HeaderMap, body: &[u8]) -> Error {
    decode_error_response(status, headers, body, envelope(error_body(body)))
}

#[test]
fn empty_body_falls_back_to_status_code() {
    let err = decode(401, &HeaderMap::new(), b"");
    match err {
        Error::Api {
            code, http_status, ..
        } => {
            assert_eq!(code, ErrorCode::Unauthorized);
            assert_eq!(http_status, 401);
        }
        _ => panic!("expected Api"),
    }
}

#[test]
fn json_envelope_decodes() {
    let body = br#"{"error":"backpressure","message":"slow down","request_id":"req-1","retry_after_ms":500}"#;
    let err = decode(429, &HeaderMap::new(), body);
    match err {
        Error::Api {
            code,
            message,
            request_id,
            retry_after,
            http_status,
        } => {
            assert_eq!(code, ErrorCode::Backpressure);
            assert_eq!(message, "slow down");
            assert_eq!(request_id.as_deref(), Some("req-1"));
            assert_eq!(retry_after, Some(Duration::from_millis(500)));
            assert_eq!(http_status, 429);
        }
        _ => panic!("expected Api"),
    }
}

#[test]
fn unknown_code_preserved() {
    let body = br#"{"error":"future_code","message":"unrecognised"}"#;
    let err = decode(500, &HeaderMap::new(), body);
    match err.code() {
        Some(ErrorCode::Unknown(s)) => assert_eq!(s, "future_code"),
        other => panic!("expected Unknown, got {other:?}"),
    }
}

#[test]
fn empty_body_on_429_picks_rate_limited_not_backpressure() {
    // Deliberate asymmetry.
    let err = decode(429, &HeaderMap::new(), b"");
    assert_eq!(err.code(), Some(&ErrorCode::RateLimited));
}

#[test]
fn body_retry_hint_wins_over_header() {
    let body = br#"{"error":"backpressure","retry_after_ms":250}"#;
    let h = hdrs(&[("retry-after", "10")]);
    let err = decode(429, &h, body);
    assert_eq!(err.retry_after(), Some(Duration::from_millis(250)));
}

#[test]
fn header_retry_used_when_body_absent() {
    let h = hdrs(&[("retry-after", "5")]);
    let err = decode(503, &h, b"");
    assert_eq!(err.retry_after(), Some(Duration::from_secs(5)));
}

#[test]
fn malformed_body_keeps_status_and_excerpt() {
    let body = b"not json at all";
    let err = decode(500, &HeaderMap::new(), body);
    match err {
        Error::Api {
            code,
            message,
            http_status,
            ..
        } => {
            assert_eq!(code, ErrorCode::InternalError);
            assert_eq!(http_status, 500);
            assert!(message.contains("not json at all"));
        }
        _ => panic!("expected Api"),
    }
}

#[test]
fn header_request_id_fallback() {
    let h = hdrs(&[("x-request-id", "abc-123")]);
    let err = decode(500, &h, b"");
    assert_eq!(err.request_id(), Some("abc-123"));
}

#[test]
fn body_request_id_wins() {
    let h = hdrs(&[("x-request-id", "hdr")]);
    let body = br#"{"error":"internal_error","request_id":"body"}"#;
    let err = decode(500, &h, body);
    assert_eq!(err.request_id(), Some("body"));
}

#[test]
fn huge_retry_after_clamped_to_none() {
    let h = hdrs(&[("retry-after", "9999999")]);
    let err = decode(503, &h, b"");
    assert!(err.retry_after().is_none());
}

#[test]
fn preflight_has_zero_status_and_is_marker() {
    let err = Error::preflight("bad query".to_string());
    assert!(err.is_preflight());
    assert_eq!(err.http_status(), Some(0));
    assert_eq!(err.code(), Some(&ErrorCode::InvalidRequest));
}

fn all_codes() -> Vec<ErrorCode> {
    vec![
        ErrorCode::InvalidRequest,
        ErrorCode::Unauthorized,
        ErrorCode::NotBillable,
        ErrorCode::MethodNotAllowed,
        ErrorCode::UnsupportedMediaType,
        ErrorCode::RequestTooLarge,
        ErrorCode::RateLimited,
        ErrorCode::TooManyRequests,
        ErrorCode::Backpressure,
        ErrorCode::Unavailable,
        ErrorCode::NamespaceUnavailable,
        ErrorCode::NamespaceDisabled,
        ErrorCode::ModelNotProvisioned,
        ErrorCode::MeteringUnavailable,
        ErrorCode::InternalError,
        ErrorCode::MalformedResponse,
    ]
}

#[test]
fn error_codes_round_trip_via_wire() {
    for c in &all_codes() {
        let s = c.as_str();
        assert_eq!(&ErrorCode::from_wire(s), c, "round-trip failed for {s}");
    }
}

#[test]
fn codes_have_their_wire_names() {
    let names: Vec<String> = all_codes().iter().map(|c| c.as_str().to_string()).collect();
    assert_eq!(
        names,
        vec![
            "invalid_request",
            "unauthorized",
            "not_billable",
            "method_not_allowed",
            "unsupported_media_type",
            "request_too_large",
            "rate_limited",
            "too_many_requests",
            "backpressure",
            "unavailable",
            "namespace_unavailable",
            "namespace_disabled",
            "model_not_provisioned",
            "metering_unavailable",
            "internal_error",
            "malformed_response",
        ]
    );
    assert_eq!(ErrorCode::from_wire("").as_str(), "");
}

#[test]
fn statuses_fall_back_to_codes() {
    let expected = [
        (400, ErrorCode::InvalidRequest),
        (401, ErrorCode::Unauthorized),
        (402, ErrorCode::NotBillable),
        (405, ErrorCode::MethodNotAllowed),
        (413, ErrorCode::RequestTooLarge),
        (415, ErrorCode::UnsupportedMediaType),
        (429, ErrorCode::RateLimited),
        (503, ErrorCode::Unavailable),
        (500, ErrorCode::InternalError),
        (404, ErrorCode::InternalError),
    ];
    for (status, code) in expected {
        assert_eq!(status_code_fallback(status), code);
    }
}

#[test]
fn an_envelope_without_a_code_falls_back_to_the_status() {
    let err = decode(402, &HeaderMap::new(), br#"{"message":"pay"}"#);
    assert_eq!(err.code(), Some(&ErrorCode::NotBillable));
    assert_eq!(err.text(), "semantik: 402 not_billable: pay");
}

#[test]
fn hints_of_more_than_an_hour_are_dropped() {
    let h = hdrs(&[("retry-after", "3600")]);
    assert_eq!(
        parse_retry_after_header(&h),
        Some(Duration::from_secs(3600))
    );
    let h = hdrs(&[("retry-after", "3601")]);
    assert_eq!(parse_retry_after_header(&h), None);
    for bad in ["", "0", "-5", "soon", "1.5", "99999999999999999999"] {
        let h = hdrs(&[("retry-after", bad)]);
        assert_eq!(parse_retry_after_header(&h), None, "{bad}");
    }
    let h = hdrs(&[("retry-after", " +7 ")]);
    assert_eq!(
        parse_retry_after_header(&h),
        Some(Duration::from_secs(7))
    );
    let err = decode(
        503,
        &hdrs(&[("retry-after", "4")]),
        br#"{"error":"unavailable","retry_after_ms":4294967295}"#,
    );
    assert_eq!(err.retry_after(), Some(Duration::from_secs(4)));
}

#[test]
fn dates_count_from_now() {
    // 1_700_000_000 is Tue, 14 Nov 2023 22:13:20 GMT.
    let h = hdrs(&[("Retry-After", "Tue, 14 Nov 2023 22:13:50 GMT")]);
    assert_eq!(
        retry_after_at(&h, NOW),
        Some(Duration::from_secs(30))
    );
    assert_eq!(
        retry_after_at(&h, NOW + 1),
        Some(Duration::new(29, 999_999_999))
    );
    assert_eq!(
        retry_after_at(&h, NOW + 30_000_000_000),
        None
    );
    assert_eq!(
        retry_after_at(&h, NOW - 3_570_000_000_000),
        Some(Duration::from_secs(3600))
    );
    assert_eq!(retry_after_at(&h, NOW - 3_570_000_000_001), None);
    let err = decode_error_response_at(503, &h, b"", None, NOW);
    assert_eq!(err.retry_after(), Some(Duration::from_secs(30)));
    // By the clock this date has passed.
    assert_eq!(parse_retry_after_header(&h), None);
}

#[test]
fn a_long_malformed_body_is_excerpted() {
    let body = vec![b'a'; 300];
    let err = decode(500, &HeaderMap::new(), &body);
    match err {
        Error::Api { message, .. } => {
            assert!(message.starts_with("malformed body (300 bytes; first 256: [97, 97, "));
            assert!(message.ends_with("97, 97])"));
            assert_eq!(message.matches("97").count(), 256);
        }
        _ => panic!("expected Api"),
    }
    let body = vec![0xffu8; 2];
    let err = decode(500, &HeaderMap::new(), &body);
    match err {
        Error::Api { message, .. } => assert_eq!(message, "\u{fffd}\u{fffd}"),
        _ => panic!("expected Api"),
    }
}

#[test]
fn only_the_head_of_an_error_body_is_looked_at() {
    let body = vec![b'x'; MAX_ERROR_BODY_BYTES + 10];
    assert_eq!(error_body(&body).len(), MAX_ERROR_BODY_BYTES);
    assert_eq!(error_body(b"abc"), b"abc");
    let err = decode(500, &HeaderMap::new(), &body);
    assert!(err.text().contains("(65536 bytes;"));
}

#[test]
fn request_ids_are_read_from_headers() {
    assert_eq!(
        request_id_from_headers(&hdrs(&[("X-Request-Id", "r-1")])),
        Some("r-1".to_string())
    );
    assert_eq!(request_id_from_headers(&HeaderMap::new()), None);
    assert_eq!(request_id_from_headers(&hdrs(&[("x-request-id", "")])), None);
    let mut h = HeaderMap::new();
    h.insert("x-request-id", HeaderValue::from_bytes(b"a\xe9").unwrap());
    assert_eq!(request_id_from_headers(&h), None);
    let mut h = HeaderMap::new();
    h.append("x-request-id", HeaderValue::from_static("first"));
    h.append("x-request-id", HeaderValue::from_static("second"));
    assert_eq!(request_id_from_headers(&h), Some("first".to_string()));
}

#[test]
fn errors_say_what_happened() {
    assert_eq!(
        Error::preflight("bad query".to_string()).text(),
        "semantik: invalid_request: bad query"
    );
    assert_eq!(
        Error::preflight(String::new()).text(),
        "semantik: invalid_request"
    );
    assert_eq!(
        Error::malformed_response("x".to_string(), 200).text(),
        "semantik: 200 malformed_response: x"
    );
    assert_eq!(Error::InvalidApiKey.text(), "semantik: invalid API key");
    assert_eq!(
        Error::MissingApiKey.text(),
        "semantik: NOETIVE_KEY_SECRET not set"
    );
    let sse = Error::MalformedSse("oops".to_string());
    assert_eq!(sse.text(), "semantik: malformed SSE frame: oops");
    assert_eq!(sse.code(), None);
    assert_eq!(sse.http_status(), None);
    assert_eq!(sse.request_id(), None);
    assert_eq!(sse.retry_after(), None);
    assert!(!sse.is_preflight());
    let wrapped = Error::SubscribeSetup {
        source: Box::new(Error::SubscribeStream {
            source: Box::new(sse),
        }),
    };
    assert_eq!(
        wrapped.text(),
        "semantik: subscribe handshake failed: semantik: subscribe stream failed: semantik: malformed SSE frame: oops"
    );
}

#[test]
fn transport_errors_speak_for_themselves() {
    let e = reqwest::Client::new().get("not a url").build().unwrap_err();
    let said = e.to_string();
    let err = Error::Transport(e);
    assert_eq!(err.text(), format!("semantik: transport: {said}"));
    assert_eq!(err.code(), None);
}

#[test]
fn wraps_are_seen_through() {
    let inner = decode(
        503,
        &hdrs(&[("x-request-id", "r-9"), ("retry-after", "2")]),
        br#"{"error":"unavailable"}"#,
    );
    let err = Error::SubscribeSetup {
        source: Box::new(inner),
    };
    assert_eq!(err.code(), Some(&ErrorCode::Unavailable));
    assert_eq!(err.http_status(), Some(503));
    assert_eq!(err.request_id(), Some("r-9"));
    assert_eq!(err.retry_after(), Some(Duration::from_secs(2)));
    let err = Error::SubscribeSetup {
        source: Box::new(Error::preflight("x".to_string())),
    };
    assert!(!err.is_preflight());
}

#[test]
fn success_is_two_hundred_something() {
    assert!(!is_success(199));
    assert!(is_success(200));
    assert!(is_success(299));
    assert!(!is_success(300));
}

#[test]
fn replies_are_sorted_by_status_and_then_size() {
    assert!(matches!(on_reply(200, b"{}"), ReplyStep::DecodeResponse));
    assert!(matches!(on_reply(404, b"{}"), ReplyStep::DecodeError));
    assert!(matches!(
        on_reply(200, &vec![b' '; MAX_RESPONSE_BYTES]),
        ReplyStep::DecodeResponse
    ));
    let huge = vec![b' '; MAX_RESPONSE_BYTES + 1];
    match on_reply(200, &huge) {
        ReplyStep::Refuse(e) => {
            assert_eq!(
                e.text(),
                "semantik: 200 malformed_response: response body 1048577 bytes exceeds 1048576 byte cap"
            );
            assert_eq!(e.code(), Some(&ErrorCode::MalformedResponse));
        }
        _ => panic!("expected a refusal"),
    }
    assert!(matches!(on_reply(503, &huge), ReplyStep::DecodeError));
    let err = decode(503, &HeaderMap::new(), &huge);
    assert_eq!(err.code(), Some(&ErrorCode::Unavailable));
    assert_eq!(err.http_status(), Some(503));
}

#[test]
fn a_body_is_read_no_further_than_it_counts() {
    assert!(reads_on(200, 0));
    assert!(reads_on(200, MAX_RESPONSE_BYTES));
    assert!(!reads_on(200, MAX_RESPONSE_BYTES + 1));
    assert!(reads_on(500, MAX_ERROR_BODY_BYTES - 1));
    assert!(!reads_on(500, MAX_ERROR_BODY_BYTES));
}

#[test]
fn responses_are_stamped_with_the_request_id() {
    let h = hdrs(&[("x-request-id", "r-2")]);
    let publish = PublishResponse {
        message_id: "m".to_string(),
        epoch: 1,
        seq: 2,
        request_id: None,
    };
    let r = finish_response(200, &h, Ok(publish)).unwrap();
    assert_eq!(r.request_id.as_deref(), Some("r-2"));
    assert_eq!((r.message_id.as_str(), r.epoch, r.seq), ("m", 1, 2));

    let search = SearchResponse {
        results: Vec::new(),
        request_id: Some("stale".to_string()),
    };
    let r = finish_response(200, &HeaderMap::new(), Ok(search)).unwrap();
    assert_eq!(r.request_id, None);

    let mut lint = LintResponse {
        normalized: "q".to_string(),
        diagnostics: Vec::new(),
        completions: Vec::new(),
        valid: true,
        request_id: None,
    };
    lint.set_request_id(Some("r-3".to_string()));
    assert_eq!(lint.request_id.as_deref(), Some("r-3"));
    assert!(lint.valid);

    let err = finish_response::<PublishResponse>(201, &h, Err("bad byte".to_string())).unwrap_err();
    assert_eq!(
        err.text(),
        "semantik: 201 malformed_response: decode response: bad byte"
    );
}

#[test]
fn what_cannot_be_encoded_never_reaches_the_wire() {
    let err = encode_failure("encode request: ", "no");
    assert_eq!(
        err.text(),
        "semantik: malformed_response: encode request: no"
    );
    assert_eq!(err.http_status(), Some(0));
}
