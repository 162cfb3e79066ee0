use noetive::semantik::publish::is_default_ack;
use noetive::semantik::search::is_zero;
use noetive::semantik::{
    AckMode, Error, Float32, LintRequest, Metadata, PublishItem, PublishRequest, SearchRequest,
    MAX_IDEMPOTENCY_KEY_LEN,
};

fn floats(v: &[f32]) -> Vec<Float32> {
    v.iter().map(|f| Float32::from_bits(f.to_bits())).collect()
}

/// A fully-specified request the validator should accept, so each
/// negative test can flip exactly one field.
fn publish_request() -> PublishRequest {
    PublishRequest {
        items: vec![PublishItem::text("hi")],
        namespace: "global".into(),
        model: "Qwen3-Embedding-4B".into(),
        dimensions: 1024,
        ..Default::default()
    }
}

fn search_request() -> SearchRequest {
    SearchRequest {
        query: "q".into(),
        namespace: "global".into(),
        model: "Qwen3-Embedding-4B".into(),
        dimensions: 1024,
        limit: 0,
    }
}

fn message(r: Result<(), Error>) -> String {
    r.unwrap_err().text()
}

#[test]
fn lint_empty_query_rejected() {
    let r = LintRequest::default();
    assert!(r.validate().is_err());
}

#[test]
fn cursor_past_end_rejected() {
    let r = LintRequest {
        query: "abc".into(),
        cursor: 10,
    };
    assert!(r.validate().is_err());
}

#[test]
fn cursor_at_end_is_ok() {
    let r = LintRequest {
        query: "abc".into(),
        cursor: 3,
    };
    assert!(r.validate().is_ok());
}

#[test]
fn lint_rejections_say_what_is_wrong() {
    assert_eq!(
        message(LintRequest::default().validate()),
        "semantik: invalid_request: lint query must not be empty"
    );
    let r = LintRequest {
        query: "né".into(),
        cursor: 4,
    };
    assert_eq!(
        message(r.validate()),
        "semantik: invalid_request: lint cursor 4 exceeds query length 3"
    );
}

#[test]
fn publish_validate_accepts_fully_specified_request() {
    assert!(publish_request().validate().is_ok());
}

#[test]
fn validate_requires_namespace() {
    // No default is applied: an unset namespace is a hard error, not
    // a silent fall-back to a shared namespace.
    let r = PublishRequest {
        namespace: String::new(),
        ..publish_request()
    };
    assert!(r.validate().is_err());
}

#[test]
fn validate_requires_model() {
    let r = PublishRequest {
        model: String::new(),
        ..publish_request()
    };
    assert!(r.validate().is_err());
}

#[test]
fn validate_requires_dimensions() {
    let r = PublishRequest {
        dimensions: 0,
        ..publish_request()
    };
    assert!(r.validate().is_err());
}

#[test]
fn validate_rejects_long_idempotency_key() {
    let r = PublishRequest {
        idempotency_key: Some("a".repeat(MAX_IDEMPOTENCY_KEY_LEN + 1)),
        ..publish_request()
    };
    assert!(r.validate().is_err());
}

#[test]
fn publish_item_constructors_are_xor() {
    let t = PublishItem::text("hello");
    assert!(!t.text.is_empty());
    assert!(t.vector.is_empty());
    let v = PublishItem::vector(floats(&[1.0, 2.0]));
    assert!(v.text.is_empty());
    assert!(!v.vector.is_empty());
}

#[test]
fn publish_rejections_come_in_order() {
    let mut r = PublishRequest::default();
    assert_eq!(
        message(r.validate()),
        "semantik: invalid_request: namespace must not be empty"
    );
    r.namespace = "n".into();
    r.model = "m".into();
    r.dimensions = 2;
    r.idempotency_key = Some("k".repeat(257));
    r.metadata.insert(String::new(), String::new());
    assert_eq!(
        message(r.validate()),
        "semantik: invalid_request: publish requires exactly 1 item, got 0"
    );
    r.items = vec![PublishItem::text("a"), PublishItem::text("b")];
    assert_eq!(
        message(r.validate()),
        "semantik: invalid_request: publish requires exactly 1 item, got 2"
    );
    r.items = vec![PublishItem::default()];
    assert_eq!(
        message(r.validate()),
        "semantik: invalid_request: publish item must have at least one of text or vector"
    );
    r.items = vec![PublishItem::vector(floats(&[1.0]))];
    assert_eq!(
        message(r.validate()),
        "semantik: invalid_request: publish vector dim 1 does not match request dimensions 2"
    );
    r.items = vec![PublishItem::vector(floats(&[1.0, 2.0]))];
    assert_eq!(
        message(r.validate()),
        "semantik: invalid_request: metadata key must not be empty"
    );
    r.metadata = Metadata::new();
    assert_eq!(
        message(r.validate()),
        "semantik: invalid_request: idempotency_key exceeds 256 bytes"
    );
    r.idempotency_key = Some("k".repeat(256));
    assert!(r.validate().is_ok());
    assert!(r.clone().validate().is_ok());
}

#[test]
fn a_stored_ack_is_the_default() {
    assert_eq!(AckMode::default(), AckMode::Stored);
    assert_eq!(PublishRequest::default().ack, AckMode::Stored);
    assert!(is_default_ack(&AckMode::Stored));
    assert!(!is_default_ack(&AckMode::Durable));
}

#[test]
fn a_zero_limit_is_left_out() {
    assert_eq!(SearchRequest::default().limit, 0);
    assert!(is_zero(&0));
    assert!(!is_zero(&10));
}

#[test]
fn search_validate_accepts_fully_specified_request() {
    assert!(search_request().validate().is_ok());
}

#[test]
fn search_empty_query_rejected() {
    let r = SearchRequest {
        query: String::new(),
        ..search_request()
    };
    assert!(r.validate().is_err());
}

#[test]
fn missing_targeting_fields_rejected() {
    // No defaults: each unset targeting field fails preflight.
    assert!(SearchRequest {
        namespace: String::new(),
        ..search_request()
    }
    .validate()
    .is_err());
    assert!(SearchRequest {
        model: String::new(),
        ..search_request()
    }
    .validate()
    .is_err());
    assert!(SearchRequest {
        dimensions: 0,
        ..search_request()
    }
    .validate()
    .is_err());
}

#[test]
fn an_empty_search_query_is_named_first() {
    assert_eq!(
        message(SearchRequest::default().validate()),
        "semantik: invalid_request: search query must not be empty"
    );
}
