use noetive::semantik::client::Policy;
use noetive::semantik::retry::{fallback_backoff, AfterFailure, RetryLoop};
use noetive::semantik::subscribe::wrap_setup;
use noetive::semantik::transport::Endpoint;
use noetive::semantik::{
    Client, Duration, Error, ErrorCode, NoRetry, RetryPolicy, TransientRetry,
};

fn api_err(code: ErrorCode, retry_after: Option<Duration>) -> Error {
    Error::Api {
        code,
        message: String::new(),
        request_id: None,
        retry_after,
        http_status: 503,
    }
}

#[test]
fn no_retry_returns_none() {
    let policy = NoRetry;
    let err = api_err(ErrorCode::Backpressure, Some(Duration::from_secs(1)));
    assert!(policy.should_retry(0, &err).is_none());
}

#[test]
fn transient_retry_retries_documented_codes() {
    let policy = TransientRetry::new(5);
    for code in [
        ErrorCode::Backpressure,
        ErrorCode::Unavailable,
        ErrorCode::NamespaceUnavailable,
        ErrorCode::MeteringUnavailable,
    ] {
        let err = api_err(code.clone(), None);
        assert!(
            policy.should_retry(0, &err).is_some(),
            "code {code:?} should retry"
        );
    }
}

#[test]
fn transient_retry_skips_terminal_codes() {
    let policy = TransientRetry::new(5);
    for code in [
        ErrorCode::Unauthorized,
        ErrorCode::NotBillable,
        ErrorCode::InvalidRequest,
        ErrorCode::RateLimited,
        ErrorCode::TooManyRequests,
        ErrorCode::RequestTooLarge,
        ErrorCode::ModelNotProvisioned,
    ] {
        let err = api_err(code.clone(), None);
        assert!(
            policy.should_retry(0, &err).is_none(),
            "code {code:?} should NOT retry"
        );
    }
}

#[test]
fn transient_retry_caps_attempts() {
    let policy = TransientRetry::new(3);
    let err = api_err(ErrorCode::Unavailable, None);
    assert!(policy.should_retry(0, &err).is_some());
    assert!(policy.should_retry(2, &err).is_some());
    assert!(policy.should_retry(3, &err).is_none()); // hit max
    assert!(policy.should_retry(10, &err).is_none());
}

#[test]
fn transient_retry_zero_attempts_disables() {
    let policy = TransientRetry::new(0);
    let err = api_err(ErrorCode::Backpressure, None);
    assert!(policy.should_retry(0, &err).is_none());
}

#[test]
fn server_hint_preferred_over_fallback() {
    let policy = TransientRetry::new(5);
    let err = api_err(ErrorCode::Backpressure, Some(Duration::from_millis(250)));
    assert_eq!(
        policy.should_retry(0, &err),
        Some(Duration::from_millis(250))
    );
}

#[test]
fn fallback_schedule_matches_100ms_2s_5s_10s_and_saturates() {
    assert_eq!(fallback_backoff(0), Duration::from_millis(100));
    assert_eq!(fallback_backoff(1), Duration::from_secs(2));
    assert_eq!(fallback_backoff(2), Duration::from_secs(5));
    assert_eq!(fallback_backoff(3), Duration::from_secs(10));
    assert_eq!(fallback_backoff(4), Duration::from_secs(10));
    assert_eq!(fallback_backoff(100), Duration::from_secs(10));
}

#[test]
fn non_api_errors_are_not_retried() {
    let policy = TransientRetry::new(5);
    let err = Error::InvalidApiKey;
    assert!(policy.should_retry(0, &err).is_none());
}

#[test]
fn wrapped_errors_are_not_retried() {
    let policy = TransientRetry::new(5);
    let err = wrap_setup(api_err(ErrorCode::Unavailable, None));
    assert!(policy.should_retry(0, &err).is_none());
}

#[test]
fn the_loop_waits_along_the_schedule_and_gives_up() {
    let policy = TransientRetry::new(5);
    let err = api_err(ErrorCode::Unavailable, None);
    let mut state = RetryLoop::new();
    let mut waits = Vec::new();
    loop {
        match state.on_failure(&policy, &err) {
            AfterFailure::GiveUp => break,
            AfterFailure::RetryAfter(d) => waits.push(d),
        }
    }
    assert_eq!(
        waits,
        vec![
            Duration::from_millis(100),
            Duration::from_secs(2),
            Duration::from_secs(5),
            Duration::from_secs(10),
            Duration::from_secs(10),
        ]
    );
    assert_eq!(state.attempt, 5);
}

struct Patient;

impl RetryPolicy for Patient {
    fn should_retry(&self, _attempt: u32, _err: &Error) -> Option<Duration> {
        Some(Duration::from_secs(1_000_000))
    }
}

#[test]
fn no_policy_waits_for_more_than_an_hour() {
    let mut state = RetryLoop::new();
    let err = api_err(ErrorCode::InvalidRequest, None);
    match state.on_failure(&Patient, &err) {
        AfterFailure::RetryAfter(d) => assert_eq!(d, Duration::from_secs(3600)),
        AfterFailure::GiveUp => panic!("expected a retry"),
    }
    assert_eq!(state.attempt, 1);
    let almost = Duration::new(3599, 999_999_999);
    match state.on_decision(Some(almost)) {
        AfterFailure::RetryAfter(d) => assert_eq!(d, almost),
        AfterFailure::GiveUp => panic!("expected a retry"),
    }
}

#[test]
fn a_client_follows_its_policy_except_on_health() {
    let err = api_err(ErrorCode::Unavailable, None);
    let default = Client::new("k").unwrap_or_else(|e| panic!("{}", e.text()));
    let mut state = RetryLoop::new();
    assert!(matches!(
        default.after_failure(Endpoint::Health, &mut state, &err),
        AfterFailure::GiveUp
    ));
    for n in 0..5 {
        assert_eq!(state.attempt, n);
        assert!(matches!(
            default.after_failure(Endpoint::Search, &mut state, &err),
            AfterFailure::RetryAfter(_)
        ));
    }
    assert!(matches!(
        default.after_failure(Endpoint::Search, &mut state, &err),
        AfterFailure::GiveUp
    ));

    let once = Client::builder()
        .api_key("k")
        .retry(Policy {
            inner: Box::new(NoRetry),
        })
        .build()
        .unwrap_or_else(|e| panic!("{}", e.text()));
    let mut state = RetryLoop::new();
    assert!(matches!(
        once.after_failure(Endpoint::Subscribe, &mut state, &err),
        AfterFailure::GiveUp
    ));

    let custom = Client::builder()
        .api_key("k")
        .retry(Policy {
            inner: Box::new(Patient),
        })
        .build()
        .unwrap_or_else(|e| panic!("{}", e.text()));
    let mut state = RetryLoop::new();
    assert!(matches!(
        custom.after_failure(
            Endpoint::Lint,
            &mut state,
            &api_err(ErrorCode::Unauthorized, None)
        ),
        AfterFailure::RetryAfter(_)
    ));
    assert_eq!(state.attempt, 1);
}

#[test]
fn no_policy_is_asked_about_other_errors() {
    let client = Client::builder()
        .api_key("k")
        .retry(Policy {
            inner: Box::new(Patient),
        })
        .build()
        .unwrap_or_else(|e| panic!("{}", e.text()));
    for err in [
        Error::InvalidApiKey,
        Error::MissingApiKey,
        Error::MalformedSse("x".to_string()),
        wrap_setup(api_err(ErrorCode::Unavailable, None)),
    ] {
        let mut state = RetryLoop::new();
        assert!(matches!(
            state.on_failure(&Patient, &err),
            AfterFailure::GiveUp
        ));
        assert!(matches!(
            client.after_failure(Endpoint::Search, &mut state, &err),
            AfterFailure::GiveUp
        ));
        assert_eq!(state.attempt, 0);
    }
}
