use noetive::semantik::client::trim_trailing_slashes;
use noetive::semantik::transport::{Endpoint, MIME_JSON, MIME_SSE};
use noetive::semantik::{user_agent, Client, Duration, Error, VERSION};

fn built(r: Result<Client, Error>) -> Client {
    match r {
        Ok(c) => c,
        Err(e) => panic!("{}", e.text()),
    }
}

#[test]
fn new_rejects_empty_or_whitespace() {
    assert!(matches!(
        Client::new("").err().unwrap(),
        Error::InvalidApiKey
    ));
    assert!(matches!(
        Client::new("   ").err().unwrap(),
        Error::InvalidApiKey
    ));
    assert!(matches!(
        Client::new("\t\n").err().unwrap(),
        Error::InvalidApiKey
    ));
}

#[test]
fn new_accepts_user_prefix() {
    let c = built(Client::new("keyu_abc"));
    assert_eq!(c.base_url(), "https://semantik.noetive.io");
}

#[test]
fn new_accepts_tenant_prefix() {
    assert!(Client::new("keyt_abc").is_ok());
}

#[test]
fn new_accepts_unknown_format_key() {
    // The format is not locked: a future key family with a different
    // prefix should construct without complaint.
    assert!(Client::new("some_new_format_key").is_ok());
    assert!(Client::new("sk-foo").is_ok());
}

#[test]
fn builder_trims_trailing_slash() {
    let c = built(
        Client::builder()
            .api_key("keyu_x")
            .base_url("https://example.com/")
            .build(),
    );
    assert_eq!(c.base_url(), "https://example.com");
}

#[test]
fn debug_redacts_api_key() {
    let c = built(Client::new("keyu_secret"));
    let s = c.debug_text();
    assert!(s.contains("REDACTED"));
    assert!(!s.contains("keyu_secret"));
}

#[test]
fn from_env_requires_key() {
    assert!(matches!(
        Client::from_env(None, None).err().unwrap(),
        Error::MissingApiKey
    ));
    assert!(matches!(
        Client::from_env(Some(""), Some("https://x")).err().unwrap(),
        Error::MissingApiKey
    ));
    assert!(matches!(
        Client::from_env(Some(" "), None).err().unwrap(),
        Error::InvalidApiKey
    ));
    assert!(Client::from_env(Some("k"), None).is_ok());
}

#[test]
fn debug_text_shows_the_base_url() {
    let c = built(Client::new("keyu_secret"));
    assert_eq!(
        c.debug_text(),
        "Client { base_url: \"https://semantik.noetive.io\", api_key: \"REDACTED\" }"
    );
    let c = built(Client::builder().api_key("k").base_url("a\"b").build());
    assert_eq!(
        c.clone().debug_text(),
        "Client { base_url: \"a\\\"b\", api_key: \"REDACTED\" }"
    );
}

#[test]
fn from_env_takes_a_base_url() {
    let c = built(Client::from_env(Some("k"), Some("http://localhost:8080//")));
    assert_eq!(c.base_url(), "http://localhost:8080");
    let c = built(Client::from_env(Some("k"), Some("")));
    assert_eq!(c.base_url(), "https://semantik.noetive.io");
}

#[test]
fn a_key_must_be_fit_for_a_header() {
    assert!(matches!(
        Client::new("a\nb").err().unwrap(),
        Error::InvalidApiKey
    ));
    assert!(matches!(
        Client::new("a\u{7f}").err().unwrap(),
        Error::InvalidApiKey
    ));
    assert!(Client::new("a\tb").is_ok());
    assert!(Client::new("kéy").is_ok());
    assert!(matches!(
        Client::builder().build().err().unwrap(),
        Error::InvalidApiKey
    ));
}

#[test]
fn all_trailing_slashes_go() {
    assert_eq!(trim_trailing_slashes("http://x///"), "http://x");
    assert_eq!(trim_trailing_slashes("///"), "");
    assert_eq!(trim_trailing_slashes(""), "");
    assert_eq!(trim_trailing_slashes("a/b"), "a/b");
}

#[test]
fn requests_are_laid_out_per_operation() {
    let c = built(Client::builder().api_key("key").base_url("http://h/").build());
    let expected = [
        (Endpoint::Health, "http://h/v1/health", false),
        (Endpoint::Lint, "http://h/v1/lint", false),
        (Endpoint::Publish, "http://h/v1/publish", true),
        (Endpoint::Search, "http://h/v1/search", true),
        (Endpoint::Subscribe, "http://h/v1/subscribe", true),
    ];
    for (endpoint, url, keyed) in expected {
        let plan = c.plan(endpoint, user_agent("linux", "x86_64"));
        assert_eq!(plan.url, url);
        assert_eq!(plan.content_type, MIME_JSON);
        assert_eq!(plan.user_agent, "noetive-sdk-rust/0.1.0 (rust; linux/x86_64)");
        if keyed {
            assert_eq!(plan.authorization.as_deref(), Some("Bearer key"));
        } else {
            assert!(plan.authorization.is_none());
        }
        if endpoint == Endpoint::Subscribe {
            assert_eq!(plan.accept, MIME_SSE);
            assert!(plan.timeout.is_none());
        } else {
            assert_eq!(plan.accept, MIME_JSON);
            assert_eq!(plan.timeout, Some(Duration::from_secs(30)));
        }
    }
}

#[test]
fn a_read_timeout_is_used_unless_a_client_is_brought() {
    let t = Duration::from_millis(1500);
    let c = built(
        Client::builder()
            .api_key("k")
            .read_timeout(t)
            .connect_timeout(t)
            .build(),
    );
    let plan = c.plan(Endpoint::Search, String::new());
    assert_eq!(plan.timeout, Some(t));

    let c = built(
        Client::builder()
            .api_key("k")
            .read_timeout(t)
            .http_client(reqwest::Client::new())
            .build(),
    );
    let plan = c.plan(Endpoint::Search, String::new());
    assert!(plan.timeout.is_none());
    let _ = c.http();
}

#[test]
fn an_invalid_key_comes_before_the_http_client() {
    let r = Client::builder()
        .api_key("")
        .http_client(reqwest::Client::new())
        .build();
    assert!(matches!(r.err().unwrap(), Error::InvalidApiKey));
}

#[test]
fn user_agent_has_stable_prefix() {
    let ua = user_agent("linux", "aarch64");
    assert!(ua.starts_with("noetive-sdk-rust/"));
    assert!(ua.contains(VERSION));
    assert!(ua.contains("linux"));
    assert!(ua.contains("aarch64"));
}

#[test]
fn version_matches_cargo_pkg_version() {
    assert_eq!(VERSION, "0.1.0");
}
