//! The client's settings, and how it is built.

use crate::semantik::defaults::{
    DEFAULT_BASE_URL, DEFAULT_CONNECT_TIMEOUT_SECS, DEFAULT_READ_TIMEOUT_SECS, DEFAULT_RETRIES,
};
use crate::semantik::duration;
use crate::semantik::duration::Duration;
use crate::semantik::error;
use crate::semantik::error::{Error, ErrorView};
use crate::semantik::headers;
use crate::semantik::headers::makes_header_value;
use crate::semantik::retry;
use crate::semantik::retry::{AfterFailure, RetryLoop, RetryPolicy, TransientRetry};
use crate::semantik::transport;
use crate::semantik::transport::{plan_request, Endpoint, RequestPlan};
use crate::semantik::validate;
use crate::semantik::validate::api_key_non_empty;
use crate::text;
use crate::text::{chars_of, debug_str, push_text, string_of};
use reqwest::Client as HttpClient;
use reqwest::Error as HttpError;
use std::sync::Arc;
use vstd::prelude::*;

verus! {

/// `reqwest`'s HTTP client.
#[verifier::external_type_specification]
#[verifier::external_body]
pub struct ExHttpClient(HttpClient);

/// `reqwest::ClientBuilder` with a connect timeout and nothing else set.
/// Whether a client comes out depends on the machine (its TLS back end and
/// its proxy settings), so nothing is claimed of the result.
#[verifier::external_body]
fn managed_client(connect_secs: u64, connect_nanos: u32) -> (res: Result<HttpClient, HttpError>)
    requires
        connect_nanos < 1_000_000_000,
{
    HttpClient::builder().connect_timeout(
        std::time::Duration::new(connect_secs, connect_nanos),
    ).build()
}


// ---------------------------------------------------------------------
// Settings
// ---------------------------------------------------------------------

/// The `Authorization` value of an API key.
pub open spec fn bearer(key: Seq<char>) -> Seq<char> {
    "Bearer "@ + key
}

/// Can a client be built with this key? It must be there, hold more than
/// white space, and be fit to stand in a header.
pub open spec fn is_usable(key: Option<Seq<char>>) -> bool {
    key matches Some(k) && validate::is_non_blank(k) && headers::is_header_value(bearer(k))
}

/// `url` without any slashes at its end.
pub open spec fn without_trailing_slashes(url: Seq<char>) -> Seq<char>
    decreases url.len(),
{
    if url.len() > 0 && url.last() == '/' {
        without_trailing_slashes(url.drop_last())
    } else {
        url
    }
}

/// Drop all slashes at the end of `url`.
pub fn trim_trailing_slashes(url: &str) -> (res: String)
    ensures
        res@ == without_trailing_slashes(url@),
{
    let chars = chars_of(url);
    let mut n = chars.len();
    assert(chars@.take(n as int) =~= chars@);
    while n > 0 && chars[n - 1] == '/'
        invariant
            n <= chars@.len(),
            without_trailing_slashes(chars@.take(n as int)) == without_trailing_slashes(url@),
        decreases n,
    {
        assert(chars@.take(n as int).drop_last() =~= chars@.take(n - 1));
        n = n - 1;
    }
    assert(chars@.subrange(0, n as int) =~= chars@.take(n as int));
    string_of(chars.as_slice(), 0, n)
}

/// A retry policy of whatever type.
pub struct Policy {
    pub inner: Box<dyn RetryPolicy>,
}

impl Policy {
    /// Ask the policy about a failed attempt.
    pub fn ask(&self, attempt: u32, err: &Error) -> (res: Option<Duration>)
        ensures
            self.inner.decides(attempt, err, res),
    {
        self.inner.should_retry(attempt, err)
    }
}

/// What a [`ClientBuilder`] was told. Durations are in nanoseconds.
pub struct BuilderView {
    pub api_key: Option<Seq<char>>,
    pub base_url: Option<Seq<char>>,
    pub http_client: Option<HttpClient>,
    pub retry: Option<Policy>,
    pub connect_timeout: Option<nat>,
    pub read_timeout: Option<nat>,
}

/// What a [`Client`] works with. Durations are in nanoseconds.
pub struct ClientView {
    pub http: HttpClient,
    pub base_url: Seq<char>,
    pub auth_header: Seq<char>,
    pub retry: Policy,
    pub read_timeout: Option<nat>,
}

/// The base URL of a client.
pub open spec fn chosen_base_url(b: BuilderView) -> Seq<char> {
    without_trailing_slashes(
        match b.base_url {
            Some(url) => url,
            None => DEFAULT_BASE_URL@,
        },
    )
}

/// The connect timeout of a managed HTTP client.
pub open spec fn chosen_connect_timeout(b: BuilderView) -> nat {
    match b.connect_timeout {
        Some(t) => t,
        None => duration::secs(DEFAULT_CONNECT_TIMEOUT_SECS as nat),
    }
}

/// The read timeout of a client. None is imposed on an HTTP client that
/// the caller brought.
pub open spec fn chosen_read_timeout(b: BuilderView) -> Option<nat> {
    if b.http_client is Some {
        None
    } else {
        match b.read_timeout {
            Some(t) => Some(t),
            None => Some(duration::secs(DEFAULT_READ_TIMEOUT_SECS as nat)),
        }
    }
}

/// Does a policy answer as a [`TransientRetry`] of `limit` retries?
pub open spec fn answers_transient(policy: Policy, limit: nat) -> bool {
    forall|attempt: u32, err: Error, decision: Option<Duration>| #[trigger]
        policy.inner.decides(attempt, &err, decision) <==> error::opt_nanos(decision)
            == retry::transient_delay(limit, attempt as nat, err@)
}

/// Is `policy` what the builder was told, or else the default?
pub open spec fn chosen_policy(b: BuilderView, policy: Policy) -> bool {
    match b.retry {
        Some(given) => policy == given,
        None => answers_transient(policy, DEFAULT_RETRIES as nat),
    }
}

/// A builder that was told a key, perhaps a base URL, and nothing else.
pub open spec fn told(key: Seq<char>, base_url: Option<Seq<char>>) -> BuilderView {
    BuilderView {
        api_key: Some(key),
        base_url,
        http_client: None,
        retry: None,
        connect_timeout: None,
        read_timeout: None,
    }
}

/// Is `c` a client that a builder makes of `b`?
pub open spec fn made_from(c: ClientView, b: BuilderView) -> bool {
    &&& c.auth_header == bearer(b.api_key->0)
    &&& c.base_url == chosen_base_url(b)
    &&& chosen_policy(b, c.retry)
    &&& c.read_timeout == chosen_read_timeout(b)
    &&& b.http_client matches Some(http) ==> c.http == http
}

/// Builder for [`Client`]. Construct via [`Client::builder`].
pub struct ClientBuilder {
    api_key: Option<String>,
    base_url: Option<String>,
    http_client: Option<HttpClient>,
    retry: Option<Policy>,
    connect_timeout: Option<Duration>,
    read_timeout: Option<Duration>,
}

impl View for ClientBuilder {
    type V = BuilderView;

    closed spec fn view(&self) -> BuilderView {
        BuilderView {
            api_key: error::opt_text(self.api_key),
            base_url: error::opt_text(self.base_url),
            http_client: self.http_client,
            retry: self.retry,
            connect_timeout: error::opt_nanos(self.connect_timeout),
            read_timeout: error::opt_nanos(self.read_timeout),
        }
    }
}

impl Default for ClientBuilder {
    fn default() -> (res: Self)
        ensures
            res@ == (BuilderView {
                api_key: None,
                base_url: None,
                http_client: None,
                retry: None,
                connect_timeout: None,
                read_timeout: None,
            }),
    {
        ClientBuilder {
            api_key: None,
            base_url: None,
            http_client: None,
            retry: None,
            connect_timeout: None,
            read_timeout: None,
        }
    }
}

/// Everything a client is made of, but for an HTTP client that is still
/// to be made.
pub struct Settings {
    pub auth_header: String,
    pub base_url: String,
    pub retry: Policy,
    /// The HTTP client that the caller brought.
    pub http: Option<HttpClient>,
    /// For an HTTP client that is still to be made.
    pub connect_timeout: Duration,
    pub read_timeout: Option<Duration>,
}

impl ClientBuilder {
    /// Set the API key.
    pub fn api_key(self, key: &str) -> (res: Self)
        ensures
            res@ == (BuilderView { api_key: Some(key@), ..self@ }),
    {
        let mut b = self;
        b.api_key = Some(key.to_owned());
        b
    }

    /// Override the base URL (default: `https://semantik.noetive.io`).
    pub fn base_url(self, url: &str) -> (res: Self)
        ensures
            res@ == (BuilderView { base_url: Some(url@), ..self@ }),
    {
        let mut b = self;
        b.base_url = Some(url.to_owned());
        b
    }

    /// Inject a custom HTTP client. Use this to install custom TLS roots,
    /// proxies, or connection-pool tuning.
    pub fn http_client(self, http: HttpClient) -> (res: Self)
        ensures
            res@ == (BuilderView { http_client: Some(http), ..self@ }),
    {
        let mut b = self;
        b.http_client = Some(http);
        b
    }

    /// Install a custom [`RetryPolicy`]. Default: [`TransientRetry`] with
    /// five retries.
    pub fn retry(self, policy: Policy) -> (res: Self)
        ensures
            res@ == (BuilderView { retry: Some(policy), ..self@ }),
    {
        let mut b = self;
        b.retry = Some(policy);
        b
    }

    /// TCP/TLS connect timeout. Default: 10 seconds. Ignored when a
    /// custom HTTP client is supplied.
    pub fn connect_timeout(self, t: Duration) -> (res: Self)
        ensures
            res@ == (BuilderView { connect_timeout: Some(t@), ..self@ }),
    {
        let mut b = self;
        b.connect_timeout = Some(t);
        b
    }

    /// Per-request read timeout applied to one-shot operations. Default:
    /// 30 seconds. Ignored when a custom HTTP client is supplied.
    pub fn read_timeout(self, t: Duration) -> (res: Self)
        ensures
            res@ == (BuilderView { read_timeout: Some(t@), ..self@ }),
    {
        let mut b = self;
        b.read_timeout = Some(t);
        b
    }

    /// Check the key and fill in the defaults. Returns
    /// [`Error::InvalidApiKey`] when no key was supplied or the value was
    /// empty, white space only, or unfit for a header.
    pub fn settings(self) -> (res: Result<Settings, Error>)
        ensures
            res is Ok <==> is_usable(self@.api_key),
            res matches Err(e) ==> e@ == ErrorView::InvalidApiKey,
            res matches Ok(s) ==> {
                &&& s.auth_header@ == bearer(self@.api_key->0)
                &&& s.base_url@ == chosen_base_url(self@)
                &&& chosen_policy(self@, s.retry)
                &&& s.http == self@.http_client
                &&& s.connect_timeout@ == chosen_connect_timeout(self@)
                &&& error::opt_nanos(s.read_timeout) == chosen_read_timeout(self@)
            },
    {
        let api_key = match self.api_key {
            Some(key) => key,
            None => return Err(Error::InvalidApiKey),
        };
        if !api_key_non_empty(api_key.as_str()) {
            return Err(Error::InvalidApiKey);
        }
        let mut auth_header = "Bearer ".to_owned();
        push_text(&mut auth_header, api_key.as_str());
        if !makes_header_value(auth_header.as_str()) {
            return Err(Error::InvalidApiKey);
        }
        let base_url = match &self.base_url {
            Some(url) => trim_trailing_slashes(url.as_str()),
            None => trim_trailing_slashes(DEFAULT_BASE_URL),
        };
        let retry = match self.retry {
            Some(policy) => policy,
            None => Policy { inner: Box::new(TransientRetry::new(DEFAULT_RETRIES)) },
        };
        let connect_timeout = match self.connect_timeout {
            Some(t) => t,
            None => Duration::from_secs(DEFAULT_CONNECT_TIMEOUT_SECS),
        };
        let read_timeout = if self.http_client.is_some() {
            None
        } else {
            match self.read_timeout {
                Some(t) => Some(t),
                None => Some(Duration::from_secs(DEFAULT_READ_TIMEOUT_SECS)),
            }
        };
        Ok(
            Settings {
                auth_header,
                base_url,
                retry,
                http: self.http_client,
                connect_timeout,
                read_timeout,
            },
        )
    }

    /// Finalise the client. Returns [`Error::InvalidApiKey`] when no key
    /// was supplied or the value was empty, white space only, or unfit for
    /// a header; [`Error::Transport`] when no HTTP client was supplied and
    /// none could be made.
    pub fn build(self) -> (res: Result<Client, Error>)
        ensures
            (res matches Err(e) && e@ is InvalidApiKey) <==> !is_usable(self@.api_key),
            is_usable(self@.api_key) && self@.http_client is Some ==> res is Ok,
            res matches Err(e) ==> e@ is InvalidApiKey || e@ is Transport,
            res matches Ok(c) ==> made_from(c@, self@),
    {
        match self.settings() {
            Err(e) => Err(e),
            Ok(settings) => {
                let mut settings = settings;
                let made = match settings.http.take() {
                    Some(http) => Ok(http),
                    None => managed_client(
                        settings.connect_timeout.as_secs(),
                        settings.connect_timeout.subsec_nanos(),
                    ),
                };
                settings.client_on(made)
            },
        }
    }
}

impl Settings {
    /// The client on an HTTP client as it came out.
    pub fn client_on(self, made: Result<HttpClient, HttpError>) -> (res: Result<Client, Error>)
        ensures
            made matches Err(e) ==> res matches Err(x) && x@ == ErrorView::Transport(e),
            made matches Ok(http) ==> res matches Ok(c) && c@ == (ClientView {
                http,
                base_url: self.base_url@,
                auth_header: self.auth_header@,
                retry: self.retry,
                read_timeout: error::opt_nanos(self.read_timeout),
            }),
    {
        match made {
            Err(e) => Err(Error::Transport(e)),
            Ok(http) => Ok(
                Client {
                    inner: Arc::new(
                        Inner {
                            http,
                            base_url: self.base_url,
                            auth_header: self.auth_header,
                            retry: self.retry,
                            read_timeout: self.read_timeout,
                        },
                    ),
                },
            ),
        }
    }
}

// ---------------------------------------------------------------------
// Client
// ---------------------------------------------------------------------

/// Client for the Noetive Semantik API.
///
/// `Client` is cheap to clone: it holds an [`Arc`] over the underlying
/// HTTP client and configuration.
///
/// Construct via [`Client::new`] (explicit key), [`Client::from_env`], or
/// [`Client::builder`] for custom HTTP client or retry policy.
pub struct Client {
    inner: Arc<Inner>,
}

struct Inner {
    http: HttpClient,
    base_url: String,
    auth_header: String,
    retry: Policy,
    /// Applied to one-shot operations only. `None` means that no read
    /// timeout is imposed.
    read_timeout: Option<Duration>,
}

impl View for Client {
    type V = ClientView;

    closed spec fn view(&self) -> ClientView {
        ClientView {
            http: self.inner.http,
            base_url: self.inner.base_url@,
            auth_header: self.inner.auth_header@,
            retry: self.inner.retry,
            read_timeout: error::opt_nanos(self.inner.read_timeout),
        }
    }
}

impl Clone for Client {
    fn clone(&self) -> (res: Self)
        ensures
            res@ == self@,
    {
        Client { inner: self.inner.clone() }
    }
}

/// What a client shows of itself for debugging: its base URL.
pub open spec fn debug_of(c: ClientView) -> Seq<char> {
    "Client { base_url: "@ + text::debug_quoted(c.base_url) + ", api_key: \"REDACTED\" }"@
}

impl Client {
    /// Construct a client authenticated with the given API key. The key
    /// must be non-empty; deeper validation (length, prefix, envelope
    /// integrity) is the server's job. Empty or white-space-only inputs
    /// return [`Error::InvalidApiKey`].
    pub fn new(api_key: &str) -> (res: Result<Self, Error>)
        ensures
            (res matches Err(e) && e@ is InvalidApiKey) <==> !is_usable(Some(api_key@)),
            res matches Err(e) ==> e@ is InvalidApiKey || e@ is Transport,
            res matches Ok(c) ==> made_from(c@, told(api_key@, None)),
    {
        Client::builder().api_key(api_key).build()
    }

    /// Construct a client from what the environment holds under
    /// `NOETIVE_KEY_SECRET` and `NOETIVE_BASE_URL`. Returns
    /// [`Error::MissingApiKey`] when the key is unset or empty. An empty
    /// base URL counts as unset.
    pub fn from_env(key: Option<&str>, base: Option<&str>) -> (res: Result<Self, Error>)
        ensures
            ({
                let given = key matches Some(k) && k@.len() > 0;
                let base_url = match base {
                    Some(url) => if url@.len() > 0 {
                        Some(url@)
                    } else {
                        None
                    },
                    None => None,
                };
                &&& (res matches Err(e) && e@ is MissingApiKey) <==> !given
                &&& (res matches Err(e) && e@ is InvalidApiKey) <==> given && !is_usable(
                    Some(key->0@),
                )
                &&& res matches Err(e) ==> e@ is MissingApiKey || e@ is InvalidApiKey
                    || e@ is Transport
                &&& res matches Ok(c) ==> made_from(c@, told(key->0@, base_url))
            }),
    {
        let key = match key {
            Some(k) => k,
            None => return Err(Error::MissingApiKey),
        };
        if key.is_empty() {
            return Err(Error::MissingApiKey);
        }
        let b = Client::builder().api_key(key);
        match base {
            Some(url) => if !url.is_empty() {
                b.base_url(url).build()
            } else {
                b.build()
            },
            None => b.build(),
        }
    }

    /// Start building a client with non-default configuration.
    pub fn builder() -> (res: ClientBuilder)
        ensures
            res@ == (BuilderView {
                api_key: None,
                base_url: None,
                http_client: None,
                retry: None,
                connect_timeout: None,
                read_timeout: None,
            }),
    {
        ClientBuilder::default()
    }

    /// Base URL used for requests (trailing slashes trimmed).
    pub fn base_url(&self) -> (res: &str)
        ensures
            res@ == self@.base_url,
    {
        self.inner.base_url.as_str()
    }

    /// The HTTP client that requests are sent with.
    pub fn http(&self) -> (res: &HttpClient)
        ensures
            *res == self@.http,
    {
        &self.inner.http
    }

    /// Description for debugging. The API key is redacted: logs and
    /// debugger output never expose the bearer token.
    pub fn debug_text(&self) -> (res: String)
        ensures
            res@ == debug_of(self@),
    {
        let mut out = "Client { base_url: ".to_owned();
        let quoted = debug_str(self.inner.base_url.as_str());
        push_text(&mut out, quoted.as_str());
        push_text(&mut out, ", api_key: \"REDACTED\" }");
        out
    }

    /// Lay out a request to `endpoint`.
    pub fn plan(&self, endpoint: Endpoint, user_agent: String) -> (res: RequestPlan)
        ensures
            transport::is_plan(
                res,
                endpoint,
                self@.base_url,
                self@.auth_header,
                user_agent@,
                self@.read_timeout,
            ),
    {
        plan_request(
            endpoint,
            self.inner.base_url.as_str(),
            self.inner.auth_header.as_str(),
            user_agent,
            self.inner.read_timeout,
        )
    }

    /// What to do after a failed attempt at `endpoint`: ask the client's
    /// policy, and follow it. Health checks are not retried, and neither
    /// are errors other than [`Error::Api`]: the policy is not asked about
    /// them.
    pub fn after_failure(&self, endpoint: Endpoint, state: &mut RetryLoop, err: &Error) -> (res:
        AfterFailure)
        requires
            old(state).attempt < u32::MAX,
        ensures
            endpoint is Health || !(err@ is Api) ==> retry::waits(res) is None,
            !(endpoint is Health) && err@ is Api ==> exists|decision: Option<Duration>|
                {
                    &&& #[trigger] self@.retry.inner.decides(old(state).attempt, err, decision)
                    &&& retry::waits(res) == retry::followed(decision)
                },
            final(state).attempt == old(state).attempt + if retry::waits(res) is Some {
                1int
            } else {
                0int
            },
    {
        if !endpoint.is_retried() {
            return AfterFailure::GiveUp;
        }
        match err {
            Error::Api { .. } => {
                let decision = self.inner.retry.ask(state.attempt, err);
                assert(self@.retry.inner.decides(old(state).attempt, err, decision));
                state.on_decision(decision)
            },
            _ => AfterFailure::GiveUp,
        }
    }
}

/// What a client shows of itself for debugging does not depend on its key.
pub proof fn law_debug_hides_the_key(a: ClientView, b: ClientView)
    requires
        a.base_url == b.base_url,
    ensures
        debug_of(a) == debug_of(b),
{
}

/// A base URL never ends in a slash, so that joined to a path, which
/// starts with one, it makes a URL with no slash doubled at the joint.
/// One that ends in no slash is kept as it is.
pub proof fn law_base_url_has_no_trailing_slash(b: BuilderView)
    ensures
        chosen_base_url(b).len() > 0 ==> chosen_base_url(b).last() != '/',
        b.base_url matches Some(url) ==> chosen_base_url(b).is_prefix_of(url),
        b.base_url matches Some(url) ==> (url.len() > 0 && url.last() != '/'
            ==> chosen_base_url(b) == url),
{
    lemma_without_trailing_slashes(
        match b.base_url {
            Some(url) => url,
            None => DEFAULT_BASE_URL@,
        },
    );
}

proof fn lemma_without_trailing_slashes(url: Seq<char>)
    ensures
        ({
            let cut = without_trailing_slashes(url);
            &&& cut.is_prefix_of(url)
            &&& cut.len() > 0 ==> cut.last() != '/'
        }),
    decreases url.len(),
{
    if url.len() > 0 && url.last() == '/' {
        lemma_without_trailing_slashes(url.drop_last());
    }
}

/// With the default policy, a call to any operation but health is tried
/// again after a transient failure for as long as fewer than five retries
/// were made, and never after another failure. The delay is the server's
/// hint or else that of the schedule.
pub proof fn law_default_policy_retries_transient_failures(
    b: BuilderView,
    policy: Policy,
    attempt: u32,
    err: Error,
    decision: Option<Duration>,
)
    requires
        b.retry is None,
        chosen_policy(b, policy),
        policy.inner.decides(attempt, &err, decision),
    ensures
        decision is Some <==> attempt < 5 && (err matches Error::Api { code, .. } && (code
            is Backpressure || code is Unavailable || code is NamespaceUnavailable || code
            is MeteringUnavailable)),
        decision matches Some(delay) ==> {
            &&& err->Api_retry_after matches Some(hint) ==> delay@ == hint@
            &&& err->Api_retry_after is None ==> {
                &&& attempt == 0 ==> delay@ == 100_000_000
                &&& attempt == 1 ==> delay@ == 2_000_000_000
                &&& attempt == 2 ==> delay@ == 5_000_000_000
                &&& attempt >= 3 ==> delay@ == 10_000_000_000
            }
        },
{
}

/// A builder that was told a key, and perhaps a base URL, was told nothing
/// else.
pub proof fn law_told(key: Seq<char>, base_url: Option<Seq<char>>)
    ensures
        ({
            let b = told(key, base_url);
            &&& b.api_key == Some(key) && b.base_url == base_url
            &&& b.http_client is None && b.retry is None
            &&& b.connect_timeout is None && b.read_timeout is None
        }),
{
}

/// No read timeout is imposed on an HTTP client that the caller brought,
/// and one always is on a managed one.
pub proof fn law_injected_clients_keep_their_timeouts(b: BuilderView)
    ensures
        chosen_read_timeout(b) is None <==> b.http_client is Some,
{
}

/// A key is usable exactly where not all of it is white space and its
/// UTF-8, behind `Bearer`, holds no byte below 32, tabs aside, nor 127.
/// Nothing else is asked of it.
pub proof fn law_usable_keys(key: Seq<char>)
    ensures
        !is_usable(None),
        is_usable(Some(key)) <==> {
            &&& !(forall|i: int| 0 <= i < key.len() ==> text::is_white_space(#[trigger] key[i]))
            &&& forall|i: int|
                0 <= i < vstd::utf8::encode_utf8("Bearer "@ + key).len() ==> {
                    let b = #[trigger] vstd::utf8::encode_utf8("Bearer "@ + key)[i];
                    b == 9 || (32 <= b && b != 127)
                }
        },
{
    validate::law_blank_keys(key);
    headers::law_header_values_hold_no_control_bytes("Bearer "@ + key);
}

/// What a client is made of: the key as a bearer token, and each setting as
/// it was told or else its default.
pub proof fn law_settings_are_kept(c: ClientView, b: BuilderView)
    requires
        is_usable(b.api_key),
        made_from(c, b),
    ensures
        c.auth_header == "Bearer "@ + b.api_key->0,
        b.base_url is None ==> c.base_url == without_trailing_slashes(
            "https://semantik.noetive.io"@,
        ),
        b.base_url matches Some(url) ==> c.base_url == without_trailing_slashes(url),
        b.http_client matches Some(http) ==> c.http == http && c.read_timeout is None,
        b.http_client is None && b.read_timeout is None ==> c.read_timeout == Some(30_000_000_000nat),
        b.http_client is None && b.read_timeout is Some ==> c.read_timeout == b.read_timeout,
        b.connect_timeout is None ==> chosen_connect_timeout(b) == 10_000_000_000,
        b.connect_timeout matches Some(t) ==> chosen_connect_timeout(b) == t,
        b.retry matches Some(policy) ==> c.retry == policy,
{
}

/// Slashes at the end of a URL are dropped, all of them and nothing else.
pub proof fn law_only_slashes_are_dropped(url: Seq<char>, slashes: Seq<char>)
    requires
        forall|i: int| 0 <= i < slashes.len() ==> #[trigger] slashes[i] == '/',
    ensures
        without_trailing_slashes(url + slashes) == without_trailing_slashes(url),
        url.len() == 0 || url.last() != '/' ==> without_trailing_slashes(url + slashes) == url,
    decreases slashes.len(),
{
    if slashes.len() > 0 {
        assert((url + slashes).last() == slashes[slashes.len() - 1]);
        assert((url + slashes).drop_last() =~= url + slashes.drop_last());
        law_only_slashes_are_dropped(url, slashes.drop_last());
    } else {
        assert(url + slashes =~= url);
    }
}

/// What a client shows of itself for debugging.
pub proof fn law_debug_shows_the_base_url_alone(c: ClientView)
    ensures
        debug_of(c) == "Client { base_url: "@ + text::debug_quoted(c.base_url)
            + ", api_key: \"REDACTED\" }"@,
{
}

} // verus!
