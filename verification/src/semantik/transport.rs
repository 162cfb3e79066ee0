//! What goes over the wire, and what is made of the reply.

use crate::semantik::decode;
use crate::semantik::duration::Duration;
use crate::semantik::error;
use crate::semantik::error::Error;
use crate::semantik::headers;
use crate::semantik::headers::request_id_from_headers;
use crate::semantik::limits::{MAX_ERROR_BODY_BYTES, MAX_RESPONSE_BYTES};
use crate::text;
use crate::text::{push_decimal, push_text};
use vstd::prelude::*;

verus! {

pub const MIME_JSON: &'static str = "application/json";

pub const MIME_SSE: &'static str = "text/event-stream";

/// Does a request carry the API key?
#[derive(Debug, Copy, Clone, Eq, PartialEq, Structural)]
pub enum AuthMode {
    Anonymous,
    Bearer,
}

/// The operations of the service.
#[derive(Debug, Copy, Clone, Eq, PartialEq, Structural)]
pub enum Endpoint {
    Health,
    Lint,
    Publish,
    Search,
    Subscribe,
}

/// The path of an operation.
pub open spec fn path_of(e: Endpoint) -> Seq<char> {
    match e {
        Endpoint::Health => "/v1/health"@,
        Endpoint::Lint => "/v1/lint"@,
        Endpoint::Publish => "/v1/publish"@,
        Endpoint::Search => "/v1/search"@,
        Endpoint::Subscribe => "/v1/subscribe"@,
    }
}

/// Does an operation carry the API key? Health and lint do not.
pub open spec fn needs_key(e: Endpoint) -> bool {
    !(e is Health) && !(e is Lint)
}

/// What an operation answers with.
pub open spec fn accepted_by(e: Endpoint) -> Seq<char> {
    if e is Subscribe {
        MIME_SSE@
    } else {
        MIME_JSON@
    }
}

impl Endpoint {
    /// The path of the operation.
    pub fn path(self) -> (res: &'static str)
        ensures
            res@ == path_of(self),
    {
        match self {
            Endpoint::Health => "/v1/health",
            Endpoint::Lint => "/v1/lint",
            Endpoint::Publish => "/v1/publish",
            Endpoint::Search => "/v1/search",
            Endpoint::Subscribe => "/v1/subscribe",
        }
    }

    /// Whether the operation carries the API key.
    pub fn auth(self) -> (res: AuthMode)
        ensures
            res == if needs_key(self) {
                AuthMode::Bearer
            } else {
                AuthMode::Anonymous
            },
    {
        match self {
            Endpoint::Health | Endpoint::Lint => AuthMode::Anonymous,
            _ => AuthMode::Bearer,
        }
    }

    /// The media type that the operation answers with.
    pub fn accept(self) -> (res: &'static str)
        ensures
            res@ == accepted_by(self),
    {
        match self {
            Endpoint::Subscribe => MIME_SSE,
            _ => MIME_JSON,
        }
    }

    /// Whether the retry policy is applied to the operation. Health is
    /// not retried: a sustained outage should surface quickly.
    pub fn is_retried(self) -> (res: bool)
        ensures
            res == !(self is Health),
    {
        match self {
            Endpoint::Health => false,
            _ => true,
        }
    }
}

/// One request, ready to be sent with `POST`. It has no `Debug`, as it
/// holds the API key.
pub struct RequestPlan {
    pub url: String,
    pub content_type: &'static str,
    pub accept: &'static str,
    pub user_agent: String,
    /// `None` where the request does not carry the API key. To be marked
    /// as sensitive where it becomes a header.
    pub authorization: Option<String>,
    /// `None` where reading the reply may take any time.
    pub timeout: Option<Duration>,
}

/// Is `plan` the request to `endpoint`? It carries the API key only where
/// the operation needs one, and has no timeout on a subscription.
pub open spec fn is_plan(
    plan: RequestPlan,
    endpoint: Endpoint,
    base_url: Seq<char>,
    auth_header: Seq<char>,
    user_agent: Seq<char>,
    read_timeout: Option<nat>,
) -> bool {
    &&& plan.url@ == base_url + path_of(endpoint)
    &&& plan.content_type@ == MIME_JSON@
    &&& plan.accept@ == accepted_by(endpoint)
    &&& plan.user_agent@ == user_agent
    &&& error::opt_text(plan.authorization) == if needs_key(endpoint) {
        Some(auth_header)
    } else {
        None
    }
    &&& error::opt_nanos(plan.timeout) == if endpoint is Subscribe {
        None
    } else {
        read_timeout
    }
}

/// Lay out a request. The read timeout applies to one-shot operations
/// only: long quiet periods on a subscription are normal.
pub fn plan_request(
    endpoint: Endpoint,
    base_url: &str,
    auth_header: &str,
    user_agent: String,
    read_timeout: Option<Duration>,
) -> (res: RequestPlan)
    ensures
        is_plan(
            res,
            endpoint,
            base_url@,
            auth_header@,
            user_agent@,
            error::opt_nanos(read_timeout),
        ),
{
    let mut url = base_url.to_owned();
    push_text(&mut url, endpoint.path());
    let authorization = match endpoint.auth() {
        AuthMode::Bearer => Some(auth_header.to_owned()),
        AuthMode::Anonymous => None,
    };
    let timeout = match endpoint {
        Endpoint::Subscribe => None,
        _ => read_timeout,
    };
    RequestPlan {
        url,
        content_type: MIME_JSON,
        accept: endpoint.accept(),
        user_agent,
        authorization,
        timeout,
    }
}

/// The API key goes out with publish, search and subscribe, and never
/// with health or lint. No timeout cuts a subscription off, and every
/// other operation has the client's.
pub proof fn law_keys_and_timeouts_go_where_they_belong(
    plan: RequestPlan,
    endpoint: Endpoint,
    base_url: Seq<char>,
    auth_header: Seq<char>,
    user_agent: Seq<char>,
    read_timeout: Option<nat>,
)
    requires
        is_plan(plan, endpoint, base_url, auth_header, user_agent, read_timeout),
    ensures
        endpoint is Health || endpoint is Lint ==> plan.authorization is None,
        endpoint is Publish || endpoint is Search || endpoint is Subscribe ==> error::opt_text(
            plan.authorization,
        ) == Some(auth_header),
        endpoint is Subscribe ==> plan.timeout is None,
        !(endpoint is Subscribe) ==> error::opt_nanos(plan.timeout) == read_timeout,
{
}

/// Is `status` one of success?
pub open spec fn succeeded(status: u16) -> bool {
    200 <= status < 300
}

/// Is `status` one of success?
pub fn is_success(status: u16) -> (res: bool)
    ensures
        res == succeeded(status),
{
    200 <= status && status < 300
}

/// What to do with the reply to a one-shot operation.
#[derive(Debug)]
pub enum ReplyStep {
    /// The reply is refused as it stands.
    Refuse(Error),
    /// The reply is an error: decode its body as an error envelope.
    DecodeError,
    /// The reply is a success: decode its body as a response.
    DecodeResponse,
}

/// What is said of a body that is too large.
pub open spec fn too_large_text(len: nat, max: nat) -> Seq<char> {
    "response body "@ + text::decimal(len) + " bytes exceeds "@ + text::decimal(max) + " byte cap"@
}

/// Refuse a body of more than `max` bytes.
pub fn check_body_size(status: u16, len: usize, max: usize) -> (res: Result<(), Error>)
    ensures
        res is Ok <==> len <= max,
        res matches Err(e) ==> e@ == error::malformed_view(
            too_large_text(len as nat, max as nat),
            status,
        ),
{
    if len > max {
        let mut out = "response body ".to_owned();
        push_decimal(&mut out, len as u64);
        push_text(&mut out, " bytes exceeds ");
        push_decimal(&mut out, max as u64);
        push_text(&mut out, " byte cap");
        return Err(Error::malformed_response(out, status));
    }
    Ok(())
}

/// Decide what to do with the reply to a one-shot operation. A successful
/// one is refused where its body is over [`MAX_RESPONSE_BYTES`]. The body
/// of any other is decoded as an error, of which only the head counts.
pub fn on_reply(status: u16, body: &[u8]) -> (res: ReplyStep)
    ensures
        res is DecodeError <==> !succeeded(status),
        res is Refuse <==> succeeded(status) && body@.len() > MAX_RESPONSE_BYTES,
        res matches ReplyStep::Refuse(e) ==> e@ == error::malformed_view(
            too_large_text(body@.len(), MAX_RESPONSE_BYTES as nat),
            status,
        ),
{
    if !is_success(status) {
        return ReplyStep::DecodeError;
    }
    match check_body_size(status, body.len(), MAX_RESPONSE_BYTES) {
        Err(e) => ReplyStep::Refuse(e),
        Ok(()) => ReplyStep::DecodeResponse,
    }
}

/// How many bytes of a body are enough: those of an error body that are
/// looked at, or one more than a successful reply may have.
pub open spec fn enough_bytes(status: u16) -> nat {
    if succeeded(status) {
        (MAX_RESPONSE_BYTES + 1) as nat
    } else {
        MAX_ERROR_BODY_BYTES as nat
    }
}

/// Is there any use in reading more of a body, of which `len` bytes have
/// come in? A body over its cap need not be buffered in full.
pub fn reads_on(status: u16, len: usize) -> (res: bool)
    ensures
        res == (len < enough_bytes(status)),
{
    if is_success(status) {
        len <= MAX_RESPONSE_BYTES
    } else {
        len < MAX_ERROR_BODY_BYTES
    }
}

/// What is made of a reply does not depend on what was not read of its
/// body: a successful one is refused either way, and an error is read from
/// the same bytes.
pub proof fn law_enough_is_read(status: u16, head: Seq<u8>, rest: Seq<u8>)
    requires
        head.len() >= enough_bytes(status),
    ensures
        succeeded(status) ==> head.len() > MAX_RESPONSE_BYTES && (head + rest).len()
            > MAX_RESPONSE_BYTES,
        !succeeded(status) ==> decode::capped(head + rest) == decode::capped(head),
{
    if !succeeded(status) {
        assert((head + rest).take(MAX_ERROR_BODY_BYTES as int) =~= head.take(
            MAX_ERROR_BODY_BYTES as int,
        ));
        assert(head.len() == MAX_ERROR_BODY_BYTES ==> head.take(MAX_ERROR_BODY_BYTES as int)
            =~= head);
    }
}

/// Implemented by every success response so that the server-assigned
/// `X-Request-Id` can be stamped onto the decoded body. The header is the
/// only place the correlation token lives on 2xx responses.
pub trait SetRequestId: Sized {
    /// The response with another correlation token.
    spec fn with_request_id(self, id: Option<String>) -> Self;

    fn set_request_id(&mut self, id: Option<String>)
        ensures
            *final(self) == old(self).with_request_id(id),
    ;
}

/// The correlation token of a response: its header, unless it is missing,
/// unreadable or empty.
pub open spec fn response_id(
    headers: reqwest::header::HeaderMap<reqwest::header::HeaderValue>,
) -> Option<Seq<char>> {
    match headers::header_text(headers, "x-request-id"@) {
        Some(id) => if id.len() > 0 {
            Some(id)
        } else {
            None
        },
        None => None,
    }
}

/// Finish a successful reply. `decoded` is what JSON parsing made of the
/// body, or what it had to say against it.
pub fn finish_response<R: SetRequestId>(
    status: u16,
    headers: &reqwest::header::HeaderMap,
    decoded: Result<R, String>,
) -> (res: Result<R, Error>)
    ensures
        res is Ok <==> decoded is Ok,
        res matches Ok(r) ==> exists|id: Option<String>|
            #[trigger] error::opt_text(id) == response_id(*headers)
                && r == decoded->Ok_0.with_request_id(id),
        res matches Err(e) ==> e@ == error::malformed_view(
            "decode response: "@ + decoded->Err_0@,
            status,
        ),
{
    match decoded {
        Ok(value) => {
            let mut value = value;
            let id = request_id_from_headers(headers);
            let ghost stamp = id;
            value.set_request_id(id);
            assert(error::opt_text(stamp) == response_id(*headers));
            Ok(value)
        },
        Err(what) => {
            let mut out = "decode response: ".to_owned();
            push_text(&mut out, what.as_str());
            Err(Error::malformed_response(out, status))
        },
    }
}

/// The error of a request that could not be encoded as JSON.
pub fn encode_failure(prefix: &str, what: &str) -> (res: Error)
    ensures
        res@ == error::malformed_view(prefix@ + what@, 0),
{
    let mut out = prefix.to_owned();
    push_text(&mut out, what);
    Error::malformed_response(out, 0)
}

/// A status is one of success exactly from 200 to 299.
pub proof fn law_success_is_from_200_to_299(status: u16)
    ensures
        succeeded(status) <==> 200 <= status <= 299,
{
}

/// Where each operation is sent, what it sends and what it answers with.
pub proof fn law_requests_are_laid_out(
    plan: RequestPlan,
    endpoint: Endpoint,
    base_url: Seq<char>,
    auth_header: Seq<char>,
    user_agent: Seq<char>,
    read_timeout: Option<nat>,
)
    requires
        is_plan(plan, endpoint, base_url, auth_header, user_agent, read_timeout),
    ensures
        endpoint is Health ==> plan.url@ == base_url + "/v1/health"@,
        endpoint is Lint ==> plan.url@ == base_url + "/v1/lint"@,
        endpoint is Publish ==> plan.url@ == base_url + "/v1/publish"@,
        endpoint is Search ==> plan.url@ == base_url + "/v1/search"@,
        endpoint is Subscribe ==> plan.url@ == base_url + "/v1/subscribe"@,
        plan.content_type@ == "application/json"@,
        endpoint is Subscribe ==> plan.accept@ == "text/event-stream"@,
        !(endpoint is Subscribe) ==> plan.accept@ == "application/json"@,
        plan.user_agent@ == user_agent,
        endpoint is Health || endpoint is Lint ==> plan.authorization is None,
        !(endpoint is Health) && !(endpoint is Lint) ==> (plan.authorization matches Some(value)
            && value@ == auth_header),
        endpoint is Subscribe ==> plan.timeout is None,
        !(endpoint is Subscribe) ==> (plan.timeout is Some <==> read_timeout is Some),
        !(endpoint is Subscribe) ==> (plan.timeout matches Some(t) ==> read_timeout == Some(t@)),
{
}

/// The correlation token of a response is the text of its `X-Request-Id`
/// header, where it is there, reads as text and is not empty.
pub proof fn law_the_header_is_the_token(
    headers: reqwest::header::HeaderMap<reqwest::header::HeaderValue>,
)
    ensures
        ({
            let named = headers::header_values(headers).dom().contains("x-request-id"@);
            let bytes = headers::header_values(headers)["x-request-id"@];
            let readable = forall|i: int|
                0 <= i < bytes.len() ==> (32 <= #[trigger] bytes[i] <= 126 || bytes[i] == 9);
            &&& response_id(headers) is Some <==> named && readable && bytes.len() > 0
            &&& response_id(headers) matches Some(id) ==> id.len() == bytes.len() && forall|i: int|
                0 <= i < bytes.len() ==> #[trigger] id[i] as nat == bytes[i] as nat
        }),
{
    headers::law_header_values_read_as_text(headers::header_values(headers)["x-request-id"@]);
}

/// What is said of a body that is too large names its size and the limit.
pub proof fn law_too_large_names_both_sizes(len: nat, max: nat)
    ensures
        too_large_text(len, max) == "response body "@ + text::decimal(len) + " bytes exceeds "@
            + text::decimal(max) + " byte cap"@,
        MAX_RESPONSE_BYTES == 1_048_576,
{
}

/// How far bodies are read, in numbers.
pub proof fn law_reading_is_bounded(status: u16)
    ensures
        200 <= status <= 299 ==> enough_bytes(status) == 1_048_577,
        !(200 <= status <= 299) ==> enough_bytes(status) == 65_536,
{
}

} // verus!
