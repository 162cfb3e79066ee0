//! Typed errors.

use crate::semantik::code;
use crate::semantik::code::{CodeView, ErrorCode};
use crate::semantik::duration::Duration;
use crate::text;
use crate::text::{push_decimal, push_text};
use reqwest::Error as HttpError;
use vstd::prelude::*;

verus! {

/// `reqwest`'s error: a failure of the HTTP transport.
#[verifier::external_type_specification]
#[verifier::external_body]
pub struct ExHttpError(HttpError);

/// Typed errors surfaced from every operation.
///
/// Transport-level failures (DNS, TCP, TLS) are [`Error::Transport`].
/// Structured server error envelopes, and client-side preflight
/// rejections, are [`Error::Api`]: a zero `http_status` means that the
/// request was rejected before it ever reached the wire.
#[derive(Debug)]
pub enum Error {
    /// A structured API error, or a preflight validation failure when
    /// `http_status == 0`.
    Api {
        code: ErrorCode,
        message: String,
        request_id: Option<String>,
        retry_after: Option<Duration>,
        http_status: u16,
    },
    /// Event-stream handshake or in-stream frame parse failure.
    MalformedSse(String),
    /// An error that surfaced during the subscribe handshake.
    SubscribeSetup { source: Box<Error> },
    /// An error that surfaced after the subscribe handshake completed.
    SubscribeStream { source: Box<Error> },
    /// The API key is empty, white space only, or cannot stand in a
    /// header.
    InvalidApiKey,
    /// No API key in the environment.
    MissingApiKey,
    /// HTTP transport, DNS, TLS, or other failure of the HTTP client.
    Transport(HttpError),
}

/// What an [`Error`] says. Durations are in nanoseconds.
#[verifier::ext_equal]
pub enum ErrorView {
    Api {
        code: CodeView,
        message: Seq<char>,
        request_id: Option<Seq<char>>,
        retry_after: Option<nat>,
        http_status: u16,
    },
    MalformedSse(Seq<char>),
    SubscribeSetup { source: Box<ErrorView> },
    SubscribeStream { source: Box<ErrorView> },
    InvalidApiKey,
    MissingApiKey,
    Transport(HttpError),
}

/// What an optional string says.
pub open spec fn opt_text(s: Option<String>) -> Option<Seq<char>> {
    match s {
        Some(s) => Some(s@),
        None => None,
    }
}

/// How long an optional duration is.
pub open spec fn opt_nanos(d: Option<Duration>) -> Option<nat> {
    match d {
        Some(d) => Some(d@),
        None => None,
    }
}

impl Error {
    pub open spec fn model(self) -> ErrorView
        decreases self,
    {
        match self {
            Error::Api { code, message, request_id, retry_after, http_status } => ErrorView::Api {
                code: code@,
                message: message@,
                request_id: opt_text(request_id),
                retry_after: opt_nanos(retry_after),
                http_status,
            },
            Error::MalformedSse(s) => ErrorView::MalformedSse(s@),
            Error::SubscribeSetup { source } => ErrorView::SubscribeSetup {
                source: Box::new(source.model()),
            },
            Error::SubscribeStream { source } => ErrorView::SubscribeStream {
                source: Box::new(source.model()),
            },
            Error::InvalidApiKey => ErrorView::InvalidApiKey,
            Error::MissingApiKey => ErrorView::MissingApiKey,
            Error::Transport(e) => ErrorView::Transport(e),
        }
    }
}

impl View for Error {
    type V = ErrorView;

    open spec fn view(&self) -> ErrorView {
        self.model()
    }
}

/// A client-side rejection with the given message.
pub open spec fn preflight_view(message: Seq<char>) -> ErrorView {
    ErrorView::Api {
        code: CodeView::InvalidRequest,
        message,
        request_id: None,
        retry_after: None,
        http_status: 0,
    }
}

/// A body that could not be decoded.
pub open spec fn malformed_view(message: Seq<char>, http_status: u16) -> ErrorView {
    ErrorView::Api {
        code: CodeView::MalformedResponse,
        message,
        request_id: None,
        retry_after: None,
        http_status,
    }
}

/// The code of an error, looked for through subscribe wraps.
pub open spec fn view_code(e: ErrorView) -> Option<CodeView>
    decreases e,
{
    match e {
        ErrorView::Api { code, .. } => Some(code),
        ErrorView::SubscribeSetup { source } => view_code(*source),
        ErrorView::SubscribeStream { source } => view_code(*source),
        _ => None,
    }
}

/// The HTTP status of an error, looked for through subscribe wraps.
pub open spec fn view_http_status(e: ErrorView) -> Option<u16>
    decreases e,
{
    match e {
        ErrorView::Api { http_status, .. } => Some(http_status),
        ErrorView::SubscribeSetup { source } => view_http_status(*source),
        ErrorView::SubscribeStream { source } => view_http_status(*source),
        _ => None,
    }
}

/// The correlation token of an error, looked for through subscribe wraps.
pub open spec fn view_request_id(e: ErrorView) -> Option<Seq<char>>
    decreases e,
{
    match e {
        ErrorView::Api { request_id, .. } => request_id,
        ErrorView::SubscribeSetup { source } => view_request_id(*source),
        ErrorView::SubscribeStream { source } => view_request_id(*source),
        _ => None,
    }
}

/// The retry hint of an error, looked for through subscribe wraps.
pub open spec fn view_retry_after(e: ErrorView) -> Option<nat>
    decreases e,
{
    match e {
        ErrorView::Api { retry_after, .. } => retry_after,
        ErrorView::SubscribeSetup { source } => view_retry_after(*source),
        ErrorView::SubscribeStream { source } => view_retry_after(*source),
        _ => None,
    }
}

/// The text of an API error. Status and message are left out where the
/// one is zero or the other is empty.
pub open spec fn api_text(http_status: u16, code: CodeView, message: Seq<char>) -> Seq<char> {
    let head = if http_status == 0 {
        "semantik: "@
    } else {
        "semantik: "@ + text::decimal(http_status as nat) + " "@
    };
    if message.len() == 0 {
        head + code::wire_name(code)
    } else {
        head + code::wire_name(code) + ": "@ + message
    }
}

/// Is `s` the text of the error? What the HTTP client says of a transport
/// failure is left open.
pub open spec fn reads_as(e: ErrorView, s: Seq<char>) -> bool
    decreases e,
{
    match e {
        ErrorView::Api { code, message, http_status, .. } => s == api_text(
            http_status,
            code,
            message,
        ),
        ErrorView::MalformedSse(what) => s == "semantik: malformed SSE frame: "@ + what,
        ErrorView::SubscribeSetup { source } => {
            let head = "semantik: subscribe handshake failed: "@;
            head.is_prefix_of(s) && reads_as(*source, s.skip(head.len() as int))
        },
        ErrorView::SubscribeStream { source } => {
            let head = "semantik: subscribe stream failed: "@;
            head.is_prefix_of(s) && reads_as(*source, s.skip(head.len() as int))
        },
        ErrorView::InvalidApiKey => s == "semantik: invalid API key"@,
        ErrorView::MissingApiKey => s == "semantik: NOETIVE_KEY_SECRET not set"@,
        ErrorView::Transport(_) => "semantik: transport: "@.is_prefix_of(s),
    }
}

/// `Display` for `reqwest::Error`. Nothing is claimed of the text.
#[verifier::external_body]
fn http_error_text(e: &HttpError) -> (res: String) {
    e.to_string()
}

/// The text of an API error.
pub fn fmt_api(http_status: u16, code: &ErrorCode, message: &str) -> (res: String)
    ensures
        res@ == api_text(http_status, code@, message@),
{
    let mut out = String::new();
    push_text(&mut out, "semantik: ");
    if http_status != 0 {
        push_decimal(&mut out, http_status as u64);
        push_text(&mut out, " ");
    }
    push_text(&mut out, code.as_str());
    if !message.is_empty() {
        push_text(&mut out, ": ");
        push_text(&mut out, message);
    }
    assert(Seq::<char>::empty() + "semantik: "@ =~= "semantik: "@);
    out
}

impl Error {
    /// A preflight validation error. The zero status tells client-side
    /// rejection apart from a server-side 400.
    pub fn preflight(message: String) -> (res: Self)
        ensures
            res@ == preflight_view(message@),
    {
        Error::Api {
            code: ErrorCode::InvalidRequest,
            message,
            request_id: None,
            retry_after: None,
            http_status: 0,
        }
    }

    /// A body that could not be decoded.
    pub fn malformed_response(message: String, http_status: u16) -> (res: Self)
        ensures
            res@ == malformed_view(message@, http_status),
    {
        Error::Api {
            code: ErrorCode::MalformedResponse,
            message,
            request_id: None,
            retry_after: None,
            http_status,
        }
    }

    /// Error code if this is an [`Error::Api`], recursing through
    /// subscribe wraps.
    pub fn code(&self) -> (res: Option<&ErrorCode>)
        ensures
            res is Some <==> view_code(self@) is Some,
            res matches Some(c) ==> c@ == view_code(self@)->0,
        decreases self,
    {
        match self {
            Error::Api { code, .. } => Some(code),
            Error::SubscribeSetup { source } => source.code(),
            Error::SubscribeStream { source } => source.code(),
            _ => None,
        }
    }

    /// HTTP status code if this is an [`Error::Api`]; zero for preflight
    /// failures. Recurses through subscribe wraps.
    pub fn http_status(&self) -> (res: Option<u16>)
        ensures
            res == view_http_status(self@),
        decreases self,
    {
        match self {
            Error::Api { http_status, .. } => Some(*http_status),
            Error::SubscribeSetup { source } => source.http_status(),
            Error::SubscribeStream { source } => source.http_status(),
            _ => None,
        }
    }

    /// Server-assigned correlation token if available. Recurses through
    /// subscribe wraps.
    pub fn request_id(&self) -> (res: Option<&str>)
        ensures
            res is Some <==> view_request_id(self@) is Some,
            res matches Some(id) ==> id@ == view_request_id(self@)->0,
        decreases self,
    {
        match self {
            Error::Api { request_id, .. } => match request_id {
                Some(id) => Some(id.as_str()),
                None => None,
            },
            Error::SubscribeSetup { source } => source.request_id(),
            Error::SubscribeStream { source } => source.request_id(),
            _ => None,
        }
    }

    /// Server's retry hint, when present. Recurses through subscribe
    /// wraps.
    pub fn retry_after(&self) -> (res: Option<Duration>)
        ensures
            opt_nanos(res) == view_retry_after(self@),
        decreases self,
    {
        match self {
            Error::Api { retry_after, .. } => *retry_after,
            Error::SubscribeSetup { source } => source.retry_after(),
            Error::SubscribeStream { source } => source.retry_after(),
            _ => None,
        }
    }

    /// True when this is a client-side preflight validation failure that
    /// never reached the wire. Does not recurse: preflight errors are
    /// never wrapped.
    pub fn is_preflight(&self) -> (res: bool)
        ensures
            res == (self@ matches ErrorView::Api { http_status, .. } && http_status == 0),
    {
        match self {
            Error::Api { http_status, .. } => *http_status == 0,
            _ => false,
        }
    }

    /// Human-readable description.
    pub fn text(&self) -> (res: String)
        ensures
            reads_as(self@, res@),
        decreases self,
    {
        let mut out = String::new();
        match self {
            Error::Api { code, message, http_status, .. } => {
                return fmt_api(*http_status, code, message.as_str());
            },
            Error::MalformedSse(what) => {
                push_text(&mut out, "semantik: malformed SSE frame: ");
                push_text(&mut out, what.as_str());
                assert(out@ =~= "semantik: malformed SSE frame: "@ + what@);
            },
            Error::SubscribeSetup { source } => {
                let inner = source.text();
                push_text(&mut out, "semantik: subscribe handshake failed: ");
                push_text(&mut out, inner.as_str());
                let ghost head = "semantik: subscribe handshake failed: "@;
                assert(out@ =~= head + inner@);
                assert(out@.skip(head.len() as int) =~= inner@);
            },
            Error::SubscribeStream { source } => {
                let inner = source.text();
                push_text(&mut out, "semantik: subscribe stream failed: ");
                push_text(&mut out, inner.as_str());
                let ghost head = "semantik: subscribe stream failed: "@;
                assert(out@ =~= head + inner@);
                assert(out@.skip(head.len() as int) =~= inner@);
            },
            Error::InvalidApiKey => {
                push_text(&mut out, "semantik: invalid API key");
                assert(out@ =~= "semantik: invalid API key"@);
            },
            Error::MissingApiKey => {
                push_text(&mut out, "semantik: NOETIVE_KEY_SECRET not set");
                assert(out@ =~= "semantik: NOETIVE_KEY_SECRET not set"@);
            },
            Error::Transport(e) => {
                push_text(&mut out, "semantik: transport: ");
                let what = http_error_text(e);
                push_text(&mut out, what.as_str());
                assert(out@ =~= "semantik: transport: "@ + what@);
            },
        }
        out
    }
}

/// Everything an error can be asked is the same through a subscribe wrap,
/// and a wrapped error is not a preflight failure.
pub proof fn law_wraps_are_transparent(e: ErrorView)
    ensures
        ({
            let setup = ErrorView::SubscribeSetup { source: Box::new(e) };
            let stream = ErrorView::SubscribeStream { source: Box::new(e) };
            &&& view_code(setup) == view_code(e) && view_code(stream) == view_code(e)
            &&& view_http_status(setup) == view_http_status(e)
            &&& view_http_status(stream) == view_http_status(e)
            &&& view_request_id(setup) == view_request_id(e)
            &&& view_request_id(stream) == view_request_id(e)
            &&& view_retry_after(setup) == view_retry_after(e)
            &&& view_retry_after(stream) == view_retry_after(e)
            &&& !(setup is Api) && !(stream is Api)
        }),
{
}

/// The view of an error keeps everything that the error holds.
pub proof fn law_views_keep_every_field(e: Error)
    ensures
        e matches Error::Api { code, message, request_id, retry_after, http_status } ==> {
            &&& e@ is Api
            &&& e@->Api_code == code@
            &&& e@->Api_message == message@
            &&& e@->Api_request_id is Some <==> request_id is Some
            &&& request_id matches Some(id) ==> e@->Api_request_id == Some(id@)
            &&& e@->Api_retry_after is Some <==> retry_after is Some
            &&& retry_after matches Some(d) ==> e@->Api_retry_after == Some(d@)
            &&& e@->Api_http_status == http_status
        },
        e matches Error::MalformedSse(what) ==> e@ == ErrorView::MalformedSse(what@),
        e matches Error::SubscribeSetup { source } ==> e@ == (ErrorView::SubscribeSetup {
            source: Box::new(source@),
        }),
        e matches Error::SubscribeStream { source } ==> e@ == (ErrorView::SubscribeStream {
            source: Box::new(source@),
        }),
        e is InvalidApiKey ==> e@ is InvalidApiKey,
        e is MissingApiKey ==> e@ is MissingApiKey,
        e matches Error::Transport(inner) ==> e@ == ErrorView::Transport(inner),
{
}

/// An API error tells each of its fields as it is; an error that is neither
/// that nor a wrap tells none.
pub proof fn law_errors_tell_their_fields(e: ErrorView)
    ensures
        e matches ErrorView::Api { code, message, request_id, retry_after, http_status } ==> {
            &&& view_code(e) == Some(code)
            &&& view_http_status(e) == Some(http_status)
            &&& view_request_id(e) == request_id
            &&& view_retry_after(e) == retry_after
        },
        !(e is Api) && !(e is SubscribeSetup) && !(e is SubscribeStream) ==> {
            &&& view_code(e) is None
            &&& view_http_status(e) is None
            &&& view_request_id(e) is None
            &&& view_retry_after(e) is None
        },
{
}

/// A preflight failure is an invalid request of status zero that says what
/// it was told, and a body that could not be decoded keeps its status.
/// Neither has a hint or a correlation token.
pub proof fn law_constructed_errors_say_what_they_were_told(message: Seq<char>, status: u16)
    ensures
        ({
            let e = preflight_view(message);
            &&& e is Api && e->Api_message == message
            &&& e->Api_code is InvalidRequest && e->Api_http_status == 0
            &&& e->Api_request_id is None && e->Api_retry_after is None
        }),
        ({
            let e = malformed_view(message, status);
            &&& e is Api && e->Api_message == message
            &&& e->Api_code is MalformedResponse && e->Api_http_status == status
            &&& e->Api_request_id is None && e->Api_retry_after is None
        }),
{
}

/// How the texts of API errors relate: a message is appended behind a
/// colon, a status stands before the name of the code, and without either
/// that name is all.
pub proof fn law_api_texts_are_built_up(status: u16, code: CodeView, message: Seq<char>)
    ensures
        api_text(0, code, Seq::empty()) == "semantik: "@ + code::wire_name(code),
        message.len() > 0 ==> api_text(status, code, message) == api_text(
            status,
            code,
            Seq::empty(),
        ) + ": "@ + message,
        status != 0 ==> api_text(status, code, Seq::empty()) == "semantik: "@ + text::decimal(
            status as nat,
        ) + " "@ + code::wire_name(code),
{
}

/// How the texts of other errors are read.
pub proof fn law_other_texts(e: ErrorView, what: Seq<char>, s: Seq<char>)
    ensures
        reads_as(ErrorView::MalformedSse(what), s) <==> s == "semantik: malformed SSE frame: "@
            + what,
        reads_as(ErrorView::InvalidApiKey, s) <==> s == "semantik: invalid API key"@,
        reads_as(ErrorView::MissingApiKey, s) <==> s == "semantik: NOETIVE_KEY_SECRET not set"@,
        reads_as(
            ErrorView::SubscribeSetup { source: Box::new(e) },
            "semantik: subscribe handshake failed: "@ + s,
        ) <==> reads_as(e, s),
        reads_as(
            ErrorView::SubscribeStream { source: Box::new(e) },
            "semantik: subscribe stream failed: "@ + s,
        ) <==> reads_as(e, s),
        e is Transport && reads_as(e, s) ==> "semantik: transport: "@.is_prefix_of(s),
        e matches ErrorView::Api { code, message, http_status, .. } ==> (reads_as(e, s) <==> s
            == api_text(http_status, code, message)),
{
    let setup = "semantik: subscribe handshake failed: "@;
    assert((setup + s).skip(setup.len() as int) =~= s);
    let stream = "semantik: subscribe stream failed: "@;
    assert((stream + s).skip(stream.len() as int) =~= s);
}

} // verus!
