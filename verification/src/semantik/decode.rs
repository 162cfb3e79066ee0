//! From an unsuccessful response to an [`Error`].

use crate::semantik::clock::unix_now;
use crate::semantik::code;
use crate::semantik::code::{CodeView, ErrorCode};
use crate::semantik::duration;
use crate::semantik::duration::Duration;
use crate::semantik::error;
use crate::semantik::error::{Error, ErrorView};
use crate::semantik::headers;
use crate::semantik::headers::get_text;
use crate::semantik::httpdate;
use crate::semantik::httpdate::httpdate_parse;
use crate::semantik::limits::{MAX_ERROR_BODY_BYTES, MAX_RETRY_AFTER_SECS};
use crate::text;
use crate::text::{
    parse_i64, push_byte_list, push_decimal, push_text, string_from_utf8_lossy, trim,
};
use vstd::prelude::*;
use vstd::slice::slice_subrange;

verus! {

// ---------------------------------------------------------------------
// Codes
// ---------------------------------------------------------------------

/// The code that a status stands for where the body does not say.
pub open spec fn fallback_code(status: u16) -> CodeView {
    if status == 400 {
        CodeView::InvalidRequest
    } else if status == 401 {
        CodeView::Unauthorized
    } else if status == 402 {
        CodeView::NotBillable
    } else if status == 405 {
        CodeView::MethodNotAllowed
    } else if status == 413 {
        CodeView::RequestTooLarge
    } else if status == 415 {
        CodeView::UnsupportedMediaType
    } else if status == 429 {
        CodeView::RateLimited
    } else if status == 503 {
        CodeView::Unavailable
    } else {
        CodeView::InternalError
    }
}

/// Best-guess code mapping when the server body is empty or unparseable.
///
/// Deliberate asymmetry on 429: there are two distinct 429 codes, one
/// retryable and one terminal. When the body is absent the terminal
/// [`ErrorCode::RateLimited`] is picked, as blind retries of a rate limit
/// can get the caller blocked harder.
pub fn status_code_fallback(status: u16) -> (res: ErrorCode)
    ensures
        res@ == fallback_code(status),
{
    match status {
        400 => ErrorCode::InvalidRequest,
        401 => ErrorCode::Unauthorized,
        402 => ErrorCode::NotBillable,
        405 => ErrorCode::MethodNotAllowed,
        413 => ErrorCode::RequestTooLarge,
        415 => ErrorCode::UnsupportedMediaType,
        429 => ErrorCode::RateLimited,
        503 => ErrorCode::Unavailable,
        _ => ErrorCode::InternalError,
    }
}

// ---------------------------------------------------------------------
// Retry hints
// ---------------------------------------------------------------------

/// The longest retry hint accepted, in nanoseconds.
pub open spec fn max_retry_after() -> nat {
    duration::secs(MAX_RETRY_AFTER_SECS as nat)
}

/// A retry hint of `nanos`, where it is positive and not too long.
pub open spec fn hint(nanos: int) -> Option<nat> {
    if 0 < nanos <= max_retry_after() {
        Some(nanos as nat)
    } else {
        None
    }
}

/// The retry hint of the body's `retry_after_ms` field. Zero and more
/// than the longest accepted hint are no hint.
pub fn retry_after_from_ms(ms: u32) -> (res: Option<Duration>)
    ensures
        error::opt_nanos(res) == hint(duration::millis(ms as nat) as int),
{
    if ms == 0 {
        return None;
    }
    let d = Duration::from_millis(ms as u64);
    if !d.at_most(&Duration::from_secs(MAX_RETRY_AFTER_SECS)) {
        return None;
    }
    Some(d)
}

/// The retry hint that the text of a `Retry-After` header gives at the
/// time `now`, in nanoseconds since the Unix epoch: a whole number of
/// seconds, or a date ahead of `now`.
pub open spec fn retry_after_hint(value: Seq<char>, now: int) -> Option<nat> {
    let v = text::trimmed(value);
    match text::i64_value(v) {
        Some(secs) => hint(secs * 1_000_000_000),
        None => match httpdate::imf_fixdate(v) {
            Some(unix) => hint(unix * 1_000_000_000 - now),
            None => None,
        },
    }
}

/// The retry hint that the text of a `Retry-After` header gives at the
/// time `now`, in nanoseconds since the Unix epoch.
pub fn retry_after_from_text(value: &str, now: i128) -> (res: Option<Duration>)
    ensures
        error::opt_nanos(res) == retry_after_hint(value@, now as int),
{
    let v = trim(value);
    if let Some(secs) = parse_i64(v.as_str()) {
        if secs <= 0 || secs as u64 > MAX_RETRY_AFTER_SECS {
            return None;
        }
        return Some(Duration::from_secs(secs as u64));
    }
    let unix = match httpdate_parse(v.as_str()) {
        Some(t) => t,
        None => return None,
    };
    let at: i128 = unix as i128 * 1_000_000_000;
    let longest: i128 = MAX_RETRY_AFTER_SECS as i128 * 1_000_000_000;
    if now >= at || now < at - longest {
        return None;
    }
    let ahead: i128 = at - now;
    Some(Duration::new((ahead / 1_000_000_000) as u64, (ahead % 1_000_000_000) as u32))
}

/// The retry hint of a response's `Retry-After` header at the time `now`.
pub open spec fn header_hint(
    headers: reqwest::header::HeaderMap<reqwest::header::HeaderValue>,
    now: int,
) -> Option<nat> {
    match headers::header_text(headers, "retry-after"@) {
        Some(value) => retry_after_hint(value, now),
        None => None,
    }
}

/// The retry hint of a response's `Retry-After` header at the time `now`,
/// in nanoseconds since the Unix epoch.
pub fn retry_after_at(headers: &reqwest::header::HeaderMap, now: i128) -> (res: Option<Duration>)
    ensures
        error::opt_nanos(res) == header_hint(*headers, now as int),
{
    match get_text(headers, "retry-after") {
        Some(value) => retry_after_from_text(value.as_str(), now),
        None => None,
    }
}

/// Parse the HTTP `Retry-After` header.
///
/// Both forms are honoured: an integer number of seconds, and an absolute
/// timestamp, of which the distance to the clock's time counts. Returns `None` when
/// the header is missing, empty, zero, negative, in the past,
/// unparseable, or further ahead than the longest accepted hint.
pub fn parse_retry_after_header(headers: &reqwest::header::HeaderMap) -> (res: Option<Duration>)
    ensures
        exists|now: i128| error::opt_nanos(res) == #[trigger] header_hint(*headers, now as int),
{
    let now = unix_now();
    let res = retry_after_at(headers, now);
    assert(error::opt_nanos(res) == header_hint(*headers, now as int));
    res
}

// ---------------------------------------------------------------------
// Bodies
// ---------------------------------------------------------------------

/// Wire-format JSON envelope for error responses. Absent fields are empty
/// or zero.
#[derive(Debug)]
pub struct ErrorEnvelope {
    pub error: String,
    pub message: String,
    pub request_id: String,
    pub retry_after_ms: u32,
}

/// The part of an error body that is looked at.
pub open spec fn capped(body: Seq<u8>) -> Seq<u8> {
    if body.len() > MAX_ERROR_BODY_BYTES {
        body.take(MAX_ERROR_BODY_BYTES as int)
    } else {
        body
    }
}

/// The part of an error body that is looked at: at most
/// [`MAX_ERROR_BODY_BYTES`]. The JSON envelope is to be parsed from this.
pub fn error_body(body: &[u8]) -> (res: &[u8])
    ensures
        res@ == capped(body@),
{
    if body.len() > MAX_ERROR_BODY_BYTES {
        slice_subrange(body, 0, MAX_ERROR_BODY_BYTES)
    } else {
        body
    }
}

/// Bytes of a malformed body that are quoted.
pub const MAX_EXCERPT_BYTES: usize = 256;

/// What is said of a body that is not a JSON envelope: the body itself
/// where it is short, else its size and its first bytes.
pub open spec fn excerpt(body: Seq<u8>) -> Seq<char> {
    if body.len() <= MAX_EXCERPT_BYTES {
        text::utf8_lossy(body)
    } else {
        "malformed body ("@ + text::decimal(body.len()) + " bytes; first "@ + text::decimal(
            MAX_EXCERPT_BYTES as nat,
        ) + ": ["@ + text::byte_list(body.take(MAX_EXCERPT_BYTES as int)) + "])"@
    }
}

fn excerpt_of(body: &[u8]) -> (res: String)
    ensures
        res@ == excerpt(body@),
{
    if body.len() <= MAX_EXCERPT_BYTES {
        string_from_utf8_lossy(body)
    } else {
        let mut out = String::new();
        push_text(&mut out, "malformed body (");
        push_decimal(&mut out, body.len() as u64);
        push_text(&mut out, " bytes; first ");
        push_decimal(&mut out, MAX_EXCERPT_BYTES as u64);
        push_text(&mut out, ": [");
        push_byte_list(&mut out, slice_subrange(body, 0, MAX_EXCERPT_BYTES));
        push_text(&mut out, "])");
        assert(Seq::<char>::empty() + "malformed body ("@ =~= "malformed body ("@);
        out
    }
}

/// The error that a response stands for. `envelope` is the JSON envelope
/// of its body, `None` where the body is not one; `now` is in nanoseconds
/// since the Unix epoch.
pub open spec fn decoded_error(
    status: u16,
    headers: reqwest::header::HeaderMap<reqwest::header::HeaderValue>,
    body: Seq<u8>,
    envelope: Option<ErrorEnvelope>,
    now: int,
) -> ErrorView {
    let header_id = headers::header_text(headers, "x-request-id"@);
    let from_header = header_hint(headers, now);
    let body = capped(body);
    if body.len() == 0 {
        ErrorView::Api {
            code: fallback_code(status),
            message: Seq::empty(),
            request_id: header_id,
            retry_after: from_header,
            http_status: status,
        }
    } else {
        match envelope {
            None => ErrorView::Api {
                code: fallback_code(status),
                message: excerpt(body),
                request_id: header_id,
                retry_after: from_header,
                http_status: status,
            },
            Some(env) => {
                let from_body = hint(duration::millis(env.retry_after_ms as nat) as int);
                ErrorView::Api {
                    code: if env.error@.len() == 0 {
                        fallback_code(status)
                    } else {
                        code::code_named(env.error@)
                    },
                    message: env.message@,
                    request_id: if env.request_id@.len() > 0 {
                        Some(env.request_id@)
                    } else {
                        header_id
                    },
                    retry_after: if from_body is Some {
                        from_body
                    } else {
                        from_header
                    },
                    http_status: status,
                }
            },
        }
    }
}

/// Decode a non-2xx response into an [`Error::Api`] at the time `now`, in
/// nanoseconds since the Unix epoch.
///
/// `envelope` is what JSON parsing makes of [`error_body`]`(body)`, `None`
/// where it fails. An empty or malformed body is tolerated: the error
/// still carries the status. The retry hint comes from the body's
/// `retry_after_ms` or else from the `Retry-After` header, the
/// correlation token from the body's `request_id` or else from the
/// `X-Request-Id` header.
pub fn decode_error_response_at(
    status: u16,
    headers: &reqwest::header::HeaderMap,
    body: &[u8],
    envelope: Option<ErrorEnvelope>,
    now: i128,
) -> (res: Error)
    ensures
        res@ == decoded_error(status, *headers, body@, envelope, now as int),
{
    let header_request_id = get_text(headers, "x-request-id");
    let header_retry_after = retry_after_at(headers, now);
    let body = error_body(body);
    if body.len() == 0 {
        return Error::Api {
            code: status_code_fallback(status),
            message: String::new(),
            request_id: header_request_id,
            retry_after: header_retry_after,
            http_status: status,
        };
    }
    match envelope {
        None => Error::Api {
            code: status_code_fallback(status),
            message: excerpt_of(body),
            request_id: header_request_id,
            retry_after: header_retry_after,
            http_status: status,
        },
        Some(env) => {
            let code = if env.error.as_str().is_empty() {
                status_code_fallback(status)
            } else {
                ErrorCode::from_wire(env.error.as_str())
            };
            let request_id = if !env.request_id.as_str().is_empty() {
                Some(env.request_id)
            } else {
                header_request_id
            };
            let retry_after = match retry_after_from_ms(env.retry_after_ms) {
                Some(d) => Some(d),
                None => header_retry_after,
            };
            Error::Api { code, message: env.message, request_id, retry_after, http_status: status }
        },
    }
}

/// Decode a non-2xx response into an [`Error::Api`]. A date in its
/// `Retry-After` header counts from the clock's time.
pub fn decode_error_response(
    status: u16,
    headers: &reqwest::header::HeaderMap,
    body: &[u8],
    envelope: Option<ErrorEnvelope>,
) -> (res: Error)
    ensures
        exists|now: i128|
            res@ == #[trigger] decoded_error(status, *headers, body@, envelope, now as int),
{
    let now = unix_now();
    let res = decode_error_response_at(status, headers, body, envelope, now);
    assert(res@ == decoded_error(status, *headers, body@, envelope, now as int));
    res
}

/// No decoded error asks to wait for longer than an hour, or for no time
/// at all, and every one carries the status of its response.
pub proof fn law_hints_are_bounded(
    status: u16,
    headers: reqwest::header::HeaderMap<reqwest::header::HeaderValue>,
    body: Seq<u8>,
    envelope: Option<ErrorEnvelope>,
    now: int,
)
    ensures
        ({
            let e = decoded_error(status, headers, body, envelope, now);
            &&& error::view_http_status(e) == Some(status)
            &&& error::view_retry_after(e) matches Some(nanos) ==> 0 < nanos <= duration::secs(3600)
        }),
{
}

/// No unsuccessful response is decoded to [`ErrorCode::MalformedResponse`],
/// unless its own envelope names that code.
pub proof fn law_malformed_response_is_for_success(
    status: u16,
    headers: reqwest::header::HeaderMap<reqwest::header::HeaderValue>,
    body: Seq<u8>,
    envelope: Option<ErrorEnvelope>,
    now: int,
)
    requires
        envelope matches Some(env) ==> env.error@ != "malformed_response"@,
    ensures
        error::view_code(decoded_error(status, headers, body, envelope, now)) != Some(
            CodeView::MalformedResponse,
        ),
{
}

/// What the body of an error says wins over its headers: a usable retry
/// hint and a correlation token in the envelope are taken, and the headers
/// count only where the envelope gives none.
pub proof fn law_the_body_wins_over_the_headers(
    status: u16,
    headers: reqwest::header::HeaderMap<reqwest::header::HeaderValue>,
    body: Seq<u8>,
    envelope: ErrorEnvelope,
    now: int,
)
    requires
        body.len() > 0,
    ensures
        ({
            let e = decoded_error(status, headers, body, Some(envelope), now);
            let from_body = hint(duration::millis(envelope.retry_after_ms as nat) as int);
            &&& error::view_retry_after(e) == if from_body is Some {
                from_body
            } else {
                header_hint(headers, now)
            }
            &&& error::view_request_id(e) == if envelope.request_id@.len() > 0 {
                Some(envelope.request_id@)
            } else {
                headers::header_text(headers, "x-request-id"@)
            }
        }),
{
}

/// A code that the body names is kept, whatever the status: the error's
/// code has that name. So is its message, and the status is that of the
/// response.
pub proof fn law_named_codes_are_kept(
    status: u16,
    headers: reqwest::header::HeaderMap<reqwest::header::HeaderValue>,
    body: Seq<u8>,
    envelope: ErrorEnvelope,
    now: int,
)
    requires
        body.len() > 0,
        envelope.error@.len() > 0,
    ensures
        ({
            let e = decoded_error(status, headers, body, Some(envelope), now);
            &&& e is Api
            &&& code::wire_name(e->Api_code) == envelope.error@
            &&& e->Api_code matches CodeView::Unknown(name) ==> name == envelope.error@
            &&& e->Api_code is RateLimited <==> envelope.error@ == "rate_limited"@
            &&& e->Api_code is Backpressure <==> envelope.error@ == "backpressure"@
            &&& e->Api_code is Unavailable <==> envelope.error@ == "unavailable"@
            &&& e->Api_code is NamespaceUnavailable <==> envelope.error@
                == "namespace_unavailable"@
            &&& e->Api_code is MeteringUnavailable <==> envelope.error@ == "metering_unavailable"@
            &&& e->Api_message == envelope.message@
            &&& e->Api_http_status == status
        }),
{
    code::law_names_stand_for_codes(envelope.error@);
}

/// Where the body names no code, the status stands for one; nothing else
/// does.
pub proof fn law_statuses_stand_for_codes(
    status: u16,
    headers: reqwest::header::HeaderMap<reqwest::header::HeaderValue>,
    body: Seq<u8>,
    envelope: Option<ErrorEnvelope>,
    now: int,
)
    requires
        body.len() == 0 || envelope is None || envelope->0.error@.len() == 0,
    ensures
        ({
            let e = decoded_error(status, headers, body, envelope, now);
            let code = e->Api_code;
            &&& e is Api && e->Api_http_status == status
            &&& status == 400 <==> code is InvalidRequest
            &&& status == 401 <==> code is Unauthorized
            &&& status == 402 <==> code is NotBillable
            &&& status == 405 <==> code is MethodNotAllowed
            &&& status == 413 <==> code is RequestTooLarge
            &&& status == 415 <==> code is UnsupportedMediaType
            &&& status == 429 <==> code is RateLimited
            &&& status == 503 <==> code is Unavailable
            &&& !(code is InvalidRequest || code is Unauthorized || code is NotBillable
                || code is MethodNotAllowed || code is RequestTooLarge
                || code is UnsupportedMediaType || code is RateLimited || code is Unavailable)
                ==> code is InternalError
        }),
{
}

/// What the body says in place of a message: nothing where it is empty,
/// itself where it is short and no envelope, and else its size and its
/// first 256 bytes.
pub proof fn law_malformed_bodies_are_quoted(
    status: u16,
    headers: reqwest::header::HeaderMap<reqwest::header::HeaderValue>,
    body: Seq<u8>,
    now: int,
)
    ensures
        ({
            let e = decoded_error(status, headers, body, None, now);
            let said = e->Api_message;
            &&& body.len() == 0 ==> said.len() == 0
            &&& 0 < body.len() <= 256 && vstd::utf8::valid_utf8(body) ==> said
                == vstd::utf8::decode_utf8(body)
            &&& 256 < body.len() <= 65536 ==> said == "malformed body ("@ + text::decimal(
                body.len(),
            ) + " bytes; first "@ + text::decimal(256) + ": ["@ + text::byte_list(body.take(256))
                + "])"@
            &&& body.len() > 65536 ==> said == decoded_error(
                status,
                headers,
                body.take(65536),
                None,
                now,
            )->Api_message
        }),
{
    if body.len() > 65536 {
        assert(capped(body) =~= body.take(65536));
        assert(capped(body.take(65536)) =~= body.take(65536));
    }
}

/// A retry hint in the body counts in milliseconds, from one of them up to
/// an hour. Beyond that, and at zero, the header's counts.
pub proof fn law_body_hints_are_milliseconds(
    status: u16,
    headers: reqwest::header::HeaderMap<reqwest::header::HeaderValue>,
    body: Seq<u8>,
    envelope: ErrorEnvelope,
    now: int,
)
    requires
        body.len() > 0,
    ensures
        ({
            let ms = envelope.retry_after_ms;
            let with = decoded_error(status, headers, body, Some(envelope), now);
            let without = decoded_error(status, headers, body, None, now);
            &&& 1 <= ms <= 3_600_000 ==> with->Api_retry_after == Some(ms as nat * 1_000_000)
            &&& !(1 <= ms <= 3_600_000) ==> with->Api_retry_after == without->Api_retry_after
        }),
{
}

/// The hint of the headers is that of the text of `Retry-After`, and there
/// is none where that header is missing or does not read as text.
pub proof fn law_header_hints_come_from_retry_after(
    status: u16,
    headers: reqwest::header::HeaderMap<reqwest::header::HeaderValue>,
    now: int,
)
    ensures
        ({
            let e = decoded_error(status, headers, Seq::empty(), None, now);
            &&& headers::header_text(headers, "retry-after"@) is None ==> e->Api_retry_after is None
            &&& headers::header_text(headers, "retry-after"@) matches Some(value)
                ==> e->Api_retry_after == retry_after_hint(value, now)
            &&& e->Api_request_id == headers::header_text(headers, "x-request-id"@)
        }),
{
}

/// A whole number of seconds is a hint of as many, from one up to an hour,
/// whatever the time. No other number is one.
pub proof fn law_seconds_are_hints(n: nat, now: int)
    requires
        n <= i64::MAX,
    ensures
        1 <= n <= 3600 ==> retry_after_hint(text::decimal(n), now) == Some(n * 1_000_000_000),
        n == 0 || n > 3600 ==> retry_after_hint(text::decimal(n), now) is None,
        retry_after_hint("-"@ + text::decimal(n), now) is None,
{
    reveal_strlit("-");
    let s = text::decimal(n);
    let minus = "-"@ + s;
    text::law_decimals_are_read_back(n);
    text::lemma_digits_are_no_white_space(s);
    assert(minus[0] == '-');
    assert(minus.drop_first() =~= s);
    assert(minus.last() == s.last());
    assert(!text::is_white_space('-'));
    assert(!text::is_digit('-'));
}

/// A date is a hint of the time that is left until it, where that is more
/// than nothing and at most an hour.
pub proof fn law_dates_are_hints(value: Seq<char>, now: int)
    requires
        httpdate::imf_fixdate(value) is Some,
    ensures
        ({
            let left = httpdate::imf_fixdate(value)->0 * 1_000_000_000 - now;
            &&& 0 < left <= 3_600_000_000_000 ==> retry_after_hint(value, now) == Some(left as nat)
            &&& !(0 < left <= 3_600_000_000_000) ==> retry_after_hint(value, now) is None
        }),
{
    assert(value[0] == value.subrange(0, 3)[0]);
    assert(value.last() == 'T');
    assert(!text::is_white_space(value[0]));
    assert(!text::is_white_space('T'));
    assert(!text::is_digit('T'));
    assert(value.drop_first().last() == 'T');
    text::lemma_nothing_to_trim(value);
    if text::all_digits(value) {
        assert(text::is_digit(value[28]));
    }
    if text::all_digits(value.drop_first()) {
        assert(text::is_digit(value.drop_first()[27]));
    }
}

/// White space around a hint does not count.
pub proof fn law_white_space_around_hints_is_ignored(
    before: Seq<char>,
    value: Seq<char>,
    after: Seq<char>,
    now: int,
)
    requires
        forall|i: int| 0 <= i < before.len() ==> text::is_white_space(#[trigger] before[i]),
        forall|i: int| 0 <= i < after.len() ==> text::is_white_space(#[trigger] after[i]),
    ensures
        retry_after_hint(before + value + after, now) == retry_after_hint(value, now),
{
    text::law_trimming_drops_white_space(before, value, after);
}

/// An envelope's message is the error's, whatever the code; an empty body
/// has no envelope.
pub proof fn law_messages_are_kept(
    status: u16,
    headers: reqwest::header::HeaderMap<reqwest::header::HeaderValue>,
    body: Seq<u8>,
    envelope: ErrorEnvelope,
    now: int,
)
    ensures
        body.len() > 0 ==> decoded_error(status, headers, body, Some(envelope), now)->Api_message
            == envelope.message@,
        body.len() == 0 ==> decoded_error(status, headers, body, Some(envelope), now)
            == decoded_error(status, headers, body, None, now),
{
}

/// Of an error body, the first 65536 bytes are looked at.
pub proof fn law_error_bodies_are_cut(body: Seq<u8>)
    ensures
        body.len() <= 65536 ==> capped(body) == body,
        body.len() > 65536 ==> capped(body) == body.take(65536),
{
}

/// What is neither a number of seconds nor a date is no hint.
pub proof fn law_other_texts_are_no_hints(value: Seq<char>, now: int)
    ensures
        retry_after_hint(value, now) is Some ==> text::i64_value(text::trimmed(value)) is Some
            || httpdate::imf_fixdate(text::trimmed(value)) is Some,
        retry_after_hint(value, now) matches Some(nanos) ==> 0 < nanos <= 3_600_000_000_000,
{
}

} // verus!
