//! Machine-readable error codes.

use crate::text::text_eq;
use vstd::prelude::*;

verus! {

/// Machine-readable error codes returned by the Semantik API.
///
/// Codes that are not known here are surfaced as [`ErrorCode::Unknown`]:
/// match on the variants you care about and treat `Unknown` as an opaque
/// fallback.
#[derive(Debug, Clone, PartialEq, Eq)]
pub enum ErrorCode {
    /// Client-side preflight rejection OR server 400. A zero HTTP status
    /// means the request was rejected before it was sent.
    InvalidRequest,
    Unauthorized,
    NotBillable,
    MethodNotAllowed,
    UnsupportedMediaType,
    RequestTooLarge,
    RateLimited,
    TooManyRequests,
    Backpressure,
    Unavailable,
    NamespaceUnavailable,
    NamespaceDisabled,
    ModelNotProvisioned,
    MeteringUnavailable,
    InternalError,
    /// Server returned 2xx with a body that could not be decoded. Not part
    /// of the wire protocol; never produced for non-2xx responses.
    MalformedResponse,
    /// Catch-all for codes added later.
    Unknown(String),
}

/// What an [`ErrorCode`] says.
pub enum CodeView {
    InvalidRequest,
    Unauthorized,
    NotBillable,
    MethodNotAllowed,
    UnsupportedMediaType,
    RequestTooLarge,
    RateLimited,
    TooManyRequests,
    Backpressure,
    Unavailable,
    NamespaceUnavailable,
    NamespaceDisabled,
    ModelNotProvisioned,
    MeteringUnavailable,
    InternalError,
    MalformedResponse,
    Unknown(Seq<char>),
}

impl View for ErrorCode {
    type V = CodeView;

    open spec fn view(&self) -> CodeView {
        match self {
            ErrorCode::InvalidRequest => CodeView::InvalidRequest,
            ErrorCode::Unauthorized => CodeView::Unauthorized,
            ErrorCode::NotBillable => CodeView::NotBillable,
            ErrorCode::MethodNotAllowed => CodeView::MethodNotAllowed,
            ErrorCode::UnsupportedMediaType => CodeView::UnsupportedMediaType,
            ErrorCode::RequestTooLarge => CodeView::RequestTooLarge,
            ErrorCode::RateLimited => CodeView::RateLimited,
            ErrorCode::TooManyRequests => CodeView::TooManyRequests,
            ErrorCode::Backpressure => CodeView::Backpressure,
            ErrorCode::Unavailable => CodeView::Unavailable,
            ErrorCode::NamespaceUnavailable => CodeView::NamespaceUnavailable,
            ErrorCode::NamespaceDisabled => CodeView::NamespaceDisabled,
            ErrorCode::ModelNotProvisioned => CodeView::ModelNotProvisioned,
            ErrorCode::MeteringUnavailable => CodeView::MeteringUnavailable,
            ErrorCode::InternalError => CodeView::InternalError,
            ErrorCode::MalformedResponse => CodeView::MalformedResponse,
            ErrorCode::Unknown(s) => CodeView::Unknown(s@),
        }
    }
}

/// The name of a code in the `error` field of the JSON envelope.
pub open spec fn wire_name(code: CodeView) -> Seq<char> {
    match code {
        CodeView::InvalidRequest => "invalid_request"@,
        CodeView::Unauthorized => "unauthorized"@,
        CodeView::NotBillable => "not_billable"@,
        CodeView::MethodNotAllowed => "method_not_allowed"@,
        CodeView::UnsupportedMediaType => "unsupported_media_type"@,
        CodeView::RequestTooLarge => "request_too_large"@,
        CodeView::RateLimited => "rate_limited"@,
        CodeView::TooManyRequests => "too_many_requests"@,
        CodeView::Backpressure => "backpressure"@,
        CodeView::Unavailable => "unavailable"@,
        CodeView::NamespaceUnavailable => "namespace_unavailable"@,
        CodeView::NamespaceDisabled => "namespace_disabled"@,
        CodeView::ModelNotProvisioned => "model_not_provisioned"@,
        CodeView::MeteringUnavailable => "metering_unavailable"@,
        CodeView::InternalError => "internal_error"@,
        CodeView::MalformedResponse => "malformed_response"@,
        CodeView::Unknown(s) => s,
    }
}

/// Is `s` the name of a known code?
pub open spec fn is_known_name(s: Seq<char>) -> bool {
    ||| s == "invalid_request"@
    ||| s == "unauthorized"@
    ||| s == "not_billable"@
    ||| s == "method_not_allowed"@
    ||| s == "unsupported_media_type"@
    ||| s == "request_too_large"@
    ||| s == "rate_limited"@
    ||| s == "too_many_requests"@
    ||| s == "backpressure"@
    ||| s == "unavailable"@
    ||| s == "namespace_unavailable"@
    ||| s == "namespace_disabled"@
    ||| s == "model_not_provisioned"@
    ||| s == "metering_unavailable"@
    ||| s == "internal_error"@
    ||| s == "malformed_response"@
}

/// The code that a wire-format string names.
pub open spec fn code_named(s: Seq<char>) -> CodeView {
    if s == "invalid_request"@ {
        CodeView::InvalidRequest
    } else if s == "unauthorized"@ {
        CodeView::Unauthorized
    } else if s == "not_billable"@ {
        CodeView::NotBillable
    } else if s == "method_not_allowed"@ {
        CodeView::MethodNotAllowed
    } else if s == "unsupported_media_type"@ {
        CodeView::UnsupportedMediaType
    } else if s == "request_too_large"@ {
        CodeView::RequestTooLarge
    } else if s == "rate_limited"@ {
        CodeView::RateLimited
    } else if s == "too_many_requests"@ {
        CodeView::TooManyRequests
    } else if s == "backpressure"@ {
        CodeView::Backpressure
    } else if s == "unavailable"@ {
        CodeView::Unavailable
    } else if s == "namespace_unavailable"@ {
        CodeView::NamespaceUnavailable
    } else if s == "namespace_disabled"@ {
        CodeView::NamespaceDisabled
    } else if s == "model_not_provisioned"@ {
        CodeView::ModelNotProvisioned
    } else if s == "metering_unavailable"@ {
        CodeView::MeteringUnavailable
    } else if s == "internal_error"@ {
        CodeView::InternalError
    } else if s == "malformed_response"@ {
        CodeView::MalformedResponse
    } else {
        CodeView::Unknown(s)
    }
}

/// The known names differ from each other.
proof fn lemma_names_differ()
    ensures
        forall|a: CodeView, b: CodeView|
            !(a is Unknown) && !(b is Unknown) && #[trigger] wire_name(a) == #[trigger] wire_name(b)
                ==> a == b,
{
    reveal_strlit("invalid_request");
    reveal_strlit("unauthorized");
    reveal_strlit("not_billable");
    reveal_strlit("method_not_allowed");
    reveal_strlit("unsupported_media_type");
    reveal_strlit("request_too_large");
    reveal_strlit("rate_limited");
    reveal_strlit("too_many_requests");
    reveal_strlit("backpressure");
    reveal_strlit("unavailable");
    reveal_strlit("namespace_unavailable");
    reveal_strlit("namespace_disabled");
    reveal_strlit("model_not_provisioned");
    reveal_strlit("metering_unavailable");
    reveal_strlit("internal_error");
    reveal_strlit("malformed_response");
    assert forall|a: CodeView, b: CodeView|
        !(a is Unknown) && !(b is Unknown) && #[trigger] wire_name(a) == #[trigger] wire_name(
            b,
        ) implies a == b by {
        let s = wire_name(a);
        let t = wire_name(b);
        assert(s.len() == t.len());
        assert(s[0] == t[0] && s[1] == t[1] && s[2] == t[2] && s[10] == t[10]);
    }
}

impl ErrorCode {
    /// Wire-format string used in the JSON envelope's `error` field.
    pub fn as_str(&self) -> (res: &str)
        ensures
            res@ == wire_name(self@),
    {
        match self {
            ErrorCode::InvalidRequest => "invalid_request",
            ErrorCode::Unauthorized => "unauthorized",
            ErrorCode::NotBillable => "not_billable",
            ErrorCode::MethodNotAllowed => "method_not_allowed",
            ErrorCode::UnsupportedMediaType => "unsupported_media_type",
            ErrorCode::RequestTooLarge => "request_too_large",
            ErrorCode::RateLimited => "rate_limited",
            ErrorCode::TooManyRequests => "too_many_requests",
            ErrorCode::Backpressure => "backpressure",
            ErrorCode::Unavailable => "unavailable",
            ErrorCode::NamespaceUnavailable => "namespace_unavailable",
            ErrorCode::NamespaceDisabled => "namespace_disabled",
            ErrorCode::ModelNotProvisioned => "model_not_provisioned",
            ErrorCode::MeteringUnavailable => "metering_unavailable",
            ErrorCode::InternalError => "internal_error",
            ErrorCode::MalformedResponse => "malformed_response",
            ErrorCode::Unknown(s) => s.as_str(),
        }
    }

    /// Parse a wire-format string into a known variant, falling back to
    /// [`ErrorCode::Unknown`].
    pub fn from_wire(s: &str) -> (res: Self)
        ensures
            res@ == code_named(s@),
            wire_name(res@) == s@,
            res is Unknown <==> !is_known_name(s@),
            res is InvalidRequest <==> s@ == "invalid_request"@,
            res is Unauthorized <==> s@ == "unauthorized"@,
            res is NotBillable <==> s@ == "not_billable"@,
            res is MethodNotAllowed <==> s@ == "method_not_allowed"@,
            res is UnsupportedMediaType <==> s@ == "unsupported_media_type"@,
            res is RequestTooLarge <==> s@ == "request_too_large"@,
            res is RateLimited <==> s@ == "rate_limited"@,
            res is TooManyRequests <==> s@ == "too_many_requests"@,
            res is Backpressure <==> s@ == "backpressure"@,
            res is Unavailable <==> s@ == "unavailable"@,
            res is NamespaceUnavailable <==> s@ == "namespace_unavailable"@,
            res is NamespaceDisabled <==> s@ == "namespace_disabled"@,
            res is ModelNotProvisioned <==> s@ == "model_not_provisioned"@,
            res is MeteringUnavailable <==> s@ == "metering_unavailable"@,
            res is InternalError <==> s@ == "internal_error"@,
            res is MalformedResponse <==> s@ == "malformed_response"@,
    {
        proof {
            lemma_names_differ();
            assert(wire_name(CodeView::InvalidRequest) == "invalid_request"@);
            assert(wire_name(CodeView::Unauthorized) == "unauthorized"@);
            assert(wire_name(CodeView::NotBillable) == "not_billable"@);
            assert(wire_name(CodeView::MethodNotAllowed) == "method_not_allowed"@);
            assert(wire_name(CodeView::UnsupportedMediaType) == "unsupported_media_type"@);
            assert(wire_name(CodeView::RequestTooLarge) == "request_too_large"@);
            assert(wire_name(CodeView::RateLimited) == "rate_limited"@);
            assert(wire_name(CodeView::TooManyRequests) == "too_many_requests"@);
            assert(wire_name(CodeView::Backpressure) == "backpressure"@);
            assert(wire_name(CodeView::Unavailable) == "unavailable"@);
            assert(wire_name(CodeView::NamespaceUnavailable) == "namespace_unavailable"@);
            assert(wire_name(CodeView::NamespaceDisabled) == "namespace_disabled"@);
            assert(wire_name(CodeView::ModelNotProvisioned) == "model_not_provisioned"@);
            assert(wire_name(CodeView::MeteringUnavailable) == "metering_unavailable"@);
            assert(wire_name(CodeView::InternalError) == "internal_error"@);
            assert(wire_name(CodeView::MalformedResponse) == "malformed_response"@);
        }
        if text_eq(s, "invalid_request") {
            ErrorCode::InvalidRequest
        } else if text_eq(s, "unauthorized") {
            ErrorCode::Unauthorized
        } else if text_eq(s, "not_billable") {
            ErrorCode::NotBillable
        } else if text_eq(s, "method_not_allowed") {
            ErrorCode::MethodNotAllowed
        } else if text_eq(s, "unsupported_media_type") {
            ErrorCode::UnsupportedMediaType
        } else if text_eq(s, "request_too_large") {
            ErrorCode::RequestTooLarge
        } else if text_eq(s, "rate_limited") {
            ErrorCode::RateLimited
        } else if text_eq(s, "too_many_requests") {
            ErrorCode::TooManyRequests
        } else if text_eq(s, "backpressure") {
            ErrorCode::Backpressure
        } else if text_eq(s, "unavailable") {
            ErrorCode::Unavailable
        } else if text_eq(s, "namespace_unavailable") {
            ErrorCode::NamespaceUnavailable
        } else if text_eq(s, "namespace_disabled") {
            ErrorCode::NamespaceDisabled
        } else if text_eq(s, "model_not_provisioned") {
            ErrorCode::ModelNotProvisioned
        } else if text_eq(s, "metering_unavailable") {
            ErrorCode::MeteringUnavailable
        } else if text_eq(s, "internal_error") {
            ErrorCode::InternalError
        } else if text_eq(s, "malformed_response") {
            ErrorCode::MalformedResponse
        } else {
            ErrorCode::Unknown(s.to_owned())
        }
    }
}

/// Parsing the name of a code gives the code back, and naming a parsed
/// code gives the string back. The one exception is a code built by hand
/// as `Unknown` with a known name, which parses to the known code.
pub proof fn law_codes_round_trip(code: CodeView, s: Seq<char>)
    requires
        code is Unknown ==> !is_known_name(code->Unknown_0),
    ensures
        code_named(wire_name(code)) == code,
        wire_name(code_named(s)) == s,
{
    lemma_names_differ();
    assert(wire_name(CodeView::InvalidRequest) == "invalid_request"@);
    assert(wire_name(CodeView::Unauthorized) == "unauthorized"@);
    assert(wire_name(CodeView::NotBillable) == "not_billable"@);
    assert(wire_name(CodeView::MethodNotAllowed) == "method_not_allowed"@);
    assert(wire_name(CodeView::UnsupportedMediaType) == "unsupported_media_type"@);
    assert(wire_name(CodeView::RequestTooLarge) == "request_too_large"@);
    assert(wire_name(CodeView::RateLimited) == "rate_limited"@);
    assert(wire_name(CodeView::TooManyRequests) == "too_many_requests"@);
    assert(wire_name(CodeView::Backpressure) == "backpressure"@);
    assert(wire_name(CodeView::Unavailable) == "unavailable"@);
    assert(wire_name(CodeView::NamespaceUnavailable) == "namespace_unavailable"@);
    assert(wire_name(CodeView::NamespaceDisabled) == "namespace_disabled"@);
    assert(wire_name(CodeView::ModelNotProvisioned) == "model_not_provisioned"@);
    assert(wire_name(CodeView::MeteringUnavailable) == "metering_unavailable"@);
    assert(wire_name(CodeView::InternalError) == "internal_error"@);
    assert(wire_name(CodeView::MalformedResponse) == "malformed_response"@);
}

/// Each of the sixteen names stands for its code, and every other name for
/// an unknown code of that name.
pub proof fn law_names_stand_for_codes(s: Seq<char>)
    ensures
        wire_name(code_named(s)) == s,
        code_named(s) is InvalidRequest <==> s == "invalid_request"@,
        code_named(s) is Unauthorized <==> s == "unauthorized"@,
        code_named(s) is NotBillable <==> s == "not_billable"@,
        code_named(s) is MethodNotAllowed <==> s == "method_not_allowed"@,
        code_named(s) is UnsupportedMediaType <==> s == "unsupported_media_type"@,
        code_named(s) is RequestTooLarge <==> s == "request_too_large"@,
        code_named(s) is RateLimited <==> s == "rate_limited"@,
        code_named(s) is TooManyRequests <==> s == "too_many_requests"@,
        code_named(s) is Backpressure <==> s == "backpressure"@,
        code_named(s) is Unavailable <==> s == "unavailable"@,
        code_named(s) is NamespaceUnavailable <==> s == "namespace_unavailable"@,
        code_named(s) is NamespaceDisabled <==> s == "namespace_disabled"@,
        code_named(s) is ModelNotProvisioned <==> s == "model_not_provisioned"@,
        code_named(s) is MeteringUnavailable <==> s == "metering_unavailable"@,
        code_named(s) is InternalError <==> s == "internal_error"@,
        code_named(s) is MalformedResponse <==> s == "malformed_response"@,
        code_named(s) matches CodeView::Unknown(name) ==> name == s,
{
    lemma_names_differ();
    assert(wire_name(CodeView::InvalidRequest) == "invalid_request"@);
    assert(wire_name(CodeView::Unauthorized) == "unauthorized"@);
    assert(wire_name(CodeView::NotBillable) == "not_billable"@);
    assert(wire_name(CodeView::MethodNotAllowed) == "method_not_allowed"@);
    assert(wire_name(CodeView::UnsupportedMediaType) == "unsupported_media_type"@);
    assert(wire_name(CodeView::RequestTooLarge) == "request_too_large"@);
    assert(wire_name(CodeView::RateLimited) == "rate_limited"@);
    assert(wire_name(CodeView::TooManyRequests) == "too_many_requests"@);
    assert(wire_name(CodeView::Backpressure) == "backpressure"@);
    assert(wire_name(CodeView::Unavailable) == "unavailable"@);
    assert(wire_name(CodeView::NamespaceUnavailable) == "namespace_unavailable"@);
    assert(wire_name(CodeView::NamespaceDisabled) == "namespace_disabled"@);
    assert(wire_name(CodeView::ModelNotProvisioned) == "model_not_provisioned"@);
    assert(wire_name(CodeView::MeteringUnavailable) == "metering_unavailable"@);
    assert(wire_name(CodeView::InternalError) == "internal_error"@);
    assert(wire_name(CodeView::MalformedResponse) == "malformed_response"@);
}

/// The view of a code is the code of the same name.
pub proof fn law_views_of_codes(c: ErrorCode)
    ensures
        c is InvalidRequest <==> c@ is InvalidRequest,
        c is Unauthorized <==> c@ is Unauthorized,
        c is NotBillable <==> c@ is NotBillable,
        c is MethodNotAllowed <==> c@ is MethodNotAllowed,
        c is UnsupportedMediaType <==> c@ is UnsupportedMediaType,
        c is RequestTooLarge <==> c@ is RequestTooLarge,
        c is RateLimited <==> c@ is RateLimited,
        c is TooManyRequests <==> c@ is TooManyRequests,
        c is Backpressure <==> c@ is Backpressure,
        c is Unavailable <==> c@ is Unavailable,
        c is NamespaceUnavailable <==> c@ is NamespaceUnavailable,
        c is NamespaceDisabled <==> c@ is NamespaceDisabled,
        c is ModelNotProvisioned <==> c@ is ModelNotProvisioned,
        c is MeteringUnavailable <==> c@ is MeteringUnavailable,
        c is InternalError <==> c@ is InternalError,
        c is MalformedResponse <==> c@ is MalformedResponse,
        c matches ErrorCode::Unknown(name) ==> c@ == CodeView::Unknown(name@),
{
}

} // verus!
