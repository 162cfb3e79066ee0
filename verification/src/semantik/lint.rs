//! SemQL linting.

use crate::semantik::error::Error;
use crate::semantik::transport::SetRequestId;
use crate::semantik::validate;
use crate::semantik::validate::{reject, reject_pair};
use crate::text;
use crate::text::len_in_bytes;
use vstd::prelude::*;

verus! {

/// Body of `POST /v1/lint`.
#[derive(Debug, Clone)]
pub struct LintRequest {
    /// SemQL source to validate. Required.
    pub query: String,
    /// Byte offset within `query` to compute completions for. Zero means
    /// "end of query".
    pub cursor: u32,
}

/// Response from `POST /v1/lint`. `request_id` is the server-assigned
/// correlation token.
#[derive(Debug, Clone)]
pub struct LintResponse {
    pub normalized: String,
    pub diagnostics: Vec<LintDiagnostic>,
    pub completions: Vec<LintCompletion>,
    pub valid: bool,
    pub request_id: Option<String>,
}

#[derive(Debug, Clone)]
pub struct LintDiagnostic {
    pub severity: String,
    pub message: String,
    pub line: u32,
    pub col: u32,
    pub end_line: u32,
    pub end_col: u32,
}

#[derive(Debug, Clone)]
pub struct LintCompletion {
    pub label: String,
    pub kind: String,
    pub detail: String,
}

impl Default for LintRequest {
    fn default() -> (res: Self)
        ensures
            res.query@.len() == 0,
            res.cursor == 0,
    {
        LintRequest { query: String::new(), cursor: 0 }
    }
}

impl Default for LintResponse {
    fn default() -> (res: Self)
        ensures
            res.normalized@.len() == 0,
            res.diagnostics@.len() == 0,
            res.completions@.len() == 0,
            !res.valid,
            res.request_id is None,
    {
        LintResponse {
            normalized: String::new(),
            diagnostics: Vec::new(),
            completions: Vec::new(),
            valid: false,
            request_id: None,
        }
    }
}

impl Default for LintDiagnostic {
    fn default() -> (res: Self)
        ensures
            res.severity@.len() == 0,
            res.message@.len() == 0,
            res.line == 0,
            res.col == 0,
            res.end_line == 0,
            res.end_col == 0,
    {
        LintDiagnostic {
            severity: String::new(),
            message: String::new(),
            line: 0,
            col: 0,
            end_line: 0,
            end_col: 0,
        }
    }
}

impl Default for LintCompletion {
    fn default() -> (res: Self)
        ensures
            res.label@.len() == 0,
            res.kind@.len() == 0,
            res.detail@.len() == 0,
    {
        LintCompletion {
            label: String::new(),
            kind: String::new(),
            detail: String::new(),
        }
    }
}

impl SetRequestId for LintResponse {
    open spec fn with_request_id(self, id: Option<String>) -> Self {
        LintResponse { request_id: id, ..self }
    }

    fn set_request_id(&mut self, id: Option<String>) {
        self.request_id = id;
    }
}

/// What is wrong with a lint request.
pub open spec fn lint_problem(query: Seq<char>, cursor: nat) -> Option<Seq<char>> {
    if query.len() == 0 {
        Some("lint query must not be empty"@)
    } else if cursor > text::byte_len(query) {
        Some(
            "lint cursor "@ + text::decimal(cursor) + " exceeds query length "@ + text::decimal(
                text::byte_len(query),
            ),
        )
    } else {
        None
    }
}

impl LintRequest {
    /// Reject an empty query, and a cursor beyond its end.
    pub fn validate(&self) -> (res: Result<(), Error>)
        ensures
            validate::verdict(res, lint_problem(self.query@, self.cursor as nat)),
    {
        if self.query.as_str().is_empty() {
            return reject("lint query must not be empty");
        }
        let n = len_in_bytes(self.query.as_str());
        if self.cursor as u64 > n as u64 {
            return reject_pair(
                "lint cursor ",
                self.cursor as u64,
                " exceeds query length ",
                n as u64,
            );
        }
        Ok(())
    }
}

/// A lint request passes exactly where its query is not empty and its
/// cursor, counted in UTF-8 bytes, is not beyond the end of the query.
pub proof fn law_lint_passes(query: Seq<char>, cursor: nat)
    ensures
        lint_problem(query, cursor) is None <==> query.len() > 0 && cursor
            <= vstd::utf8::encode_utf8(query).len(),
{
}

/// Stamping a lint response with a correlation token changes nothing else.
pub proof fn law_stamping_keeps_the_lint_result(r: LintResponse, id: Option<String>)
    ensures
        ({
            let stamped = r.with_request_id(id);
            &&& stamped.request_id == id
            &&& stamped.valid == r.valid
            &&& stamped.normalized == r.normalized
            &&& stamped.diagnostics == r.diagnostics
            &&& stamped.completions == r.completions
        }),
{
}

/// What a rejected lint request is told.
pub proof fn law_lint_rejections_name_the_fault(query: Seq<char>, cursor: nat)
    ensures
        query.len() == 0 ==> lint_problem(query, cursor) == Some("lint query must not be empty"@),
        query.len() > 0 && cursor > vstd::utf8::encode_utf8(query).len() ==> lint_problem(
            query,
            cursor,
        ) == Some(
            "lint cursor "@ + text::decimal(cursor) + " exceeds query length "@ + text::decimal(
                vstd::utf8::encode_utf8(query).len(),
            ),
        ),
{
}

} // verus!
