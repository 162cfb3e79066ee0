//! SemQL search.

use crate::semantik::error::Error;
use crate::semantik::float::Float32;
use crate::semantik::metadata::Metadata;
use crate::semantik::transport::SetRequestId;
use crate::semantik::validate;
use crate::semantik::validate::{reject, validate_target};
use vstd::prelude::*;

verus! {

/// Body of `POST /v1/search`.
///
/// `query`, `namespace`, `model`, and `dimensions` are required: an unset
/// targeting field is a preflight error rather than a silent fall-back to
/// a shared namespace. `limit` zero means "use the SemQL `LIMIT` clause
/// or the server default" and is the one genuinely optional field.
#[derive(Debug, Clone)]
pub struct SearchRequest {
    pub query: String,
    pub namespace: String,
    pub model: String,
    pub limit: u32,
    pub dimensions: u16,
}

/// Is a number left out of the request body?
pub fn is_zero(n: &u32) -> (res: bool)
    ensures
        res == (*n == 0),
{
    *n == 0
}

/// Ranked list of matches. `request_id` is the server-assigned
/// correlation token.
#[derive(Debug, Clone)]
pub struct SearchResponse {
    pub results: Vec<ResultItem>,
    pub request_id: Option<String>,
}

/// Single ranked match.
#[derive(Debug, Clone)]
pub struct ResultItem {
    pub metadata: Metadata,
    pub content: String,
    pub message_id: String,
    pub namespace: String,
    pub score: Float32,
}

impl Default for SearchRequest {
    fn default() -> (res: Self)
        ensures
            res.query@.len() == 0,
            res.namespace@.len() == 0,
            res.model@.len() == 0,
            res.limit == 0,
            res.dimensions == 0,
    {
        SearchRequest {
            query: String::new(),
            namespace: String::new(),
            model: String::new(),
            limit: 0,
            dimensions: 0,
        }
    }
}

impl Default for SearchResponse {
    fn default() -> (res: Self)
        ensures
            res.results@.len() == 0,
            res.request_id is None,
    {
        SearchResponse {
            results: Vec::new(),
            request_id: None,
        }
    }
}

impl Default for ResultItem {
    fn default() -> (res: Self)
        ensures
            res.metadata@.len() == 0,
            res.content@.len() == 0,
            res.message_id@.len() == 0,
            res.namespace@.len() == 0,
            res.score.bits == 0,
    {
        ResultItem {
            metadata: Metadata::new(),
            content: String::new(),
            message_id: String::new(),
            namespace: String::new(),
            score: Float32::from_bits(0),
        }
    }
}

impl SetRequestId for SearchResponse {
    open spec fn with_request_id(self, id: Option<String>) -> Self {
        SearchResponse { request_id: id, ..self }
    }

    fn set_request_id(&mut self, id: Option<String>) {
        self.request_id = id;
    }
}

/// What is wrong with a search request.
pub open spec fn search_problem(r: SearchRequest) -> Option<Seq<char>> {
    if r.query@.len() == 0 {
        Some("search query must not be empty"@)
    } else {
        validate::target_problem(r.namespace@, r.model@, r.dimensions as nat)
    }
}

/// A search request passes where its query is not empty and its target is
/// complete. Nothing is defaulted.
pub proof fn law_search_requires_a_query_and_a_target(r: SearchRequest)
    ensures
        search_problem(r) is None <==> {
            &&& r.query@.len() > 0
            &&& r.namespace@.len() > 0
            &&& r.model@.len() > 0
            &&& 1 <= r.dimensions <= 4096
        },
{
}

impl SearchRequest {
    /// Reject an empty query or an incomplete target.
    pub fn validate(&self) -> (res: Result<(), Error>)
        ensures
            validate::verdict(res, search_problem(*self)),
    {
        if self.query.as_str().is_empty() {
            return reject("search query must not be empty");
        }
        validate_target(self.namespace.as_str(), self.model.as_str(), self.dimensions)
    }
}

/// Stamping a search response with a correlation token changes nothing
/// else.
pub proof fn law_stamping_keeps_the_results(r: SearchResponse, id: Option<String>)
    ensures
        r.with_request_id(id).request_id == id,
        r.with_request_id(id).results == r.results,
{
}

/// What a rejected search request is told.
pub proof fn law_search_rejections_name_the_fault(r: SearchRequest)
    ensures
        r.query@.len() == 0 ==> search_problem(r) == Some("search query must not be empty"@),
        r.query@.len() > 0 ==> search_problem(r) == validate::target_problem(
            r.namespace@,
            r.model@,
            r.dimensions as nat,
        ),
{
}

} // verus!
