//! Verified core of the client for the Noetive Semantik API.
//!
//! Semantik is a managed semantic broker. Publish messages (text or
//! pre-computed embedding vectors), search them with SemQL, and subscribe
//! to live match streams.
//!
//! This module holds everything that the client decides: what is rejected
//! before it is sent ([`validate`] and the requests), how a request is
//! laid out ([`transport`], [`client`]), what is made of a reply
//! ([`decode`], [`error`]), when a call is retried ([`retry`]), and how an
//! event stream is read ([`sse`], [`subscribe`]). Sending and receiving,
//! sleeping and JSON are the caller's.
//!
//! # Authentication
//!
//! Health and lint do not carry an API key; publish, search and subscribe
//! do, in the `Authorization` header. Any key that is not blank and can
//! stand in a header is accepted: the server is the source of truth for
//! key validity.
//!
//! # Namespaces
//!
//! Every publish, search and subscribe request must set `namespace`,
//! `model`, and `dimensions`. An unset targeting field is a preflight
//! error, not a silent fall-back to a shared namespace.

pub mod client;
pub mod clock;
pub mod code;
pub mod decode;
pub mod defaults;
pub mod duration;
pub mod error;
pub mod float;
pub mod headers;
pub mod httpdate;
pub mod limits;
pub mod lint;
pub mod metadata;
pub mod publish;
pub mod retry;
pub mod search;
pub mod sse;
pub mod sse_laws;
pub mod subscribe;
pub mod subscribe_laws;
pub mod transport;
pub mod validate;
pub mod version;

pub use client::{Client, ClientBuilder, Policy};
pub use code::ErrorCode;
pub use duration::Duration;
pub use error::Error;
pub use float::Float32;
pub use limits::{
    MAX_IDEMPOTENCY_KEY_LEN, MAX_LINT_BODY_BYTES, MAX_METADATA_KEYS, MAX_METADATA_KEY_LEN,
    MAX_METADATA_TOTAL_BYTES, MAX_METADATA_VALUE_LEN, MAX_PUBLISH_BODY_BYTES,
    MAX_SEARCH_BODY_BYTES, MAX_SUBSCRIBE_BODY_BYTES, MAX_TEXT_BYTES, MAX_VECTOR_DIM,
};
pub use lint::{LintCompletion, LintDiagnostic, LintRequest, LintResponse};
pub use metadata::Metadata;
pub use publish::{AckMode, PublishItem, PublishRequest, PublishResponse};
pub use retry::{NoRetry, RetryPolicy, TransientRetry};
pub use search::{ResultItem, SearchRequest, SearchResponse};
pub use subscribe::{MatchEvent, SubscribeRequest, Subscription};
pub use version::{user_agent, VERSION};
