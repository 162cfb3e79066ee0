//! Server-side limits mirrored from the Noetive Semantik public API.
//!
//! Pre-flight validation uses these to fail fast before a request the
//! server would reject is sent.

use vstd::prelude::*;

verus! {

/// Largest embedding vector dimensionality the server accepts in a
/// single publish item.
pub const MAX_VECTOR_DIM: u16 = 4096;

/// Largest text payload (UTF-8 bytes) the server accepts in a single
/// publish item.
pub const MAX_TEXT_BYTES: usize = 32 * 1024;

/// Largest number of metadata keys accepted.
pub const MAX_METADATA_KEYS: usize = 16;

/// Largest single metadata key length in bytes.
pub const MAX_METADATA_KEY_LEN: usize = 64;

/// Largest single metadata value length in bytes.
pub const MAX_METADATA_VALUE_LEN: usize = 256;

/// Largest sum of all metadata key and value UTF-8 bytes.
pub const MAX_METADATA_TOTAL_BYTES: usize = 4 * 1024;

/// `/v1/search` body size limit.
pub const MAX_SEARCH_BODY_BYTES: usize = 1024 * 1024;

/// `/v1/publish` body size limit.
pub const MAX_PUBLISH_BODY_BYTES: usize = 2 * 1024 * 1024;

/// `/v1/subscribe` body size limit.
pub const MAX_SUBSCRIBE_BODY_BYTES: usize = 1024 * 1024;

/// `/v1/lint` body size limit.
pub const MAX_LINT_BODY_BYTES: usize = 64 * 1024;

/// Conservative cap on idempotency keys published by clients.
pub const MAX_IDEMPOTENCY_KEY_LEN: usize = 256;

/// Cap on successful response bodies read for decoding. Larger payloads
/// are rejected as malformed without ever being buffered in full. 1 MiB
/// comfortably covers every documented Semantik response.
pub const MAX_RESPONSE_BYTES: usize = 1024 * 1024;

/// Cap on a single event-stream frame.
pub const MAX_SSE_FRAME_BYTES: usize = 64 * 1024;

/// Cap on error response bodies read for decoding. What is beyond it is
/// not looked at.
pub const MAX_ERROR_BODY_BYTES: usize = 64 * 1024;

/// Largest retry-after hint accepted, in seconds. One hour is far longer
/// than any legitimate transient-retry hint.
pub const MAX_RETRY_AFTER_SECS: u64 = 3600;

/// The limits, in numbers.
pub proof fn law_limits()
    ensures
        MAX_VECTOR_DIM == 4096,
        MAX_TEXT_BYTES == 32_768,
        MAX_METADATA_KEYS == 16,
        MAX_METADATA_KEY_LEN == 64,
        MAX_METADATA_VALUE_LEN == 256,
        MAX_METADATA_TOTAL_BYTES == 4096,
        MAX_SEARCH_BODY_BYTES == 1_048_576,
        MAX_PUBLISH_BODY_BYTES == 2_097_152,
        MAX_SUBSCRIBE_BODY_BYTES == 1_048_576,
        MAX_LINT_BODY_BYTES == 65_536,
        MAX_IDEMPOTENCY_KEY_LEN == 256,
        MAX_RESPONSE_BYTES == 1_048_576,
        MAX_SSE_FRAME_BYTES == 65_536,
        MAX_ERROR_BODY_BYTES == 65_536,
        MAX_RETRY_AFTER_SECS == 3600,
{
}

} // verus!
