//! Defaults of the client.

use vstd::prelude::*;

verus! {

/// Production endpoint.
pub const DEFAULT_BASE_URL: &'static str = "https://semantik.noetive.io";

/// Environment variable that holds the API key.
pub const ENV_API_KEY: &'static str = "NOETIVE_KEY_SECRET";

/// Environment variable that overrides the base URL.
///
/// These two variables are the entire environment surface. The targeting
/// fields `namespace`, `model` and `dimensions` are deliberately not read
/// from the environment and have no default.
pub const ENV_BASE_URL: &'static str = "NOETIVE_BASE_URL";

/// Default TCP/TLS connect timeout in seconds. Ignored when the caller
/// injects their own HTTP client.
pub const DEFAULT_CONNECT_TIMEOUT_SECS: u64 = 10;

/// Default per-request read timeout for one-shot calls in seconds.
/// Ignored when the caller injects their own HTTP client.
pub const DEFAULT_READ_TIMEOUT_SECS: u64 = 30;

/// Default number of retries.
pub const DEFAULT_RETRIES: u32 = 5;

/// The defaults, as they stand.
pub proof fn law_defaults()
    ensures
        DEFAULT_BASE_URL@ == "https://semantik.noetive.io"@,
        ENV_API_KEY@ == "NOETIVE_KEY_SECRET"@,
        ENV_BASE_URL@ == "NOETIVE_BASE_URL"@,
        DEFAULT_CONNECT_TIMEOUT_SECS == 10,
        DEFAULT_READ_TIMEOUT_SECS == 30,
        DEFAULT_RETRIES == 5,
{
}

} // verus!
