//! Release and wire-level identity.

use crate::text::push_text;
use vstd::prelude::*;

verus! {

/// Semantic version of this release.
pub const VERSION: &'static str = "0.1.0";

/// The `User-Agent` value on an operating system and architecture.
pub open spec fn user_agent_text(os: Seq<char>, arch: Seq<char>) -> Seq<char> {
    "noetive-sdk-rust/"@ + VERSION@ + " (rust; "@ + os + "/"@ + arch + ")"@
}

/// Build the `User-Agent` header value emitted by every request, given
/// the names of the operating system and architecture it runs on:
///
/// ```text
/// noetive-sdk-rust/<VERSION> (rust; <os>/<arch>)
/// ```
pub fn user_agent(os: &str, arch: &str) -> (res: String)
    ensures
        res@ == user_agent_text(os@, arch@),
{
    let mut out = "noetive-sdk-rust/".to_owned();
    push_text(&mut out, VERSION);
    push_text(&mut out, " (rust; ");
    push_text(&mut out, os);
    push_text(&mut out, "/");
    push_text(&mut out, arch);
    push_text(&mut out, ")");
    out
}

/// The `User-Agent` value names the version, the operating system and the
/// architecture, and nothing else.
pub proof fn law_user_agents_name_the_platform(os: Seq<char>, arch: Seq<char>)
    ensures
        user_agent_text(os, arch) == "noetive-sdk-rust/"@ + "0.1.0"@ + " (rust; "@ + os + "/"@
            + arch + ")"@,
{
}

} // verus!
