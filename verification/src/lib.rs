//! Client core for the [Noetive](https://noetive.io) platform.
//!
//! Today this crate holds [`semantik`]: the request rules, error model,
//! retry policy, event-stream scanner and subscription state machine of
//! a managed semantic broker. Everything here is verified, but for what
//! is trusted of `reqwest` and the standard library, which the README
//! lists. Sockets, JSON and the async runtime live outside of it.

pub mod semantik;
pub mod text;
