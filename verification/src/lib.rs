//! The verified core of a single-endpoint reverse proxy that adapts an
//! OpenAI-compatible Responses request for a different backend API:
//! request-body translation between the two schemas, route matching,
//! header transformation with credential injection, a credential cache,
//! the 401-triggered refresh-and-retry-once protocol as a state machine,
//! and the tee that captures a streamed response while relaying it.
//!
//! Listening, connections, threads, and the calls into the credential
//! store live in the thin program around this library; they hand plain
//! values in and carry the dispatcher's directives out.

pub mod credential;
pub mod dispatch;
pub mod headers;
pub mod json;
pub mod redact;
pub mod relay;
pub mod router;
pub mod strutil;
pub mod translate;

use vstd::prelude::*;

verus! {

/// Configuration for a proxy process: where to listen, where the upstream
/// lives, and where the credential store is rooted. Plain data; the
/// command-line front end fills it in.
pub struct Args {
    /// Port to listen on; an ephemeral port when absent.
    pub port: Option<u16>,
    /// Path of a file to write startup info into, when requested.
    pub server_info: Option<String>,
    /// Whether the HTTP shutdown endpoint is enabled.
    pub http_shutdown: bool,
    /// Override for the upstream base URL.
    pub base_url: Option<String>,
    /// Override for the credential store's home directory.
    pub codex_home: Option<String>,
    /// Whether verbose diagnostics are enabled.
    pub verbose: bool,
    /// Address to bind the listener to.
    pub bind: String,
}

} // verus!
