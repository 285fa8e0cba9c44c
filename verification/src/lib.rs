//! Update checks, upstream calls and shared HTTP clients of a desktop proxy manager.
//!
//! The modules hold the decisions: which source to ask next, which endpoint to
//! fall back to, which headers to send, which version is newer, what a log line
//! may show. Reading the clock, the disk and the network is left to the caller.

pub mod text;

pub mod version;
pub mod settings;
pub mod platform;
pub mod proxy_url;
pub mod update_info;
pub mod update_check;

pub mod status;
pub mod session;
pub mod json;
pub mod headers;
pub mod fallback;
pub mod auxiliary;
pub mod upstream;

pub mod credentials;
pub mod hiding;
pub mod redact;
pub mod http;
