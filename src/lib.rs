//! Authentication support for a desktop application: password hashing and
//! verification, session-token issuance, a per-key sliding-window rate
//! limiter, the application's version counter, and the reader of git log
//! lines.

pub mod version;
mod clock;
pub mod rate_limit;
pub mod auth;
pub mod commits;
