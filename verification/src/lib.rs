//! A minimal HTTP server core: a path-pattern matcher, an ordered
//! route/middleware pipeline, and the per-request dispatch algorithm that
//! walks the pipeline with short-circuit and request-rewriting semantics.
//!
//! Socket handling and wire serialization live outside this crate; the
//! library works on plain values (pattern strings, request paths, methods)
//! and every function here carries a verified contract.

pub mod dispatch;
pub mod handlers;
pub mod http;
pub mod path;
pub mod pipeline;
pub mod server;
