//! Routing core of a small reverse proxy: a backend registry with health
//! tracking and round-robin selection, per-request context, and the header
//! edits applied to outbound requests and inbound responses.

pub mod backend;
pub mod balancer;
pub mod decimal;
pub mod headers;
pub mod lemmas;
pub mod runtime;
pub mod simple;
pub mod smart;
pub mod text;
