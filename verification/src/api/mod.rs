//! The HTTP API.

pub mod auth;
pub mod error;
pub mod handlers;
pub mod sse;
pub mod stream_token;
