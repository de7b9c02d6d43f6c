//! Reading GitHub repositories.

pub mod concat;
pub mod fetch;
pub mod filter;
pub mod walk;
