//! The things that the service works on.

pub mod ids;
pub mod job;
pub mod prompt;
pub mod repo;
pub mod review;
pub mod untrusted;
