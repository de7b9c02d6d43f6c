//! Talking to large language models.

pub mod openai;
pub mod provider;
pub mod schema;
