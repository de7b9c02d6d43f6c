//! Running reviews in the background.

pub mod cleanup;
pub mod prompt_run;
pub mod review_run;
pub mod runner;
