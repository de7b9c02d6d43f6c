//! Strongly typed identifiers: a repository's id cannot stand where a review's is asked for.

use vstd::prelude::*;

use crate::text::{format_i64, signed_decimal};

verus! {

/// Identifies a repository.
#[derive(Debug, Clone, Copy, PartialEq, Eq, Hash, Structural)]
pub struct RepoId(pub i64);

impl RepoId {
    /// The id with the given number.
    pub fn new(id: i64) -> (r: RepoId)
        ensures
            r == RepoId(id),
    {
        RepoId(id)
    }

    /// The id's number.
    pub fn into_inner(self) -> (r: i64)
        ensures
            r == self.0,
    {
        self.0
    }

    /// The id's number in decimal.
    pub fn to_text(&self) -> (r: String)
        ensures
            r@ == signed_decimal(self.0 as int),
    {
        format_i64(self.0)
    }
}

impl From<i64> for RepoId {
    fn from(id: i64) -> (r: RepoId) {
        RepoId(id)
    }
}

impl vstd::std_specs::convert::FromSpecImpl<i64> for RepoId {
    open spec fn obeys_from_spec() -> bool {
        true
    }

    open spec fn from_spec(v: i64) -> RepoId {
        RepoId(v)
    }
}

/// Identifies a review.
#[derive(Debug, Clone, Copy, PartialEq, Eq, Hash, Structural)]
pub struct ReviewId(pub i64);

impl ReviewId {
    /// The id with the given number.
    pub fn new(id: i64) -> (r: ReviewId)
        ensures
            r == ReviewId(id),
    {
        ReviewId(id)
    }

    /// The id's number.
    pub fn into_inner(self) -> (r: i64)
        ensures
            r == self.0,
    {
        self.0
    }

    /// The id's number in decimal.
    pub fn to_text(&self) -> (r: String)
        ensures
            r@ == signed_decimal(self.0 as int),
    {
        format_i64(self.0)
    }
}

impl From<i64> for ReviewId {
    fn from(id: i64) -> (r: ReviewId) {
        ReviewId(id)
    }
}

impl vstd::std_specs::convert::FromSpecImpl<i64> for ReviewId {
    open spec fn obeys_from_spec() -> bool {
        true
    }

    open spec fn from_spec(v: i64) -> ReviewId {
        ReviewId(v)
    }
}

/// Identifies a prompt.
#[derive(Debug, Clone, Copy, PartialEq, Eq, Hash, Structural)]
pub struct PromptId(pub i64);

impl PromptId {
    /// The id with the given number.
    pub fn new(id: i64) -> (r: PromptId)
        ensures
            r == PromptId(id),
    {
        PromptId(id)
    }

    /// The id's number.
    pub fn into_inner(self) -> (r: i64)
        ensures
            r == self.0,
    {
        self.0
    }

    /// The id's number in decimal.
    pub fn to_text(&self) -> (r: String)
        ensures
            r@ == signed_decimal(self.0 as int),
    {
        format_i64(self.0)
    }
}

impl From<i64> for PromptId {
    fn from(id: i64) -> (r: PromptId) {
        PromptId(id)
    }
}

impl vstd::std_specs::convert::FromSpecImpl<i64> for PromptId {
    open spec fn obeys_from_spec() -> bool {
        true
    }

    open spec fn from_spec(v: i64) -> PromptId {
        PromptId(v)
    }
}

/// Identifies a job.
#[derive(Debug, Clone, Copy, PartialEq, Eq, Hash, Structural)]
pub struct JobId(pub i64);

impl JobId {
    /// The id with the given number.
    pub fn new(id: i64) -> (r: JobId)
        ensures
            r == JobId(id),
    {
        JobId(id)
    }

    /// The id's number.
    pub fn into_inner(self) -> (r: i64)
        ensures
            r == self.0,
    {
        self.0
    }

    /// The id's number in decimal.
    pub fn to_text(&self) -> (r: String)
        ensures
            r@ == signed_decimal(self.0 as int),
    {
        format_i64(self.0)
    }
}

impl From<i64> for JobId {
    fn from(id: i64) -> (r: JobId) {
        JobId(id)
    }
}

impl vstd::std_specs::convert::FromSpecImpl<i64> for JobId {
    open spec fn obeys_from_spec() -> bool {
        true
    }

    open spec fn from_spec(v: i64) -> JobId {
        JobId(v)
    }
}

} // verus!
