//! Jobs of the persistent queue.

use vstd::prelude::*;

use crate::domain::ids::{JobId, RepoId};
use crate::text::same_text;
use crate::time::Timestamp;

verus! {

/// What a job has to do.
#[derive(Debug, Clone, Copy, PartialEq, Eq, Structural)]
pub enum JobPayload {
    /// Review a repository.
    ReviewRepo {
        /// The repository to review.
        repo_id: RepoId,
        /// If true (manual trigger), always run even if no changes.
        force: bool,
    },
}

/// Job status in the queue.
#[derive(Debug, Clone, Copy, PartialEq, Eq, Structural)]
pub enum JobStatus {
    /// Waiting to be claimed.
    Pending,
    /// Claimed by a worker.
    Running,
    /// Finished successfully.
    Completed,
    /// Given up.
    Failed,
}

impl JobStatus {
    /// The text that stands for the status.
    pub open spec fn text(self) -> Seq<char> {
        match self {
            JobStatus::Pending => "pending"@,
            JobStatus::Running => "running"@,
            JobStatus::Completed => "completed"@,
            JobStatus::Failed => "failed"@,
        }
    }

    /// The status that a text stands for.
    pub open spec fn of_text(s: Seq<char>) -> Option<JobStatus> {
        if s == "pending"@ {
            Some(JobStatus::Pending)
        } else if s == "running"@ {
            Some(JobStatus::Running)
        } else if s == "completed"@ {
            Some(JobStatus::Completed)
        } else if s == "failed"@ {
            Some(JobStatus::Failed)
        } else {
            None
        }
    }

    /// The text that stands for the status.
    pub fn as_str(&self) -> (r: &'static str)
        ensures
            r@ == self.text(),
    {
        match self {
            JobStatus::Pending => "pending",
            JobStatus::Running => "running",
            JobStatus::Completed => "completed",
            JobStatus::Failed => "failed",
        }
    }

    /// The status that a text stands for.
    pub fn parse(s: &str) -> (r: Option<JobStatus>)
        ensures
            r == JobStatus::of_text(s@),
    {
        if same_text(s, "pending") {
            Some(JobStatus::Pending)
        } else if same_text(s, "running") {
            Some(JobStatus::Running)
        } else if same_text(s, "completed") {
            Some(JobStatus::Completed)
        } else if same_text(s, "failed") {
            Some(JobStatus::Failed)
        } else {
            None
        }
    }
}

impl std::str::FromStr for JobStatus {
    type Err = ();

    fn from_str(s: &str) -> (r: Result<JobStatus, ()>)
        ensures
            match r {
                Ok(status) => JobStatus::of_text(s@) == Some(status),
                Err(_) => JobStatus::of_text(s@) is None,
            },
    {
        match JobStatus::parse(s) {
            Some(status) => Ok(status),
            None => Err(()),
        }
    }
}

/// Every job status is read back from its own text, and only from it.
pub proof fn job_status_text_roundtrips(status: JobStatus, s: Seq<char>)
    ensures
        JobStatus::of_text(status.text()) == Some(status),
        JobStatus::of_text(s) == Some(status) ==> s == status.text(),
{
    reveal_strlit("pending");
    reveal_strlit("running");
    reveal_strlit("completed");
    reveal_strlit("failed");
    assert("pending"@[0] == 'p');
    assert("running"@[0] == 'r');
    assert("completed"@[0] == 'c');
    assert("failed"@[0] == 'f');
}

/// A job in the persistent queue.
#[derive(Debug)]
pub struct Job {
    /// The job's id.
    pub id: JobId,
    /// What the job has to do.
    pub payload: JobPayload,
    /// Where the job stands.
    pub status: JobStatus,
    /// How often the job was claimed.
    pub attempts: u32,
    /// How often the job may be claimed before it is given up.
    pub max_attempts: u32,
    /// The job is not claimed before this time.
    pub scheduled_at: Timestamp,
    /// When the job was last claimed.
    pub started_at: Option<Timestamp>,
    /// When the job completed or was given up.
    pub completed_at: Option<Timestamp>,
    /// The error of the last attempt that failed.
    pub last_error: Option<String>,
    /// Last heartbeat. Updated periodically while running, and used to tell stuck jobs (worker
    /// crash) from long-running ones.
    pub last_heartbeat: Option<Timestamp>,
    /// When the job was created.
    pub created_at: Timestamp,
}

impl Clone for Job {
    fn clone(&self) -> (r: Job)
        ensures
            r == *self,
    {
        Job {
            id: self.id,
            payload: self.payload,
            status: self.status,
            attempts: self.attempts,
            max_attempts: self.max_attempts,
            scheduled_at: self.scheduled_at,
            started_at: self.started_at,
            completed_at: self.completed_at,
            last_error: clone_text(&self.last_error),
            last_heartbeat: self.last_heartbeat,
            created_at: self.created_at,
        }
    }
}

/// A copy of an optional text.
pub fn clone_text(s: &Option<String>) -> (r: Option<String>)
    ensures
        r == *s,
{
    match s {
        Some(text) => Some(text.clone()),
        None => None,
    }
}

/// How often a new job may be attempted.
pub const DEFAULT_MAX_ATTEMPTS: u32 = 3;

/// Input for creating a new job.
#[derive(Debug, Clone, Copy, PartialEq, Eq, Structural)]
pub struct NewJob {
    /// What the job has to do.
    pub payload: JobPayload,
    /// The job is not claimed before this time.
    pub scheduled_at: Timestamp,
    /// How often the job may be attempted.
    pub max_attempts: u32,
}

impl NewJob {
    /// A new job to review a repository, scheduled for the current time.
    pub fn review_repo(repo_id: RepoId, force: bool) -> (r: NewJob)
        ensures
            r.payload == (JobPayload::ReviewRepo { repo_id, force }),
            r.max_attempts == DEFAULT_MAX_ATTEMPTS,
            r.scheduled_at.nanos() < 1_000_000_000,
    {
        NewJob::review_repo_at(repo_id, force, Timestamp::now())
    }

    /// A new job to review a repository, scheduled for a given time.
    pub fn review_repo_at(repo_id: RepoId, force: bool, at: Timestamp) -> (r: NewJob)
        ensures
            r == (NewJob {
                payload: JobPayload::ReviewRepo { repo_id, force },
                scheduled_at: at,
                max_attempts: DEFAULT_MAX_ATTEMPTS,
            }),
    {
        NewJob {
            payload: JobPayload::ReviewRepo { repo_id, force },
            scheduled_at: at,
            max_attempts: DEFAULT_MAX_ATTEMPTS,
        }
    }

    /// The same job scheduled for a specific time.
    pub fn scheduled_at(self, at: Timestamp) -> (r: NewJob)
        ensures
            r == (NewJob { scheduled_at: at, ..self }),
    {
        NewJob { payload: self.payload, scheduled_at: at, max_attempts: self.max_attempts }
    }
}

/// The statuses have the texts that are stored.
pub proof fn job_statuses_have_their_texts(status: JobStatus)
    ensures
        status is Pending ==> status.text() == "pending"@,
        status is Running ==> status.text() == "running"@,
        status is Completed ==> status.text() == "completed"@,
        status is Failed ==> status.text() == "failed"@,
{
}

} // verus!
