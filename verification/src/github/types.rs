//! The documents that the CI service answers with.

use crate::text::{same_text, texts};
use vstd::prelude::*;

verus! {

/// The answer to a listing of workflow runs.
#[derive(Debug, Clone)]
pub struct WorkflowRunsResponse {
    pub workflow_runs: Vec<WorkflowRun>,
}

#[derive(Debug, Clone, Copy, PartialEq, Eq, Structural)]
pub struct WorkflowRun {
    pub id: u64,
}

/// The answer to a listing of the jobs of one run.
#[derive(Debug, Clone)]
pub struct JobsResponse {
    pub jobs: Vec<Job>,
}

#[derive(Debug, Clone, PartialEq, Eq)]
pub struct Job {
    pub id: u64,
    pub status: String,
    pub labels: Vec<String>,
    pub runner_id: Option<u64>,
}

/// A job with its texts as sequences of characters.
pub struct JobView {
    pub id: u64,
    pub status: Seq<char>,
    pub labels: Seq<Seq<char>>,
    pub runner_id: Option<u64>,
}

impl View for Job {
    type V = JobView;

    open spec fn view(&self) -> JobView {
        JobView {
            id: self.id,
            status: self.status@,
            labels: texts(self.labels@),
            runner_id: self.runner_id,
        }
    }
}

impl JobView {
    /// The job waits for a runner.
    pub open spec fn waiting(self) -> bool {
        is_waiting_status(self.status)
    }

    /// A runner has been assigned: its id is there and is not zero.
    pub open spec fn assigned(self) -> bool {
        self.runner_id matches Some(id) && id != 0
    }
}

/// A job in one of these states waits for a runner.
pub open spec fn is_waiting_status(status: Seq<char>) -> bool {
    status == "queued"@ || status == "waiting"@ || status == "pending"@
}

impl Job {
    /// Check if this job is waiting for a runner
    pub fn is_waiting(&self) -> (waiting: bool)
        ensures
            waiting == self@.waiting(),
    {
        let status = self.status.as_str();
        same_text(status, "queued") || same_text(status, "waiting") || same_text(
            status,
            "pending",
        )
    }

    /// Check if this job has a runner assigned
    pub fn has_runner(&self) -> (assigned: bool)
        ensures
            assigned == self@.assigned(),
    {
        match self.runner_id {
            Some(id) => id != 0,
            None => false,
        }
    }
}

/// The answer to a listing of the registered runners.
#[derive(Debug, Clone)]
pub struct RunnersResponse {
    pub runners: Vec<Runner>,
}

#[derive(Debug, Clone, PartialEq, Eq)]
pub struct Runner {
    pub id: u64,
    pub name: String,
}

/// The answer to a request for a registration token.
#[derive(Debug, Clone)]
pub struct RegistrationTokenResponse {
    pub token: String,
}

} // verus!
