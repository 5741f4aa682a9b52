//! What passes between the scheduler and the world around it.
//!
//! The scheduler never waits. It names the operation that it wants done, an
//! [`Action`], and is resumed with what came of it, an [`Event`]. What it asks
//! of the index of assignments is an [`IndexOp`], answered by an
//! [`IndexReply`]. On the way it leaves [`Notice`]s of what is worth a line in
//! a log.

use crate::github::types::{Job, JobView};
use crate::state::{ContainerState, StateError};
use crate::text::texts;
use vstd::prelude::*;

verus! {

// ---------------------------------------------------------------------------
// Failures
// ---------------------------------------------------------------------------

/// Why an operation outside the scheduler failed.
#[derive(Debug, Clone, PartialEq, Eq)]
pub struct Failure {
    /// The controller cannot go on: the CI service refuses its credential.
    pub fatal: bool,
    pub message: String,
}

pub struct FailureView {
    pub fatal: bool,
    pub message: Seq<char>,
}

impl View for Failure {
    type V = FailureView;

    open spec fn view(&self) -> FailureView {
        FailureView { fatal: self.fatal, message: self.message@ }
    }
}

pub enum StateErrorView {
    Storage(Seq<char>),
    Corrupt(Seq<char>),
}

/// An error of the index with its texts as sequences of characters.
pub open spec fn state_error_view(error: StateError) -> StateErrorView {
    match error {
        StateError::Storage(message) => StateErrorView::Storage(message@),
        StateError::Corrupt(name) => StateErrorView::Corrupt(name@),
    }
}

/// Why a routine of the scheduler, or a part of one, failed.
#[derive(Debug, Clone, PartialEq, Eq)]
pub enum ListenerError {
    /// The sandbox driver or the CI service failed.
    Outside(Failure),
    /// The index of assignments failed.
    Index(StateError),
}

pub enum ListenerErrorView {
    Outside(FailureView),
    Index(StateErrorView),
}

impl View for ListenerError {
    type V = ListenerErrorView;

    open spec fn view(&self) -> ListenerErrorView {
        match self {
            ListenerError::Outside(failure) => ListenerErrorView::Outside(failure@),
            ListenerError::Index(error) => ListenerErrorView::Index(state_error_view(*error)),
        }
    }
}

// ---------------------------------------------------------------------------
// Actions and events
// ---------------------------------------------------------------------------

/// An operation that the scheduler wants done by the sandbox driver, by the
/// CI service or by the process around it.
#[derive(Debug, PartialEq, Eq)]
pub enum Action {
    /// Ask the driver for the names of the live sandboxes.
    ListSandboxes,
    /// Ask the driver whether the runner in this sandbox has exited.
    IsComplete { name: String },
    /// Delete the runner of this name from the CI service, if it is there.
    Deregister { name: String },
    /// Have the driver stop and remove this sandbox.
    Destroy { name: String },
    /// Ask the driver how many sandboxes are live.
    CountActive,
    /// Ask the CI service for the workflow runs in this state.
    ListRuns { status: String },
    /// Ask the CI service for the jobs of this run.
    ListJobs { run_id: u64 },
    /// Ask the CI service for a fresh registration credential.
    MintCredential,
    /// Have the driver launch a sandbox for this job.
    Launch { job_id: u64, credential: String },
    /// Ask whether shutdown has been requested.
    CheckShutdown,
    /// Sleep for so many seconds, or until shutdown is requested.
    Sleep { seconds: u64 },
    /// The routine is over. Nothing is to be done.
    Finished { result: Result<(), ListenerError> },
}

pub enum ActionView {
    ListSandboxes,
    IsComplete { name: Seq<char> },
    Deregister { name: Seq<char> },
    Destroy { name: Seq<char> },
    CountActive,
    ListRuns { status: Seq<char> },
    ListJobs { run_id: u64 },
    MintCredential,
    Launch { job_id: u64, credential: Seq<char> },
    CheckShutdown,
    Sleep { seconds: u64 },
    Finished { result: Result<(), ListenerErrorView> },
}

impl View for Action {
    type V = ActionView;

    open spec fn view(&self) -> ActionView {
        match self {
            Action::ListSandboxes => ActionView::ListSandboxes,
            Action::IsComplete { name } => ActionView::IsComplete { name: name@ },
            Action::Deregister { name } => ActionView::Deregister { name: name@ },
            Action::Destroy { name } => ActionView::Destroy { name: name@ },
            Action::CountActive => ActionView::CountActive,
            Action::ListRuns { status } => ActionView::ListRuns { status: status@ },
            Action::ListJobs { run_id } => ActionView::ListJobs { run_id: *run_id },
            Action::MintCredential => ActionView::MintCredential,
            Action::Launch { job_id, credential } => ActionView::Launch {
                job_id: *job_id,
                credential: credential@,
            },
            Action::CheckShutdown => ActionView::CheckShutdown,
            Action::Sleep { seconds } => ActionView::Sleep { seconds: *seconds },
            Action::Finished { result } => ActionView::Finished {
                result: match result {
                    Ok(()) => Ok(()),
                    Err(error) => Err(error@),
                },
            },
        }
    }
}

/// What came of an action.
#[derive(Debug, Clone, PartialEq, Eq)]
pub enum Event {
    /// The names of the live sandboxes.
    Sandboxes(Vec<String>),
    /// Whether the runner in the sandbox has exited.
    Complete(bool),
    /// The runner was deleted or was not there; the sandbox was destroyed or
    /// was not there.
    Done,
    /// The number of live sandboxes.
    Count(usize),
    /// The ids of the workflow runs.
    Runs(Vec<u64>),
    /// The jobs of the run.
    Jobs(Vec<Job>),
    /// The registration credential.
    Credential(String),
    /// The name of the sandbox that was launched.
    Launched(String),
    /// Whether shutdown has been requested.
    Shutdown(bool),
    /// The operation failed.
    Failed(Failure),
}

pub enum EventView {
    Sandboxes(Seq<Seq<char>>),
    Complete(bool),
    Done,
    Count(usize),
    Runs(Seq<u64>),
    Jobs(Seq<JobView>),
    Credential(Seq<char>),
    Launched(Seq<char>),
    Shutdown(bool),
    Failed(FailureView),
}

/// The views of a sequence of jobs, one by one.
pub open spec fn job_views(jobs: Seq<Job>) -> Seq<JobView> {
    Seq::new(jobs.len(), |i: int| jobs[i]@)
}

impl View for Event {
    type V = EventView;

    open spec fn view(&self) -> EventView {
        match self {
            Event::Sandboxes(names) => EventView::Sandboxes(texts(names@)),
            Event::Complete(complete) => EventView::Complete(*complete),
            Event::Done => EventView::Done,
            Event::Count(active) => EventView::Count(*active),
            Event::Runs(ids) => EventView::Runs(ids@),
            Event::Jobs(jobs) => EventView::Jobs(job_views(jobs@)),
            Event::Credential(credential) => EventView::Credential(credential@),
            Event::Launched(name) => EventView::Launched(name@),
            Event::Shutdown(requested) => EventView::Shutdown(*requested),
            Event::Failed(failure) => EventView::Failed(failure@),
        }
    }
}

// ---------------------------------------------------------------------------
// The index
// ---------------------------------------------------------------------------

/// An operation on the index of assignments.
#[derive(Debug, Clone, PartialEq, Eq)]
pub enum IndexOp {
    /// Look up the assignment under this name.
    Lookup { name: String },
    /// Put this assignment under this name.
    Record { name: String, state: ContainerState },
    /// Remove the entry under this name.
    Forget { name: String },
    /// Remove every entry whose sandbox is not in the scheduler's inventory.
    Prune,
    /// Remove every entry.
    Clear,
}

pub enum IndexOpView {
    Lookup { name: Seq<char> },
    Record { name: Seq<char>, state: ContainerState },
    Forget { name: Seq<char> },
    Prune,
    Clear,
}

impl View for IndexOp {
    type V = IndexOpView;

    open spec fn view(&self) -> IndexOpView {
        match self {
            IndexOp::Lookup { name } => IndexOpView::Lookup { name: name@ },
            IndexOp::Record { name, state } => IndexOpView::Record { name: name@, state: *state },
            IndexOp::Forget { name } => IndexOpView::Forget { name: name@ },
            IndexOp::Prune => IndexOpView::Prune,
            IndexOp::Clear => IndexOpView::Clear,
        }
    }
}

/// What came of an operation on the index.
#[derive(Debug, Clone, PartialEq, Eq)]
pub enum IndexReply {
    /// What the lookup found.
    Found(Option<ContainerState>),
    /// The index was changed as asked.
    Done,
    /// The index failed.
    Failed(StateError),
}

pub enum IndexReplyView {
    Found(Option<ContainerState>),
    Done,
    Failed(StateErrorView),
}

impl View for IndexReply {
    type V = IndexReplyView;

    open spec fn view(&self) -> IndexReplyView {
        match self {
            IndexReply::Found(found) => IndexReplyView::Found(*found),
            IndexReply::Done => IndexReplyView::Done,
            IndexReply::Failed(error) => IndexReplyView::Failed(state_error_view(*error)),
        }
    }
}

// ---------------------------------------------------------------------------
// Notices
// ---------------------------------------------------------------------------

/// Something that the scheduler decided and that is worth a line in a log.
#[derive(Debug, Clone, PartialEq, Eq)]
pub enum Notice {
    /// The runner in this sandbox has exited. The sandbox is cleaned up.
    Completed { name: String },
    /// At startup the driver could not say whether the runner in this sandbox
    /// has exited. The sandbox is cleaned up.
    CheckFailed { name: String, failure: Failure },
    /// This sandbox has run for longer than a job may. It is cleaned up.
    TimedOut { name: String, running_secs: u64, timeout_secs: u64 },
    /// This sandbox has no assignment in the index. It is cleaned up.
    Orphaned { name: String },
    /// The runner of this sandbox could not be deleted from the CI service.
    /// The cleanup goes on.
    DeregisterFailed { name: String, failure: Failure },
    /// While draining, this sandbox could not be cleaned up. The drain goes on.
    CleanupFailed { name: String, error: ListenerError },
    /// The reap phase of this tick was given up.
    ReapFailed { error: ListenerError },
    /// The dispatch phase of this tick was given up.
    DispatchFailed { error: ListenerError },
    /// A sandbox was launched for this job and its assignment recorded.
    Launched { job_id: u64 },
    /// No sandbox is running for this job after an attempt to launch one.
    LaunchFailed { job_id: u64, error: ListenerError },
}

pub enum NoticeView {
    Completed { name: Seq<char> },
    CheckFailed { name: Seq<char>, failure: FailureView },
    TimedOut { name: Seq<char>, running_secs: u64, timeout_secs: u64 },
    Orphaned { name: Seq<char> },
    DeregisterFailed { name: Seq<char>, failure: FailureView },
    CleanupFailed { name: Seq<char>, error: ListenerErrorView },
    ReapFailed { error: ListenerErrorView },
    DispatchFailed { error: ListenerErrorView },
    Launched { job_id: u64 },
    LaunchFailed { job_id: u64, error: ListenerErrorView },
}

impl View for Notice {
    type V = NoticeView;

    open spec fn view(&self) -> NoticeView {
        match self {
            Notice::Completed { name } => NoticeView::Completed { name: name@ },
            Notice::CheckFailed { name, failure } => NoticeView::CheckFailed {
                name: name@,
                failure: failure@,
            },
            Notice::TimedOut { name, running_secs, timeout_secs } => NoticeView::TimedOut {
                name: name@,
                running_secs: *running_secs,
                timeout_secs: *timeout_secs,
            },
            Notice::Orphaned { name } => NoticeView::Orphaned { name: name@ },
            Notice::DeregisterFailed { name, failure } => NoticeView::DeregisterFailed {
                name: name@,
                failure: failure@,
            },
            Notice::CleanupFailed { name, error } => NoticeView::CleanupFailed {
                name: name@,
                error: error@,
            },
            Notice::ReapFailed { error } => NoticeView::ReapFailed { error: error@ },
            Notice::DispatchFailed { error } => NoticeView::DispatchFailed { error: error@ },
            Notice::Launched { job_id } => NoticeView::Launched { job_id: *job_id },
            Notice::LaunchFailed { job_id, error } => NoticeView::LaunchFailed {
                job_id: *job_id,
                error: error@,
            },
        }
    }
}

/// The view of a notice that may be there.
pub open spec fn notice_view(notice: Option<Notice>) -> Option<NoticeView> {
    match notice {
        Some(notice) => Some(notice@),
        None => None,
    }
}

// ---------------------------------------------------------------------------
// One step
// ---------------------------------------------------------------------------

/// What the scheduler is resumed with.
#[derive(Debug, Clone, PartialEq, Eq)]
pub enum Input {
    Outside(Event),
    Index(IndexReply),
}

pub enum InputView {
    Outside(EventView),
    Index(IndexReplyView),
}

impl View for Input {
    type V = InputView;

    open spec fn view(&self) -> InputView {
        match self {
            Input::Outside(event) => InputView::Outside(event@),
            Input::Index(reply) => InputView::Index(reply@),
        }
    }
}

/// What the scheduler wants next.
#[derive(Debug, PartialEq, Eq)]
pub enum Request {
    Outside(Action),
    Index(IndexOp),
}

pub enum RequestView {
    Outside(ActionView),
    Index(IndexOpView),
}

impl View for Request {
    type V = RequestView;

    open spec fn view(&self) -> RequestView {
        match self {
            Request::Outside(action) => RequestView::Outside(action@),
            Request::Index(op) => RequestView::Index(op@),
        }
    }
}

/// One step of the scheduler: what it wants next, and what it has to say.
#[derive(Debug, PartialEq, Eq)]
pub struct Step {
    pub request: Request,
    pub notice: Option<Notice>,
}

pub struct StepView {
    pub request: RequestView,
    pub notice: Option<NoticeView>,
}

impl View for Step {
    type V = StepView;

    open spec fn view(&self) -> StepView {
        StepView { request: self.request@, notice: notice_view(self.notice) }
    }
}

/// The views of a sequence of notices, one by one.
pub open spec fn notice_views(notices: Seq<Notice>) -> Seq<NoticeView> {
    Seq::new(notices.len(), |i: int| notices[i]@)
}

/// What the scheduler hands to the process around it: the operation that it
/// wants done, and what it has to say.
#[derive(Debug, PartialEq, Eq)]
pub struct Directive {
    pub action: Action,
    pub notices: Vec<Notice>,
}

pub struct DirectiveView {
    pub action: ActionView,
    pub notices: Seq<NoticeView>,
}

impl View for Directive {
    type V = DirectiveView;

    open spec fn view(&self) -> DirectiveView {
        DirectiveView { action: self.action@, notices: notice_views(self.notices@) }
    }
}

} // verus!
