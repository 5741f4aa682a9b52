//! The reconciling scheduler.
//!
//! [`JobListener`] decides and never waits. One of `reconcile_on_startup`,
//! `run` and `shutdown` begins a routine and names the first operation to be
//! done; `resume` is told what came of it and names the next, until the
//! routine is `Finished`. What the scheduler needs of the index of
//! assignments it does itself, between two operations.

use crate::config::Config;
use crate::container::job_id_to_container_name;
use crate::github::types::Job;
use crate::protocol::{
    job_views, notice_views, Action, Directive, Event, Failure, IndexOp, IndexReply,
    IndexReplyView, Input, InputView, ListenerError, Notice, NoticeView, Request, RequestView,
    Step,
};
use crate::schedule;
use crate::schedule::{labels_subset, Course, ListenerModel, Routine, Settled, Stage};
use crate::state::{lemma_record_round_trip, unix_now, ContainerState, StateDb, StateError};
use crate::text::{has_text, texts};
use vstd::prelude::*;

verus! {

pub struct JobListener {
    config: Config,
    routine: Routine,
    looping: bool,
    stage: Stage,
    live: Vec<String>,
    cursor: usize,
    status_cursor: usize,
    runs: Vec<u64>,
    run_cursor: usize,
    jobs: Vec<Job>,
    job_cursor: usize,
    counted: usize,
}

impl View for JobListener {
    type V = ListenerModel;

    closed spec fn view(&self) -> ListenerModel {
        ListenerModel {
            max_concurrent: self.config.max_concurrent_jobs,
            job_timeout: self.config.job_timeout_secs,
            poll_interval: self.config.poll_interval_secs,
            labels: texts(self.config.runner_labels@),
            routine: self.routine,
            looping: self.looping,
            stage: self.stage,
            live: texts(self.live@),
            cursor: self.cursor as int,
            status_cursor: self.status_cursor as int,
            runs: self.runs@,
            run_cursor: self.run_cursor as int,
            jobs: job_views(self.jobs@),
            job_cursor: self.job_cursor as int,
            counted: self.counted,
        }
    }
}

/// The same step with something to say.
fn noting(step: Step, notice: Notice) -> (noted: Step)
    ensures
        noted@.request == step@.request,
        noted@.notice == Some(notice@),
{
    Step { request: step.request, notice: Some(notice) }
}

/// The failure that an event tells of.
fn outside_failure(input: Input) -> (failure: Failure)
    ensures
        failure@ == schedule::outside_failure(input@),
{
    match input {
        Input::Outside(Event::Failed(failure)) => failure,
        _ => Failure { fatal: false, message: String::from_str("unexpected event") },
    }
}

/// The error that an input tells of.
fn failure_of(input: Input) -> (error: ListenerError)
    ensures
        error@ == schedule::failure_of(input@),
{
    match input {
        Input::Index(IndexReply::Failed(error)) => ListenerError::Index(error),
        other => ListenerError::Outside(outside_failure(other)),
    }
}

/// Whether the controller cannot go on after this error.
fn is_fatal_error(error: &ListenerError) -> (fatal: bool)
    ensures
        fatal == schedule::is_fatal_error(error@),
{
    match error {
        ListenerError::Outside(failure) => failure.fatal,
        ListenerError::Index(StateError::Corrupt(_)) => true,
        ListenerError::Index(StateError::Storage(_)) => false,
    }
}

/// Whether the input tells that the controller cannot go on.
fn is_fatal(input: &Input) -> (fatal: bool)
    ensures
        fatal == schedule::is_fatal(input@),
{
    match input {
        Input::Outside(Event::Failed(failure)) => failure.fatal,
        Input::Index(IndexReply::Failed(StateError::Corrupt(_))) => true,
        _ => false,
    }
}

/// The state of a workflow run that is asked for in the place `i`.
fn run_status(i: usize) -> (status: String)
    ensures
        status@ == schedule::run_status(i as int),
{
    if i == 0 {
        String::from_str("queued")
    } else if i == 1 {
        String::from_str("waiting")
    } else if i == 2 {
        String::from_str("pending")
    } else {
        String::from_str("in_progress")
    }
}

impl JobListener {
    /// A scheduler at rest with these settings.
    pub fn new(config: Config) -> (listener: Self)
        ensures
            listener@ == ListenerModel::idle(
                config.max_concurrent_jobs,
                config.job_timeout_secs,
                config.poll_interval_secs,
                texts(config.runner_labels@),
            ),
            listener@.wf(),
    {
        let listener = JobListener {
            config,
            routine: Routine::Idle,
            looping: false,
            stage: Stage::Idle,
            live: Vec::new(),
            cursor: 0,
            status_cursor: 0,
            runs: Vec::new(),
            run_cursor: 0,
            jobs: Vec::new(),
            job_cursor: 0,
            counted: 0,
        };
        assert(listener@.live =~= Seq::empty());
        assert(listener@.jobs =~= Seq::empty());
        listener
    }

    /// Check if job labels are a subset of runner labels
    pub fn labels_match(job_labels: &Vec<String>, runner_labels: &Vec<String>) -> (matches: bool)
        ensures
            matches == labels_subset(texts(job_labels@), texts(runner_labels@)),
    {
        let mut i: usize = 0;
        while i < job_labels.len()
            invariant
                i <= job_labels.len(),
                forall|k: int|
                    0 <= k < i ==> texts(runner_labels@).contains(#[trigger] texts(job_labels@)[k]),
            decreases job_labels.len() - i,
        {
            if !has_text(runner_labels, job_labels[i].as_str()) {
                assert(!texts(runner_labels@).contains(texts(job_labels@)[i as int]));
                return false;
            }
            i += 1;
        }
        true
    }

    // -----------------------------------------------------------------------
    // The pieces of a step
    // -----------------------------------------------------------------------

    fn ask(&mut self, stage: Stage, action: Action) -> (step: Step)
        ensures
            (final(self)@, step@) == schedule::ask(old(self)@, stage, action@),
    {
        self.stage = stage;
        Step { request: Request::Outside(action), notice: None }
    }

    fn ask_index(&mut self, stage: Stage, op: IndexOp) -> (step: Step)
        ensures
            (final(self)@, step@) == schedule::ask_index(old(self)@, stage, op@),
    {
        self.stage = stage;
        Step { request: Request::Index(op), notice: None }
    }

    fn stop(&mut self, result: Result<(), ListenerError>) -> (step: Step)
        ensures
            (final(self)@, step@) == schedule::stop(
                old(self)@,
                match result {
                    Ok(()) => Ok(()),
                    Err(error) => Err(error@),
                },
            ),
    {
        self.routine = Routine::Idle;
        self.looping = false;
        self.ask(Stage::Idle, Action::Finished { result })
    }

    fn begin_dispatch(&mut self) -> (step: Step)
        ensures
            (final(self)@, step@) == schedule::begin_dispatch(old(self)@),
    {
        self.routine = Routine::Dispatch;
        self.ask(Stage::Capacity, Action::CountActive)
    }

    fn pause(&mut self) -> (step: Step)
        ensures
            (final(self)@, step@) == schedule::pause(old(self)@),
    {
        let seconds = self.config.poll_interval_secs;
        self.ask(Stage::Sleeping, Action::Sleep { seconds })
    }

    fn finish(&mut self) -> (step: Step)
        ensures
            (final(self)@, step@) == schedule::finish(old(self)@),
    {
        if !self.looping {
            self.stop(Ok(()))
        } else {
            match self.routine {
                Routine::Reconcile => self.ask(Stage::ShutdownCheck, Action::CheckShutdown),
                Routine::Reap => self.begin_dispatch(),
                Routine::Dispatch => self.pause(),
                _ => self.stop(Ok(())),
            }
        }
    }

    fn fail(&mut self, error: ListenerError) -> (step: Step)
        ensures
            (final(self)@, step@) == schedule::fail(old(self)@, error@),
    {
        if is_fatal_error(&error) {
            return self.stop(Err(error));
        }
        if self.looping {
            match self.routine {
                Routine::Reap => {
                    let step = self.begin_dispatch();
                    return noting(step, Notice::ReapFailed { error });
                },
                Routine::Dispatch => {
                    let step = self.pause();
                    return noting(step, Notice::DispatchFailed { error });
                },
                _ => {},
            }
        }
        self.stop(Err(error))
    }

    /// The name of the sandbox at hand.
    fn name(&self) -> (name: String)
        requires
            self.cursor < self.live.len(),
        ensures
            name@ == self@.name(),
    {
        self.live[self.cursor].clone()
    }

    fn visit(&mut self) -> (step: Step)
        ensures
            (final(self)@, step@) == schedule::visit(old(self)@),
    {
        if self.cursor < self.live.len() {
            let name = self.name();
            match self.routine {
                Routine::Drain => self.ask(Stage::Deregistering, Action::Deregister { name }),
                _ => self.ask(Stage::Completion, Action::IsComplete { name }),
            }
        } else {
            match self.routine {
                Routine::Drain => self.ask_index(Stage::Clearing, IndexOp::Clear),
                _ => self.ask_index(Stage::Pruning, IndexOp::Prune),
            }
        }
    }

    fn advance(&mut self) -> (step: Step)
        requires
            old(self).cursor < old(self).live.len(),
        ensures
            (final(self)@, step@) == schedule::advance(old(self)@),
    {
        self.cursor = self.cursor + 1;
        self.visit()
    }

    fn cleanup(&mut self) -> (step: Step)
        requires
            old(self).cursor < old(self).live.len(),
        ensures
            (final(self)@, step@) == schedule::cleanup(old(self)@),
    {
        let name = self.name();
        self.ask(Stage::Deregistering, Action::Deregister { name })
    }

    fn cleanup_failed(&mut self, error: ListenerError) -> (step: Step)
        requires
            old(self).cursor < old(self).live.len(),
        ensures
            (final(self)@, step@) == schedule::cleanup_failed(old(self)@, error@),
    {
        match self.routine {
            Routine::Drain => {
                let name = self.name();
                let step = self.advance();
                noting(step, Notice::CleanupFailed { name, error })
            },
            _ => self.fail(error),
        }
    }

    fn next_status(&mut self) -> (step: Step)
        ensures
            (final(self)@, step@) == schedule::next_status(old(self)@),
    {
        if self.status_cursor < 4 {
            let status = run_status(self.status_cursor);
            self.ask(Stage::Runs, Action::ListRuns { status })
        } else {
            self.ask(Stage::Existing, Action::ListSandboxes)
        }
    }

    fn next_run(&mut self) -> (step: Step)
        requires
            old(self).status_cursor < 4,
        ensures
            (final(self)@, step@) == schedule::next_run(old(self)@),
    {
        if self.run_cursor < self.runs.len() {
            let run_id = self.runs[self.run_cursor];
            self.ask(Stage::Jobs, Action::ListJobs { run_id })
        } else {
            self.status_cursor = self.status_cursor + 1;
            self.next_status()
        }
    }

    fn next_job(&mut self) -> (step: Step)
        ensures
            (final(self)@, step@) == schedule::next_job(old(self)@),
    {
        if self.job_cursor < self.jobs.len() {
            self.ask(Stage::Slot, Action::CountActive)
        } else {
            self.finish()
        }
    }

    fn skip_job(&mut self) -> (step: Step)
        requires
            old(self).job_cursor < old(self).jobs.len(),
        ensures
            (final(self)@, step@) == schedule::skip_job(old(self)@),
    {
        self.job_cursor = self.job_cursor + 1;
        self.next_job()
    }

    /// Whether a sandbox is to be launched for the job at hand.
    fn eligible(&self) -> (eligible: bool)
        requires
            self.job_cursor < self.jobs.len(),
        ensures
            eligible == self@.eligible(self@.job()),
    {
        let job = &self.jobs[self.job_cursor];
        if job.has_runner() {
            return false;
        }
        if !job.is_waiting() {
            return false;
        }
        if !Self::labels_match(&job.labels, &self.config.runner_labels) {
            return false;
        }
        let name = job_id_to_container_name(job.id);
        !has_text(&self.live, name.as_str())
    }

    // -----------------------------------------------------------------------
    // What each stage does with what it is told
    // -----------------------------------------------------------------------

    fn on_inventory(&mut self, input: Input, now: u64) -> (step: Step)
        requires
            old(self)@.wf(),
            old(self)@.stage == Stage::Inventory,
        ensures
            (final(self)@, step@) == schedule::next(old(self)@, input@, now),
    {
        match input {
            Input::Outside(Event::Sandboxes(names)) => {
                self.live = names;
                self.cursor = 0;
                self.visit()
            },
            other => self.fail(failure_of(other)),
        }
    }

    fn on_completion(&mut self, input: Input, now: u64) -> (step: Step)
        requires
            old(self)@.wf(),
            old(self)@.stage == Stage::Completion,
        ensures
            (final(self)@, step@) == schedule::next(old(self)@, input@, now),
    {
        match input {
            Input::Outside(Event::Complete(true)) => {
                let name = self.name();
                let step = self.cleanup();
                noting(step, Notice::Completed { name })
            },
            Input::Outside(Event::Complete(false)) => match self.routine {
                Routine::Reap => {
                    let name = self.name();
                    self.ask_index(Stage::Assignment, IndexOp::Lookup { name })
                },
                _ => self.advance(),
            },
            other => match self.routine {
                Routine::Reap => self.fail(failure_of(other)),
                _ => {
                    let name = self.name();
                    let step = self.cleanup();
                    noting(step, Notice::CheckFailed { name, failure: outside_failure(other) })
                },
            },
        }
    }

    fn on_assignment(&mut self, input: Input, now: u64) -> (step: Step)
        requires
            old(self)@.wf(),
            old(self)@.stage == Stage::Assignment,
        ensures
            (final(self)@, step@) == schedule::next(old(self)@, input@, now),
    {
        match input {
            Input::Index(IndexReply::Found(Some(state))) => {
                let running_secs = state.running_seconds_at(now);
                let timeout_secs = self.config.job_timeout_secs;
                if running_secs > timeout_secs {
                    let name = self.name();
                    let step = self.cleanup();
                    noting(step, Notice::TimedOut { name, running_secs, timeout_secs })
                } else {
                    self.advance()
                }
            },
            Input::Index(IndexReply::Found(None)) => {
                let name = self.name();
                let step = self.cleanup();
                noting(step, Notice::Orphaned { name })
            },
            other => self.fail(failure_of(other)),
        }
    }

    fn on_deregistering(&mut self, input: Input, now: u64) -> (step: Step)
        requires
            old(self)@.wf(),
            old(self)@.stage == Stage::Deregistering,
        ensures
            (final(self)@, step@) == schedule::next(old(self)@, input@, now),
    {
        let name = self.name();
        match input {
            Input::Outside(Event::Done) => self.ask(Stage::Destroying, Action::Destroy { name }),
            other => {
                let step = self.ask(Stage::Destroying, Action::Destroy { name });
                let name = self.name();
                noting(step, Notice::DeregisterFailed { name, failure: outside_failure(other) })
            },
        }
    }

    fn on_destroying(&mut self, input: Input, now: u64) -> (step: Step)
        requires
            old(self)@.wf(),
            old(self)@.stage == Stage::Destroying,
        ensures
            (final(self)@, step@) == schedule::next(old(self)@, input@, now),
    {
        match input {
            Input::Outside(Event::Done) => {
                let name = self.name();
                self.ask_index(Stage::Forgetting, IndexOp::Forget { name })
            },
            other => self.cleanup_failed(failure_of(other)),
        }
    }

    fn on_forgetting(&mut self, input: Input, now: u64) -> (step: Step)
        requires
            old(self)@.wf(),
            old(self)@.stage == Stage::Forgetting,
        ensures
            (final(self)@, step@) == schedule::next(old(self)@, input@, now),
    {
        match input {
            Input::Index(IndexReply::Done) => self.advance(),
            other => self.cleanup_failed(failure_of(other)),
        }
    }

    fn on_swept(&mut self, input: Input, now: u64) -> (step: Step)
        requires
            old(self)@.wf(),
            old(self)@.stage == Stage::Pruning || old(self)@.stage == Stage::Clearing,
        ensures
            (final(self)@, step@) == schedule::next(old(self)@, input@, now),
    {
        match input {
            Input::Index(IndexReply::Done) => self.finish(),
            other => self.fail(failure_of(other)),
        }
    }

    fn on_capacity(&mut self, input: Input, now: u64) -> (step: Step)
        requires
            old(self)@.wf(),
            old(self)@.stage == Stage::Capacity,
        ensures
            (final(self)@, step@) == schedule::next(old(self)@, input@, now),
    {
        match input {
            Input::Outside(Event::Count(active)) => {
                self.counted = active;
                if active >= self.config.max_concurrent_jobs {
                    self.finish()
                } else {
                    self.status_cursor = 0;
                    self.runs = Vec::new();
                    self.run_cursor = 0;
                    self.jobs = Vec::new();
                    self.job_cursor = 0;
                    assert(self@.jobs =~= Seq::empty());
                    self.next_status()
                }
            },
            other => self.fail(failure_of(other)),
        }
    }

    fn on_runs(&mut self, input: Input, now: u64) -> (step: Step)
        requires
            old(self)@.wf(),
            old(self)@.stage == Stage::Runs,
        ensures
            (final(self)@, step@) == schedule::next(old(self)@, input@, now),
    {
        match input {
            Input::Outside(Event::Runs(ids)) => {
                self.runs = ids;
                self.run_cursor = 0;
                self.next_run()
            },
            other => {
                if is_fatal(&other) {
                    self.stop(Err(failure_of(other)))
                } else {
                    self.status_cursor = self.status_cursor + 1;
                    self.next_status()
                }
            },
        }
    }

    fn on_jobs(&mut self, input: Input, now: u64) -> (step: Step)
        requires
            old(self)@.wf(),
            old(self)@.stage == Stage::Jobs,
        ensures
            (final(self)@, step@) == schedule::next(old(self)@, input@, now),
    {
        assert(self.run_cursor < self.runs.len());
        match input {
            Input::Outside(Event::Jobs(jobs)) => {
                let mut jobs = jobs;
                let ghost added = job_views(jobs@);
                self.jobs.append(&mut jobs);
                assert(self@.jobs =~= old(self)@.jobs + added);
                self.run_cursor = self.run_cursor + 1;
                self.next_run()
            },
            other => {
                if is_fatal(&other) {
                    self.stop(Err(failure_of(other)))
                } else {
                    self.run_cursor = self.run_cursor + 1;
                    self.next_run()
                }
            },
        }
    }

    fn on_existing(&mut self, input: Input, now: u64) -> (step: Step)
        requires
            old(self)@.wf(),
            old(self)@.stage == Stage::Existing,
        ensures
            (final(self)@, step@) == schedule::next(old(self)@, input@, now),
    {
        match input {
            Input::Outside(Event::Sandboxes(names)) => {
                self.live = names;
                self.cursor = 0;
                self.job_cursor = 0;
                self.next_job()
            },
            other => self.fail(failure_of(other)),
        }
    }

    fn on_slot(&mut self, input: Input, now: u64) -> (step: Step)
        requires
            old(self)@.wf(),
            old(self)@.stage == Stage::Slot,
        ensures
            (final(self)@, step@) == schedule::next(old(self)@, input@, now),
    {
        match input {
            Input::Outside(Event::Count(active)) => {
                self.counted = active;
                if active >= self.config.max_concurrent_jobs {
                    self.finish()
                } else if self.eligible() {
                    let name = job_id_to_container_name(self.jobs[self.job_cursor].id);
                    self.ask_index(Stage::Claim, IndexOp::Lookup { name })
                } else {
                    self.skip_job()
                }
            },
            other => self.fail(failure_of(other)),
        }
    }

    fn on_claim(&mut self, input: Input, now: u64) -> (step: Step)
        requires
            old(self)@.wf(),
            old(self)@.stage == Stage::Claim,
        ensures
            (final(self)@, step@) == schedule::next(old(self)@, input@, now),
    {
        match input {
            Input::Index(IndexReply::Found(None)) => self.ask(
                Stage::Credential,
                Action::MintCredential,
            ),
            Input::Index(IndexReply::Found(Some(_))) => self.skip_job(),
            other => self.fail(failure_of(other)),
        }
    }

    fn on_credential(&mut self, input: Input, now: u64) -> (step: Step)
        requires
            old(self)@.wf(),
            old(self)@.stage == Stage::Credential,
        ensures
            (final(self)@, step@) == schedule::next(old(self)@, input@, now),
    {
        let job_id = self.jobs[self.job_cursor].id;
        match input {
            Input::Outside(Event::Credential(credential)) => self.ask(
                Stage::Launching,
                Action::Launch { job_id, credential },
            ),
            other => {
                if is_fatal(&other) {
                    self.stop(Err(failure_of(other)))
                } else {
                    let step = self.skip_job();
                    noting(step, Notice::LaunchFailed { job_id, error: failure_of(other) })
                }
            },
        }
    }

    fn on_launching(&mut self, input: Input, now: u64) -> (step: Step)
        requires
            old(self)@.wf(),
            old(self)@.stage == Stage::Launching,
        ensures
            (final(self)@, step@) == schedule::next(old(self)@, input@, now),
    {
        let job_id = self.jobs[self.job_cursor].id;
        match input {
            Input::Outside(Event::Launched(name)) => self.ask_index(
                Stage::Recording,
                IndexOp::Record { name, state: ContainerState::at(job_id, now) },
            ),
            other => {
                let step = self.skip_job();
                noting(step, Notice::LaunchFailed { job_id, error: failure_of(other) })
            },
        }
    }

    fn on_recording(&mut self, input: Input, now: u64) -> (step: Step)
        requires
            old(self)@.wf(),
            old(self)@.stage == Stage::Recording,
        ensures
            (final(self)@, step@) == schedule::next(old(self)@, input@, now),
    {
        let job_id = self.jobs[self.job_cursor].id;
        match input {
            Input::Index(IndexReply::Done) => {
                let step = self.skip_job();
                noting(step, Notice::Launched { job_id })
            },
            other => {
                let step = self.skip_job();
                noting(step, Notice::LaunchFailed { job_id, error: failure_of(other) })
            },
        }
    }

    fn on_shutdown_check(&mut self, input: Input, now: u64) -> (step: Step)
        requires
            old(self)@.wf(),
            old(self)@.stage == Stage::ShutdownCheck,
        ensures
            (final(self)@, step@) == schedule::next(old(self)@, input@, now),
    {
        match input {
            Input::Outside(Event::Shutdown(false)) => {
                self.routine = Routine::Reap;
                self.ask(Stage::Inventory, Action::ListSandboxes)
            },
            _ => self.stop(Ok(())),
        }
    }

    fn on_sleeping(&mut self, input: Input, now: u64) -> (step: Step)
        requires
            old(self)@.wf(),
            old(self)@.stage == Stage::Sleeping,
        ensures
            (final(self)@, step@) == schedule::next(old(self)@, input@, now),
    {
        match input {
            Input::Outside(Event::Shutdown(false)) => self.ask(
                Stage::ShutdownCheck,
                Action::CheckShutdown,
            ),
            _ => self.stop(Ok(())),
        }
    }

    /// One step: what the scheduler does when it is told `input` at the time
    /// `now`, in seconds since the Unix epoch.
    pub fn step(&mut self, input: Input, now: u64) -> (step: Step)
        requires
            old(self)@.wf(),
        ensures
            (final(self)@, step@) == schedule::next(old(self)@, input@, now),
            final(self)@.wf(),
    {
        proof {
            schedule::lemma_next_wf(self@, input@, now);
        }
        match self.stage {
            Stage::Idle => self.stop(Ok(())),
            Stage::Inventory => self.on_inventory(input, now),
            Stage::Completion => self.on_completion(input, now),
            Stage::Assignment => self.on_assignment(input, now),
            Stage::Deregistering => self.on_deregistering(input, now),
            Stage::Destroying => self.on_destroying(input, now),
            Stage::Forgetting => self.on_forgetting(input, now),
            Stage::Pruning => self.on_swept(input, now),
            Stage::Clearing => self.on_swept(input, now),
            Stage::Capacity => self.on_capacity(input, now),
            Stage::Runs => self.on_runs(input, now),
            Stage::Jobs => self.on_jobs(input, now),
            Stage::Existing => self.on_existing(input, now),
            Stage::Slot => self.on_slot(input, now),
            Stage::Claim => self.on_claim(input, now),
            Stage::Credential => self.on_credential(input, now),
            Stage::Launching => self.on_launching(input, now),
            Stage::Recording => self.on_recording(input, now),
            Stage::ShutdownCheck => self.on_shutdown_check(input, now),
            Stage::Sleeping => self.on_sleeping(input, now),
        }
    }

    // -----------------------------------------------------------------------
    // The scheduler and the index together
    // -----------------------------------------------------------------------

    /// Does what the scheduler asks of the index, and tells what came of it.
    /// The stale entries are those of sandboxes that are not in the
    /// scheduler's inventory.
    fn perform(&self, index: &mut StateDb, op: IndexOp) -> (reply: IndexReply)
        ensures
            schedule::performs(old(index)@, op@, self@.live, reply@, final(index)@),
            final(index).location() == old(index).location(),
    {
        match op {
            IndexOp::Lookup { name } => match index.get_container(name.as_str()) {
                Ok(found) => {
                    proof {
                        if let Some(state) = found {
                            lemma_record_round_trip(state);
                        }
                    }
                    IndexReply::Found(found)
                },
                Err(error) => IndexReply::Failed(error),
            },
            IndexOp::Record { name, state } => match index.put_container(name.as_str(), &state) {
                Ok(()) => IndexReply::Done,
                Err(error) => IndexReply::Failed(error),
            },
            IndexOp::Forget { name } => match index.remove_container(name.as_str()) {
                Ok(()) => IndexReply::Done,
                Err(error) => IndexReply::Failed(error),
            },
            IndexOp::Prune => match index.remove_stale(&self.live) {
                Ok(()) => IndexReply::Done,
                Err(error) => IndexReply::Failed(error),
            },
            IndexOp::Clear => match index.clear_all() {
                Ok(()) => IndexReply::Done,
                Err(error) => IndexReply::Failed(error),
            },
        }
    }

    /// Resumes the scheduler with what came of the operation that it asked
    /// for last, at the time `now` in seconds since the Unix epoch, and gives
    /// the operation that it asks for next. What it needs of `index` on the
    /// way it does itself.
    ///
    /// The scheduler ends where the course of its steps leads with the answers
    /// that the index gave. Unless the directive tells of a failure of the
    /// index, these are the answers of an index that does not fail, and the
    /// scheduler and the index end where `settled` says.
    pub fn resume_at(&mut self, index: &mut StateDb, event: Event, now: u64) -> (directive:
        Directive)
        requires
            old(self)@.wf(),
        ensures
            final(self)@.wf(),
            final(index).location() == old(index).location(),
            exists|replies: Seq<IndexReplyView>| #[trigger]
                schedule::course(old(self)@, event@, now, replies) == (Course {
                    model: final(self)@,
                    request: RequestView::Outside(directive.action@),
                    notices: directive@.notices,
                }),
            !schedule::directive_reports(directive@) ==> schedule::settled(
                old(self)@,
                event@,
                old(index)@,
                now,
            ) == (Settled {
                model: final(self)@,
                request: RequestView::Outside(directive.action@),
                notices: directive@.notices,
                index: final(index)@,
            }),
    {
        let ghost target = schedule::settled(self@, event@, index@, now);
        let ghost told = event@;
        let ghost mut fuel: nat = 2;
        let ghost mut failed = false;
        let ghost mut answered: Seq<IndexReplyView> = Seq::empty();
        proof {
            schedule::lemma_index_budget(self@, Input::Outside(event)@, now);
        }
        let mut notices: Vec<Notice> = Vec::new();
        let mut step = self.step(Input::Outside(event), now);
        assert(notice_views(notices@) =~= Seq::empty());
        assert(Seq::<NoticeView>::empty() + schedule::said(step@) =~= schedule::said(step@));
        assert(schedule::after(Seq::empty(), schedule::settle(self@, step@, index@, now, fuel))
            == schedule::settle(self@, step@, index@, now, fuel)) by {
            let there = schedule::settle(self@, step@, index@, now, fuel);
            assert(Seq::<NoticeView>::empty() + there.notices =~= there.notices);
        }
        loop
            invariant
                target == schedule::settled(old(self)@, told, old(index)@, now),
                told == event@,
                index.location() == old(index).location(),
                schedule::course(old(self)@, told, now, answered) == (Course {
                    model: self@,
                    request: step@.request,
                    notices: notice_views(notices@) + schedule::said(step@),
                }),
                self@.wf(),
                (step@.request is Index) == schedule::awaits_index(self@.stage),
                schedule::index_budget(self@.stage) <= fuel,
                failed ==> schedule::step_reports(step@) || exists|i: int|
                    0 <= i < notices.len() && schedule::notice_reports(
                        #[trigger] notice_views(notices@)[i],
                    ),
                !failed ==> target == schedule::after(
                    notice_views(notices@),
                    schedule::settle(self@, step@, index@, now, fuel),
                ),
            decreases fuel,
        {
            let ghost before = notice_views(notices@);
            let ghost this = step@;
            let ghost here = self@;
            let ghost held = index@;
            let Step { request, notice } = step;
            match notice {
                Some(notice) => {
                    notices.push(notice);
                },
                None => {},
            }
            assert(notice_views(notices@) =~= before + schedule::said(this));
            proof {
                if exists|i: int|
                    0 <= i < before.len() && schedule::notice_reports(#[trigger] before[i]) {
                    let i = choose|i: int|
                        0 <= i < before.len() && schedule::notice_reports(#[trigger] before[i]);
                    assert(notice_views(notices@)[i] == before[i]);
                }
                if this.notice is Some {
                    assert(notice_views(notices@)[before.len() as int] == this.notice->Some_0);
                }
            }
            match request {
                Request::Outside(action) => {
                    let directive = Directive { action, notices };
                    proof {
                        if !failed {
                            let there = schedule::settle(here, this, held, now, fuel);
                            assert(before + there.notices =~= notice_views(notices@));
                            assert(target == (Settled {
                                model: self@,
                                request: RequestView::Outside(directive.action@),
                                notices: directive@.notices,
                                index: index@,
                            }));
                        } else {
                            assert(schedule::directive_reports(directive@));
                        }
                        assert(schedule::course(old(self)@, event@, now, answered) == (Course {
                            model: self@,
                            request: RequestView::Outside(directive.action@),
                            notices: directive@.notices,
                        }));
                    }
                    return directive;
                },
                Request::Index(op) => {
                    let reply = self.perform(index, op);
                    proof {
                        let first = schedule::next(old(self)@, InputView::Outside(told), now);
                        schedule::lemma_follow_further(first.0, first.1, now, answered, reply@);
                        answered = answered.push(reply@);
                        schedule::lemma_index_budget(here, Input::Index(reply)@, now);
                        if reply@ is Failed {
                            failed = true;
                            schedule::lemma_failure_reported(here, reply@->Failed_0, now);
                        }
                    }
                    step = self.step(Input::Index(reply), now);
                    proof {
                        if !failed {
                            let rest = schedule::settle(self@, step@, index@, now, (fuel - 1) as nat);
                            assert(schedule::settle(here, this, held, now, fuel) == schedule::after(
                                schedule::said(this),
                                rest,
                            ));
                            assert(before + (schedule::said(this) + rest.notices) =~= (before
                                + schedule::said(this)) + rest.notices);
                        }
                        fuel = (fuel - 1) as nat;
                    }
                },
            }
        }
    }

    /// Resumes the scheduler with what came of the operation that it asked
    /// for last, at the time that the system clock shows.
    pub fn resume(&mut self, index: &mut StateDb, event: Event) -> (directive: Directive)
        requires
            old(self)@.wf(),
        ensures
            final(self)@.wf(),
            final(index).location() == old(index).location(),
            exists|now: u64, replies: Seq<IndexReplyView>| #[trigger]
                schedule::course(old(self)@, event@, now, replies) == (Course {
                    model: final(self)@,
                    request: RequestView::Outside(directive.action@),
                    notices: directive@.notices,
                }),
            !schedule::directive_reports(directive@) ==> exists|now: u64|
                schedule::settled(old(self)@, event@, old(index)@, now) == (Settled {
                    model: final(self)@,
                    request: RequestView::Outside(directive.action@),
                    notices: directive@.notices,
                    index: final(index)@,
                }),
    {
        self.resume_at(index, event, unix_now())
    }

    // -----------------------------------------------------------------------
    // The routines
    // -----------------------------------------------------------------------

    /// Reconcile state on startup - clean up stale containers
    ///
    /// Begins startup reconcile, whatever the scheduler was busy with.
    pub fn reconcile_on_startup(&mut self) -> (action: Action)
        ensures
            final(self)@ == schedule::begin_reconcile(old(self)@, false).0,
            RequestView::Outside(action@) == schedule::begin_reconcile(old(self)@, false).1.request,
            old(self)@.wf() ==> final(self)@.wf(),
    {
        self.routine = Routine::Reconcile;
        self.looping = false;
        self.stage = Stage::Inventory;
        Action::ListSandboxes
    }

    /// Main run loop
    ///
    /// Begins a run, whatever the scheduler was busy with: startup reconcile,
    /// then ticks until shutdown is requested.
    pub fn run(&mut self) -> (action: Action)
        ensures
            final(self)@ == schedule::begin_reconcile(old(self)@, true).0,
            RequestView::Outside(action@) == schedule::begin_reconcile(old(self)@, true).1.request,
            old(self)@.wf() ==> final(self)@.wf(),
    {
        self.routine = Routine::Reconcile;
        self.looping = true;
        self.stage = Stage::Inventory;
        Action::ListSandboxes
    }

    /// Graceful shutdown - kill all containers
    ///
    /// Begins the drain, whatever the scheduler was busy with.
    pub fn shutdown(&mut self) -> (action: Action)
        ensures
            final(self)@ == schedule::begin_drain(old(self)@).0,
            RequestView::Outside(action@) == schedule::begin_drain(old(self)@).1.request,
            old(self)@.wf() ==> final(self)@.wf(),
    {
        self.routine = Routine::Drain;
        self.looping = false;
        self.stage = Stage::Inventory;
        Action::ListSandboxes
    }
}

} // verus!
