//! The scheduler's decisions as mathematics: where it stands, and the function
//! from where it stands and what it is told to where it stands next and what
//! it wants done.
//!
//! A routine is one of startup reconcile, the reap phase of a tick, the
//! dispatch phase of a tick, and the drain. A run is startup reconcile followed
//! by ticks until shutdown is requested.

use crate::container::container_name;
use crate::github::types::JobView;
use crate::protocol::{
    ActionView, DirectiveView, EventView, FailureView, IndexOpView, IndexReplyView, InputView,
    ListenerErrorView, NoticeView, RequestView, StateErrorView, StepView,
};
use crate::state::{elapsed, empty_index, found_in, is_corrupt, record_bytes, ContainerState};
use vstd::prelude::*;

verus! {

/// What the scheduler is busy with.
#[derive(Debug, Clone, Copy, PartialEq, Eq, Structural)]
pub enum Routine {
    Idle,
    /// Startup reconcile.
    Reconcile,
    /// The first phase of a tick.
    Reap,
    /// The second phase of a tick.
    Dispatch,
    /// The cleanup of everything at shutdown.
    Drain,
}

/// What the scheduler waits for.
#[derive(Debug, Clone, Copy, PartialEq, Eq, Structural)]
pub enum Stage {
    Idle,
    /// The inventory of live sandboxes, to walk through it.
    Inventory,
    /// Whether the runner of the sandbox at hand has exited.
    Completion,
    /// The assignment of the sandbox at hand, from the index.
    Assignment,
    /// The deletion of the runner of the sandbox at hand.
    Deregistering,
    /// The destruction of the sandbox at hand.
    Destroying,
    /// The removal of the entry of the sandbox at hand from the index.
    Forgetting,
    /// The removal of the stale entries from the index.
    Pruning,
    /// The removal of every entry from the index.
    Clearing,
    /// The count of live sandboxes before any job is looked at.
    Capacity,
    /// The workflow runs in the state at hand.
    Runs,
    /// The jobs of the run at hand.
    Jobs,
    /// The inventory of live sandboxes, to tell which jobs have one.
    Existing,
    /// The count of live sandboxes before the job at hand is looked at.
    Slot,
    /// The assignment under the name of the job at hand, from the index.
    Claim,
    /// The registration credential for the job at hand.
    Credential,
    /// The launch of the sandbox for the job at hand.
    Launching,
    /// The recording of the assignment of the job at hand.
    Recording,
    /// Whether shutdown has been requested, before a tick.
    ShutdownCheck,
    /// The end of the pause between two ticks.
    Sleeping,
}

/// Where the scheduler stands.
pub struct ListenerModel {
    /// How many sandboxes may be live at once.
    pub max_concurrent: usize,
    /// How long a sandbox may run, in seconds.
    pub job_timeout: u64,
    /// The pause between two ticks, in seconds.
    pub poll_interval: u64,
    /// The labels that this controller's sandboxes advertise.
    pub labels: Seq<Seq<char>>,
    pub routine: Routine,
    /// The routine is part of a run.
    pub looping: bool,
    pub stage: Stage,
    /// The last inventory of live sandboxes.
    pub live: Seq<Seq<char>>,
    /// The place in `live` of the sandbox at hand.
    pub cursor: int,
    /// The place among the run states of the state at hand.
    pub status_cursor: int,
    /// The workflow runs in the state at hand.
    pub runs: Seq<u64>,
    /// The place in `runs` of the run at hand.
    pub run_cursor: int,
    /// The jobs gathered in this tick.
    pub jobs: Seq<JobView>,
    /// The place in `jobs` of the job at hand.
    pub job_cursor: int,
    /// The last count of live sandboxes.
    pub counted: usize,
}

/// The states of a workflow run that are asked for, in this order.
pub open spec fn run_status(i: int) -> Seq<char> {
    if i == 0 {
        "queued"@
    } else if i == 1 {
        "waiting"@
    } else if i == 2 {
        "pending"@
    } else {
        "in_progress"@
    }
}

/// Every label of the job is a label of the runner.
pub open spec fn labels_subset(job: Seq<Seq<char>>, runner: Seq<Seq<char>>) -> bool {
    forall|i: int| 0 <= i < job.len() ==> runner.contains(#[trigger] job[i])
}

/// What is said of an event that is not the answer to what was asked.
pub open spec fn unexpected() -> FailureView {
    FailureView { fatal: false, message: "unexpected event"@ }
}

/// The failure that an input tells of. An input that tells of none, where a
/// failure is looked for, counts as a failure itself.
pub open spec fn outside_failure(input: InputView) -> FailureView {
    match input {
        InputView::Outside(EventView::Failed(failure)) => failure,
        _ => unexpected(),
    }
}

/// The error that an input tells of.
pub open spec fn failure_of(input: InputView) -> ListenerErrorView {
    match input {
        InputView::Index(IndexReplyView::Failed(error)) => ListenerErrorView::Index(error),
        _ => ListenerErrorView::Outside(outside_failure(input)),
    }
}

/// After this error the controller cannot go on: the CI service refuses its
/// credential, or an entry of the index holds no record.
pub open spec fn is_fatal_error(error: ListenerErrorView) -> bool {
    match error {
        ListenerErrorView::Outside(failure) => failure.fatal,
        ListenerErrorView::Index(StateErrorView::Corrupt(_)) => true,
        ListenerErrorView::Index(StateErrorView::Storage(_)) => false,
    }
}

/// The input tells that the controller cannot go on.
pub open spec fn is_fatal(input: InputView) -> bool {
    is_fatal_error(failure_of(input))
}

impl ListenerModel {
    /// The name of the sandbox at hand.
    pub open spec fn name(self) -> Seq<char> {
        self.live[self.cursor]
    }

    /// The job at hand.
    pub open spec fn job(self) -> JobView {
        self.jobs[self.job_cursor]
    }

    /// A sandbox is to be launched for this job: no runner is assigned to it,
    /// it waits for one, this controller has every label that it asks for, and
    /// no live sandbox bears its name.
    pub open spec fn eligible(self, job: JobView) -> bool {
        &&& !job.assigned()
        &&& job.waiting()
        &&& labels_subset(job.labels, self.labels)
        &&& !self.live.contains(container_name(job.id))
    }

    /// The scheduler at rest with these settings.
    pub open spec fn idle(
        max_concurrent: usize,
        job_timeout: u64,
        poll_interval: u64,
        labels: Seq<Seq<char>>,
    ) -> ListenerModel {
        ListenerModel {
            max_concurrent,
            job_timeout,
            poll_interval,
            labels,
            routine: Routine::Idle,
            looping: false,
            stage: Stage::Idle,
            live: Seq::empty(),
            cursor: 0,
            status_cursor: 0,
            runs: Seq::empty(),
            run_cursor: 0,
            jobs: Seq::empty(),
            job_cursor: 0,
            counted: 0,
        }
    }

    /// The stage waits for something that belongs to the sandbox at hand.
    pub open spec fn at_sandbox(self) -> bool {
        self.stage == Stage::Completion || self.stage == Stage::Assignment || self.stage
            == Stage::Deregistering || self.stage == Stage::Destroying || self.stage
            == Stage::Forgetting
    }

    /// The stage waits for something that belongs to the job at hand.
    pub open spec fn at_job(self) -> bool {
        self.stage == Stage::Slot || self.stage == Stage::Claim || self.stage == Stage::Credential
            || self.stage == Stage::Launching || self.stage == Stage::Recording
    }

    /// The stage belongs to the dispatch phase.
    pub open spec fn dispatching(self) -> bool {
        self.at_job() || self.stage == Stage::Capacity || self.stage == Stage::Runs || self.stage
            == Stage::Jobs || self.stage == Stage::Existing
    }

    /// The stage belongs to a walk through the inventory.
    pub open spec fn walking(self) -> bool {
        self.at_sandbox() || self.stage == Stage::Inventory || self.stage == Stage::Pruning
            || self.stage == Stage::Clearing
    }

    /// The parts fit together: the routine and the stage belong to each
    /// other, what is at hand is there, and a job for which a sandbox is
    /// about to be launched was found eligible while fewer sandboxes were
    /// live than may be.
    pub open spec fn wf(self) -> bool {
        &&& 0 <= self.cursor <= self.live.len()
        &&& 0 <= self.status_cursor <= 4
        &&& 0 <= self.run_cursor <= self.runs.len()
        &&& 0 <= self.job_cursor <= self.jobs.len()
        &&& (self.routine == Routine::Idle) == (self.stage == Stage::Idle)
        &&& self.stage == Stage::Idle ==> !self.looping
        &&& self.routine == Routine::Drain ==> !self.looping
        &&& self.routine == Routine::Reap ==> self.looping
        &&& self.routine == Routine::Dispatch ==> self.looping
        &&& self.stage == Stage::ShutdownCheck ==> self.looping && (self.routine
            == Routine::Reconcile || self.routine == Routine::Dispatch)
        &&& self.stage == Stage::Sleeping ==> self.routine == Routine::Dispatch
        &&& self.walking() ==> self.routine == Routine::Reconcile || self.routine == Routine::Reap
            || self.routine == Routine::Drain
        &&& self.dispatching() ==> self.routine == Routine::Dispatch
        &&& self.at_sandbox() ==> self.cursor < self.live.len()
        &&& self.stage == Stage::Completion ==> self.routine != Routine::Drain
        &&& self.stage == Stage::Assignment ==> self.routine == Routine::Reap
        &&& self.stage == Stage::Pruning ==> self.routine != Routine::Drain
        &&& self.stage == Stage::Clearing ==> self.routine == Routine::Drain
        &&& self.stage == Stage::Runs ==> self.status_cursor < 4
        &&& self.stage == Stage::Jobs ==> self.status_cursor < 4 && self.run_cursor
            < self.runs.len()
        &&& self.at_job() ==> self.job_cursor < self.jobs.len()
        &&& self.stage == Stage::Claim || self.stage == Stage::Credential || self.stage
            == Stage::Launching ==> self.counted < self.max_concurrent && self.eligible(
            self.job(),
        )
    }
}

/// One step: a model and what it wants.
pub type Outcome = (ListenerModel, StepView);

/// Waits in `stage` for what comes of `action`.
pub open spec fn ask(m: ListenerModel, stage: Stage, action: ActionView) -> Outcome {
    (ListenerModel { stage, ..m }, StepView { request: RequestView::Outside(action), notice: None })
}

/// Waits in `stage` for what comes of `op`.
pub open spec fn ask_index(m: ListenerModel, stage: Stage, op: IndexOpView) -> Outcome {
    (ListenerModel { stage, ..m }, StepView { request: RequestView::Index(op), notice: None })
}

/// The same step with something to say.
pub open spec fn with_notice(outcome: Outcome, notice: NoticeView) -> Outcome {
    (outcome.0, StepView { request: outcome.1.request, notice: Some(notice) })
}

/// Comes to rest with `result`.
pub open spec fn stop(m: ListenerModel, result: Result<(), ListenerErrorView>) -> Outcome {
    ask(
        ListenerModel { routine: Routine::Idle, looping: false, ..m },
        Stage::Idle,
        ActionView::Finished { result },
    )
}

/// Begins the reap phase of a tick.
pub open spec fn begin_reap(m: ListenerModel) -> Outcome {
    ask(ListenerModel { routine: Routine::Reap, ..m }, Stage::Inventory, ActionView::ListSandboxes)
}

/// Begins the dispatch phase of a tick.
pub open spec fn begin_dispatch(m: ListenerModel) -> Outcome {
    ask(ListenerModel { routine: Routine::Dispatch, ..m }, Stage::Capacity, ActionView::CountActive)
}

/// Pauses until the next tick.
pub open spec fn pause(m: ListenerModel) -> Outcome {
    ask(m, Stage::Sleeping, ActionView::Sleep { seconds: m.poll_interval })
}

/// The routine is done. In a run the next one follows: after startup
/// reconcile the first tick, after the reap phase the dispatch phase, after
/// the dispatch phase the pause.
pub open spec fn finish(m: ListenerModel) -> Outcome {
    if !m.looping {
        stop(m, Ok(()))
    } else if m.routine == Routine::Reconcile {
        ask(m, Stage::ShutdownCheck, ActionView::CheckShutdown)
    } else if m.routine == Routine::Reap {
        begin_dispatch(m)
    } else if m.routine == Routine::Dispatch {
        pause(m)
    } else {
        stop(m, Ok(()))
    }
}

/// The routine is given up. A phase of a tick that is given up does not end
/// the run: the failure is noted and the run goes on. An error after which
/// the controller cannot go on ends the run.
pub open spec fn fail(m: ListenerModel, error: ListenerErrorView) -> Outcome {
    if is_fatal_error(error) {
        stop(m, Err(error))
    } else if m.looping && m.routine == Routine::Reap {
        with_notice(begin_dispatch(m), NoticeView::ReapFailed { error })
    } else if m.looping && m.routine == Routine::Dispatch {
        with_notice(pause(m), NoticeView::DispatchFailed { error })
    } else {
        stop(m, Err(error))
    }
}

/// Turns to the sandbox at the cursor, or, past the last one, to the index:
/// the drain clears it, the other routines take the stale entries out.
pub open spec fn visit(m: ListenerModel) -> Outcome {
    if 0 <= m.cursor < m.live.len() {
        if m.routine == Routine::Drain {
            ask(m, Stage::Deregistering, ActionView::Deregister { name: m.name() })
        } else {
            ask(m, Stage::Completion, ActionView::IsComplete { name: m.name() })
        }
    } else if m.routine == Routine::Drain {
        ask_index(m, Stage::Clearing, IndexOpView::Clear)
    } else {
        ask_index(m, Stage::Pruning, IndexOpView::Prune)
    }
}

/// Leaves the sandbox at hand and turns to the next.
pub open spec fn advance(m: ListenerModel) -> Outcome {
    visit(ListenerModel { cursor: m.cursor + 1, ..m })
}

/// Begins the full cleanup of the sandbox at hand: its runner is deleted from
/// the CI service, then it is destroyed, then its entry leaves the index.
pub open spec fn cleanup(m: ListenerModel) -> Outcome {
    ask(m, Stage::Deregistering, ActionView::Deregister { name: m.name() })
}

/// The cleanup of the sandbox at hand failed. The drain notes it and goes on
/// with the next sandbox; the other routines are given up.
pub open spec fn cleanup_failed(m: ListenerModel, error: ListenerErrorView) -> Outcome {
    if m.routine == Routine::Drain {
        with_notice(advance(m), NoticeView::CleanupFailed { name: m.name(), error })
    } else {
        fail(m, error)
    }
}

/// Asks for the runs in the state at the cursor, or, past the last state, for
/// the inventory.
pub open spec fn next_status(m: ListenerModel) -> Outcome {
    if 0 <= m.status_cursor < 4 {
        ask(m, Stage::Runs, ActionView::ListRuns { status: run_status(m.status_cursor) })
    } else {
        ask(m, Stage::Existing, ActionView::ListSandboxes)
    }
}

/// Asks for the jobs of the run at the cursor, or, past the last run, turns to
/// the next state.
pub open spec fn next_run(m: ListenerModel) -> Outcome {
    if 0 <= m.run_cursor < m.runs.len() {
        ask(m, Stage::Jobs, ActionView::ListJobs { run_id: m.runs[m.run_cursor] })
    } else {
        next_status(ListenerModel { status_cursor: m.status_cursor + 1, ..m })
    }
}

/// Turns to the job at the cursor, which begins with a fresh count of the
/// live sandboxes, or, past the last job, ends the phase.
pub open spec fn next_job(m: ListenerModel) -> Outcome {
    if 0 <= m.job_cursor < m.jobs.len() {
        ask(m, Stage::Slot, ActionView::CountActive)
    } else {
        finish(m)
    }
}

/// Leaves the job at hand and turns to the next.
pub open spec fn skip_job(m: ListenerModel) -> Outcome {
    next_job(ListenerModel { job_cursor: m.job_cursor + 1, ..m })
}

/// Begins startup reconcile, alone or as the beginning of a run.
pub open spec fn begin_reconcile(m: ListenerModel, looping: bool) -> Outcome {
    ask(
        ListenerModel { routine: Routine::Reconcile, looping, ..m },
        Stage::Inventory,
        ActionView::ListSandboxes,
    )
}

/// Begins the drain.
pub open spec fn begin_drain(m: ListenerModel) -> Outcome {
    ask(
        ListenerModel { routine: Routine::Drain, looping: false, ..m },
        Stage::Inventory,
        ActionView::ListSandboxes,
    )
}

/// The step that the scheduler takes when, standing at `m`, it is told
/// `input` at the time `now`.
pub open spec fn next(m: ListenerModel, input: InputView, now: u64) -> Outcome {
    match m.stage {
        Stage::Idle => stop(m, Ok(())),
        Stage::Inventory => match input {
            InputView::Outside(EventView::Sandboxes(names)) => visit(
                ListenerModel { live: names, cursor: 0, ..m },
            ),
            _ => fail(m, failure_of(input)),
        },
        Stage::Completion => match input {
            InputView::Outside(EventView::Complete(true)) => with_notice(
                cleanup(m),
                NoticeView::Completed { name: m.name() },
            ),
            InputView::Outside(EventView::Complete(false)) => if m.routine == Routine::Reap {
                ask_index(m, Stage::Assignment, IndexOpView::Lookup { name: m.name() })
            } else {
                advance(m)
            },
            _ => if m.routine == Routine::Reap {
                fail(m, failure_of(input))
            } else {
                with_notice(
                    cleanup(m),
                    NoticeView::CheckFailed { name: m.name(), failure: outside_failure(input) },
                )
            },
        },
        Stage::Assignment => match input {
            InputView::Index(IndexReplyView::Found(Some(state))) => if elapsed(
                state.started_at,
                now,
            ) > m.job_timeout {
                with_notice(
                    cleanup(m),
                    NoticeView::TimedOut {
                        name: m.name(),
                        running_secs: elapsed(state.started_at, now),
                        timeout_secs: m.job_timeout,
                    },
                )
            } else {
                advance(m)
            },
            InputView::Index(IndexReplyView::Found(None)) => with_notice(
                cleanup(m),
                NoticeView::Orphaned { name: m.name() },
            ),
            _ => fail(m, failure_of(input)),
        },
        Stage::Deregistering => match input {
            InputView::Outside(EventView::Done) => ask(
                m,
                Stage::Destroying,
                ActionView::Destroy { name: m.name() },
            ),
            _ => with_notice(
                ask(m, Stage::Destroying, ActionView::Destroy { name: m.name() }),
                NoticeView::DeregisterFailed { name: m.name(), failure: outside_failure(input) },
            ),
        },
        Stage::Destroying => match input {
            InputView::Outside(EventView::Done) => ask_index(
                m,
                Stage::Forgetting,
                IndexOpView::Forget { name: m.name() },
            ),
            _ => cleanup_failed(m, failure_of(input)),
        },
        Stage::Forgetting => match input {
            InputView::Index(IndexReplyView::Done) => advance(m),
            _ => cleanup_failed(m, failure_of(input)),
        },
        Stage::Pruning | Stage::Clearing => match input {
            InputView::Index(IndexReplyView::Done) => finish(m),
            _ => fail(m, failure_of(input)),
        },
        Stage::Capacity => match input {
            InputView::Outside(EventView::Count(active)) => if active >= m.max_concurrent {
                finish(ListenerModel { counted: active, ..m })
            } else {
                next_status(
                    ListenerModel {
                        counted: active,
                        status_cursor: 0,
                        runs: Seq::empty(),
                        run_cursor: 0,
                        jobs: Seq::empty(),
                        job_cursor: 0,
                        ..m
                    },
                )
            },
            _ => fail(m, failure_of(input)),
        },
        Stage::Runs => match input {
            InputView::Outside(EventView::Runs(ids)) => next_run(
                ListenerModel { runs: ids, run_cursor: 0, ..m },
            ),
            _ => if is_fatal(input) {
                stop(m, Err(failure_of(input)))
            } else {
                next_status(ListenerModel { status_cursor: m.status_cursor + 1, ..m })
            },
        },
        Stage::Jobs => match input {
            InputView::Outside(EventView::Jobs(jobs)) => next_run(
                ListenerModel { jobs: m.jobs + jobs, run_cursor: m.run_cursor + 1, ..m },
            ),
            _ => if is_fatal(input) {
                stop(m, Err(failure_of(input)))
            } else {
                next_run(ListenerModel { run_cursor: m.run_cursor + 1, ..m })
            },
        },
        Stage::Existing => match input {
            InputView::Outside(EventView::Sandboxes(names)) => next_job(
                ListenerModel { live: names, cursor: 0, job_cursor: 0, ..m },
            ),
            _ => fail(m, failure_of(input)),
        },
        Stage::Slot => match input {
            InputView::Outside(EventView::Count(active)) => {
                let counted = ListenerModel { counted: active, ..m };
                if active >= m.max_concurrent {
                    finish(counted)
                } else if m.eligible(m.job()) {
                    ask_index(
                        counted,
                        Stage::Claim,
                        IndexOpView::Lookup { name: container_name(m.job().id) },
                    )
                } else {
                    skip_job(counted)
                }
            },
            _ => fail(m, failure_of(input)),
        },
        Stage::Claim => match input {
            InputView::Index(IndexReplyView::Found(None)) => ask(
                m,
                Stage::Credential,
                ActionView::MintCredential,
            ),
            InputView::Index(IndexReplyView::Found(Some(_))) => skip_job(m),
            _ => fail(m, failure_of(input)),
        },
        Stage::Credential => match input {
            InputView::Outside(EventView::Credential(credential)) => ask(
                m,
                Stage::Launching,
                ActionView::Launch { job_id: m.job().id, credential },
            ),
            _ => if is_fatal(input) {
                stop(m, Err(failure_of(input)))
            } else {
                with_notice(
                    skip_job(m),
                    NoticeView::LaunchFailed { job_id: m.job().id, error: failure_of(input) },
                )
            },
        },
        Stage::Launching => match input {
            InputView::Outside(EventView::Launched(name)) => ask_index(
                m,
                Stage::Recording,
                IndexOpView::Record {
                    name,
                    state: ContainerState { job_id: m.job().id, started_at: now },
                },
            ),
            _ => with_notice(
                skip_job(m),
                NoticeView::LaunchFailed { job_id: m.job().id, error: failure_of(input) },
            ),
        },
        Stage::Recording => match input {
            InputView::Index(IndexReplyView::Done) => with_notice(
                skip_job(m),
                NoticeView::Launched { job_id: m.job().id },
            ),
            _ => with_notice(
                skip_job(m),
                NoticeView::LaunchFailed { job_id: m.job().id, error: failure_of(input) },
            ),
        },
        Stage::ShutdownCheck => match input {
            InputView::Outside(EventView::Shutdown(false)) => begin_reap(m),
            _ => stop(m, Ok(())),
        },
        Stage::Sleeping => match input {
            InputView::Outside(EventView::Shutdown(false)) => ask(
                m,
                Stage::ShutdownCheck,
                ActionView::CheckShutdown,
            ),
            _ => stop(m, Ok(())),
        },
    }
}

/// Every step leaves the parts fitting together.
pub proof fn lemma_next_wf(m: ListenerModel, input: InputView, now: u64)
    requires
        m.wf(),
    ensures
        next(m, input, now).0.wf(),
{
}

/// The routines begin with the parts fitting together.
pub proof fn lemma_begin_wf(m: ListenerModel, looping: bool)
    requires
        m.wf(),
    ensures
        begin_reconcile(m, looping).0.wf(),
        begin_drain(m).0.wf(),
{
}

// ---------------------------------------------------------------------------
// The scheduler and the index together
// ---------------------------------------------------------------------------

/// The stage waits for an answer of the index.
pub open spec fn awaits_index(stage: Stage) -> bool {
    stage == Stage::Assignment || stage == Stage::Forgetting || stage == Stage::Pruning || stage
        == Stage::Clearing || stage == Stage::Claim || stage == Stage::Recording
}

/// How many operations on the index may follow one another from a stage,
/// at most, before the scheduler wants something of the world outside.
pub open spec fn index_budget(stage: Stage) -> nat {
    if stage == Stage::Assignment || stage == Stage::Forgetting {
        2
    } else if awaits_index(stage) {
        1
    } else {
        0
    }
}

/// What the index holds after an operation that did not fail. `live` is the
/// scheduler's inventory, which decides what is stale.
pub open spec fn apply_op(
    index: Map<Seq<char>, Seq<u8>>,
    op: IndexOpView,
    live: Seq<Seq<char>>,
) -> Map<Seq<char>, Seq<u8>> {
    match op {
        IndexOpView::Lookup { name } => index,
        IndexOpView::Record { name, state } => index.insert(name, record_bytes(state)),
        IndexOpView::Forget { name } => index.remove(name),
        IndexOpView::Prune => index.restrict(live.to_set()),
        IndexOpView::Clear => empty_index(),
    }
}

/// What the index answers to an operation that did not fail.
pub open spec fn index_reply(index: Map<Seq<char>, Seq<u8>>, op: IndexOpView) -> IndexReplyView {
    match op {
        IndexOpView::Lookup { name } => IndexReplyView::Found(found_in(index, name)),
        _ => IndexReplyView::Done,
    }
}

/// `reply` is an answer that the index may give to `op` when it holds
/// `before`, and `after` is what it holds then. An operation that does not
/// fail is answered as `index_reply` says and leaves what `apply_op` says. A
/// lookup and a removal of the stale entries fail on an entry that holds no
/// record, and change nothing then. The store may fail at any time, and of
/// what the index holds after that only this is known: a lookup changes
/// nothing.
pub open spec fn performs(
    before: Map<Seq<char>, Seq<u8>>,
    op: IndexOpView,
    live: Seq<Seq<char>>,
    reply: IndexReplyView,
    after: Map<Seq<char>, Seq<u8>>,
) -> bool {
    match reply {
        IndexReplyView::Failed(StateErrorView::Corrupt(which)) => {
            &&& is_corrupt(before, which)
            &&& after == before
            &&& match op {
                IndexOpView::Lookup { name } => which == name,
                IndexOpView::Prune => true,
                _ => false,
            }
        },
        IndexReplyView::Failed(StateErrorView::Storage(_)) => op is Lookup ==> after == before,
        _ => reply == index_reply(before, op) && after == apply_op(before, op, live),
    }
}

/// The notice tells of a failure of the index.
pub open spec fn notice_reports(notice: NoticeView) -> bool {
    match notice {
        NoticeView::CleanupFailed { name, error } => error is Index,
        NoticeView::ReapFailed { error } => error is Index,
        NoticeView::DispatchFailed { error } => error is Index,
        NoticeView::LaunchFailed { job_id, error } => error is Index,
        _ => false,
    }
}

/// The step tells of a failure of the index, in its notice or by ending the
/// routine with it.
pub open spec fn step_reports(step: StepView) -> bool {
    ||| step.notice matches Some(notice) && notice_reports(notice)
    ||| step.request matches RequestView::Outside(ActionView::Finished { result: Err(error) })
        && error is Index
}

/// The directive tells of a failure of the index, in a notice or by ending
/// the routine with it.
pub open spec fn directive_reports(directive: DirectiveView) -> bool {
    ||| exists|i: int|
        0 <= i < directive.notices.len() && notice_reports(#[trigger] directive.notices[i])
    ||| directive.action matches ActionView::Finished { result: Err(error) } && error is Index
}

/// The notice of a step as a sequence: one notice or none.
pub open spec fn said(step: StepView) -> Seq<NoticeView> {
    match step.notice {
        Some(notice) => seq![notice],
        None => Seq::empty(),
    }
}

/// Where the scheduler and the index have got to when the scheduler wants
/// something of the world outside, and what was said on the way.
pub struct Settled {
    pub model: ListenerModel,
    pub request: RequestView,
    pub notices: Seq<NoticeView>,
    pub index: Map<Seq<char>, Seq<u8>>,
}

/// The same with `notices` said before.
pub open spec fn after(notices: Seq<NoticeView>, settled: Settled) -> Settled {
    Settled { notices: notices + settled.notices, ..settled }
}

/// Takes the steps that follow the step `step`, which led to `m`, for as long
/// as they are operations on the index, at most `fuel` of them, with an index
/// that does not fail.
pub open spec fn settle(
    m: ListenerModel,
    step: StepView,
    index: Map<Seq<char>, Seq<u8>>,
    now: u64,
    fuel: nat,
) -> Settled
    decreases fuel,
{
    match step.request {
        RequestView::Index(op) if fuel > 0 => {
            let reply = InputView::Index(index_reply(index, op));
            let then = next(m, reply, now);
            let held = apply_op(index, op, m.live);
            after(said(step), settle(then.0, then.1, held, now, (fuel - 1) as nat))
        },
        _ => Settled { model: m, request: step.request, notices: said(step), index },
    }
}

/// Where the scheduler, standing at `m`, and the index get to when the
/// scheduler is told `event` at the time `now` and the index does not fail.
pub open spec fn settled(
    m: ListenerModel,
    event: EventView,
    index: Map<Seq<char>, Seq<u8>>,
    now: u64,
) -> Settled {
    let first = next(m, InputView::Outside(event), now);
    settle(first.0, first.1, index, now, 2)
}

/// Where the scheduler has got to when it wants something of the world
/// outside, and what was said on the way.
pub struct Course {
    pub model: ListenerModel,
    pub request: RequestView,
    pub notices: Seq<NoticeView>,
}

/// Takes the steps that follow the step `step`, which led to `m`, for as long
/// as they are operations on the index and `replies` has an answer for them.
pub open spec fn follow(
    m: ListenerModel,
    step: StepView,
    now: u64,
    replies: Seq<IndexReplyView>,
) -> Course
    decreases replies.len(),
{
    if replies.len() > 0 && step.request is Index {
        let then = next(m, InputView::Index(replies[0]), now);
        let rest = follow(then.0, then.1, now, replies.drop_first());
        Course { notices: said(step) + rest.notices, ..rest }
    } else {
        Course { model: m, request: step.request, notices: said(step) }
    }
}

/// Where the scheduler, standing at `m`, gets to when it is told `event` at
/// the time `now` and the index answers `replies` in turn.
pub open spec fn course(
    m: ListenerModel,
    event: EventView,
    now: u64,
    replies: Seq<IndexReplyView>,
) -> Course {
    let first = next(m, InputView::Outside(event), now);
    follow(first.0, first.1, now, replies)
}

/// One more answer of the index takes the course one step further.
pub proof fn lemma_follow_further(
    m: ListenerModel,
    step: StepView,
    now: u64,
    replies: Seq<IndexReplyView>,
    reply: IndexReplyView,
)
    requires
        follow(m, step, now, replies).request is Index,
    ensures
        ({
            let so_far = follow(m, step, now, replies);
            let then = next(so_far.model, InputView::Index(reply), now);
            follow(m, step, now, replies.push(reply)) == (Course {
                model: then.0,
                request: then.1.request,
                notices: so_far.notices + said(then.1),
            })
        }),
    decreases replies.len(),
{
    let longer = replies.push(reply);
    let so_far = follow(m, step, now, replies);
    assert(step.request is Index);
    assert(longer[0] == if replies.len() == 0 {
        reply
    } else {
        replies[0]
    });
    let then = next(m, InputView::Index(longer[0]), now);
    let tail = follow(then.0, then.1, now, longer.drop_first());
    assert(follow(m, step, now, longer) == (Course {
        notices: said(step) + tail.notices,
        ..tail
    }));
    if replies.len() == 0 {
        assert(longer.drop_first() == Seq::<IndexReplyView>::empty());
        assert(tail == (Course { model: then.0, request: then.1.request, notices: said(then.1) }));
        assert(so_far == (Course { model: m, request: step.request, notices: said(step) }));
    } else {
        assert(longer.drop_first() == replies.drop_first().push(reply));
        let rest = follow(then.0, then.1, now, replies.drop_first());
        assert(so_far == (Course { notices: said(step) + rest.notices, ..rest }));
        lemma_follow_further(then.0, then.1, now, replies.drop_first(), reply);
        let last = next(rest.model, InputView::Index(reply), now);
        assert(tail == (Course {
            model: last.0,
            request: last.1.request,
            notices: rest.notices + said(last.1),
        }));
        assert(said(step) + (rest.notices + said(last.1)) == (said(step) + rest.notices) + said(
            last.1,
        ));
    }
}

/// A step asks for the index exactly when it leads to a stage that waits for
/// it, and from such a stage the operations on the index run out.
pub proof fn lemma_index_budget(m: ListenerModel, input: InputView, now: u64)
    requires
        m.wf(),
    ensures
        (next(m, input, now).1.request is Index) == awaits_index(next(m, input, now).0.stage),
        awaits_index(m.stage) ==> index_budget(next(m, input, now).0.stage) < index_budget(
            m.stage,
        ),
{
}

/// A failure of the index does not pass unnoticed.
pub proof fn lemma_failure_reported(m: ListenerModel, error: StateErrorView, now: u64)
    requires
        m.wf(),
        awaits_index(m.stage),
    ensures
        step_reports(next(m, InputView::Index(IndexReplyView::Failed(error)), now).1),
{
}

// ---------------------------------------------------------------------------
// What holds of the scheduler
// ---------------------------------------------------------------------------

/// A job without labels matches any runner.
pub proof fn lemma_no_labels_match(runner: Seq<Seq<char>>)
    ensures
        labels_subset(Seq::empty(), runner),
{
}

/// A job with a label matches no runner without labels.
pub proof fn lemma_labels_need_labels(job: Seq<Seq<char>>)
    requires
        job.len() > 0,
    ensures
        !labels_subset(job, Seq::empty()),
{
    assert(!Seq::<Seq<char>>::empty().contains(job[0]));
}

/// A job matches exactly when each of its labels is one of the runner's.
pub proof fn lemma_labels_subset(job: Seq<Seq<char>>, runner: Seq<Seq<char>>)
    ensures
        labels_subset(job, runner) <==> forall|label: Seq<char>|
            job.contains(label) ==> runner.contains(label),
{
    if labels_subset(job, runner) {
        assert forall|label: Seq<char>| job.contains(label) implies runner.contains(label) by {
            let i = choose|i: int| 0 <= i < job.len() && job[i] == label;
            assert(runner.contains(job[i]));
        }
    }
    if forall|label: Seq<char>| job.contains(label) ==> runner.contains(label) {
        assert forall|i: int| 0 <= i < job.len() implies runner.contains(#[trigger] job[i]) by {
            assert(job.contains(job[i]));
        }
    }
}

/// The count that the scheduler goes by is the one that the driver gave last.
pub proof fn lemma_count_is_kept(m: ListenerModel, active: usize, now: u64)
    requires
        m.wf(),
        m.stage == Stage::Capacity || m.stage == Stage::Slot,
    ensures
        next(m, InputView::Outside(EventView::Count(active)), now).0.counted == active,
{
}

/// When as many sandboxes are live as may be, or more, the dispatch phase
/// ends there: no job is looked at any more, no credential asked for and no
/// sandbox launched.
pub proof fn lemma_full_house_ends_dispatch(m: ListenerModel, active: usize, now: u64)
    requires
        m.wf(),
        m.stage == Stage::Capacity || m.stage == Stage::Slot,
        active >= m.max_concurrent,
    ensures
        next(m, InputView::Outside(EventView::Count(active)), now) == pause(
            ListenerModel { counted: active, ..m },
        ),
{
}

/// A job is claimed only on a fresh count that is below the cap, and only an
/// eligible job is.
pub proof fn lemma_claim_follows_count(m: ListenerModel, input: InputView, now: u64)
    requires
        m.wf(),
        next(m, input, now).0.stage == Stage::Claim,
    ensures
        m.stage == Stage::Slot,
        input matches InputView::Outside(EventView::Count(active)) && active < m.max_concurrent
            && next(m, input, now).0.counted == active,
        m.eligible(m.job()),
        next(m, input, now).1.request == RequestView::Index(
            IndexOpView::Lookup { name: container_name(m.job().id) },
        ),
{
}

/// A credential is asked for only for a claimed job under whose name the
/// index holds nothing.
pub proof fn lemma_credential_follows_claim(m: ListenerModel, input: InputView, now: u64)
    requires
        m.wf(),
        next(m, input, now).1.request == RequestView::Outside(ActionView::MintCredential),
    ensures
        m.stage == Stage::Claim,
        input == InputView::Index(IndexReplyView::Found(None)),
        next(m, input, now).0 == (ListenerModel { stage: Stage::Credential, ..m }),
{
}

/// A sandbox is launched only for the job at hand, which is eligible, with
/// the credential that was asked for it, and only while the last count of
/// live sandboxes is below the cap: with the sandbox that the launch adds to
/// those counted, no more are live than may be.
pub proof fn lemma_launch_within_cap(m: ListenerModel, input: InputView, now: u64)
    requires
        m.wf(),
        next(m, input, now).1.request is Outside,
        next(m, input, now).1.request->Outside_0 is Launch,
    ensures
        m.stage == Stage::Credential,
        m.counted + 1 <= m.max_concurrent,
        m.eligible(m.job()),
        !m.live.contains(container_name(m.job().id)),
        input matches InputView::Outside(EventView::Credential(credential)) && next(
            m,
            input,
            now,
        ).1.request == RequestView::Outside(
            ActionView::Launch { job_id: m.job().id, credential },
        ),
{
}

/// A job under whose name the index holds an assignment is passed over.
pub proof fn lemma_claimed_job_is_skipped(m: ListenerModel, state: ContainerState, now: u64)
    requires
        m.wf(),
        m.stage == Stage::Claim,
    ensures
        next(m, InputView::Index(IndexReplyView::Found(Some(state))), now) == skip_job(m),
        !(next(m, InputView::Index(IndexReplyView::Found(Some(state))), now).0.stage
            == Stage::Credential),
{
}

/// The assignment of a launched sandbox is recorded under the name that the
/// driver gave it, for the job it was launched for, as started now.
pub proof fn lemma_launch_is_recorded(m: ListenerModel, name: Seq<char>, now: u64)
    requires
        m.wf(),
        m.stage == Stage::Launching,
    ensures
        next(m, InputView::Outside(EventView::Launched(name)), now).1.request
            == RequestView::Index(
            IndexOpView::Record {
                name,
                state: ContainerState { job_id: m.job().id, started_at: now },
            },
        ),
{
}

/// A walk through the inventory keeps the inventory that it began with.
pub proof fn lemma_walk_keeps_inventory(m: ListenerModel, input: InputView, now: u64)
    requires
        m.wf(),
        m.at_sandbox(),
    ensures
        next(m, input, now).0.live == m.live,
{
}

/// Startup reconcile and the reap phase end with the removal of the stale
/// entries, unless they are given up before.
pub proof fn lemma_walk_ends_with_prune(m: ListenerModel)
    requires
        m.wf(),
        m.routine == Routine::Reconcile || m.routine == Routine::Reap,
        m.cursor >= m.live.len(),
    ensures
        visit(m) == ask_index(m, Stage::Pruning, IndexOpView::Prune),
{
}

/// After the stale entries are removed, the index holds exactly those of its
/// entries whose sandbox is in the inventory, and each as it was.
pub proof fn lemma_prune_removes_stale(
    index: Map<Seq<char>, Seq<u8>>,
    live: Seq<Seq<char>>,
    name: Seq<char>,
)
    ensures
        apply_op(index, IndexOpView::Prune, live).contains_key(name) <==> index.contains_key(name)
            && live.contains(name),
        apply_op(index, IndexOpView::Prune, live).contains_key(name) ==> apply_op(
            index,
            IndexOpView::Prune,
            live,
        )[name] == index[name],
{
}

/// The full cleanup of a sandbox asks for three things in this order, each
/// for the sandbox at hand: that its runner be deleted from the CI service,
/// which may fail without stopping the cleanup; that it be destroyed; and
/// that its entry be removed from the index.
pub proof fn lemma_cleanup_order(m: ListenerModel, deregistered: InputView, now: u64)
    requires
        m.wf(),
        m.at_sandbox(),
    ensures
        cleanup(m).1.request == RequestView::Outside(ActionView::Deregister { name: m.name() }),
        cleanup(m).0.stage == Stage::Deregistering,
        next(cleanup(m).0, deregistered, now).1.request == RequestView::Outside(
            ActionView::Destroy { name: m.name() },
        ),
        next(
            next(cleanup(m).0, deregistered, now).0,
            InputView::Outside(EventView::Done),
            now,
        ).1.request == RequestView::Index(IndexOpView::Forget { name: m.name() }),
{
}

/// What a full cleanup touches: the runners that the CI service knows, the
/// sandboxes that the driver holds, and the index.
pub struct World {
    pub runners: Set<Seq<char>>,
    pub sandboxes: Set<Seq<char>>,
    pub index: Map<Seq<char>, Seq<u8>>,
}

/// The world after the first `steps` steps of a full cleanup of `name` have
/// been done: the runner of this name is gone from the CI service, then the
/// sandbox from the driver, then the entry from the index. Each step leaves
/// alone what is not there.
pub open spec fn cleaned_up_to(world: World, name: Seq<char>, steps: nat) -> World {
    World {
        runners: if steps >= 1 {
            world.runners.remove(name)
        } else {
            world.runners
        },
        sandboxes: if steps >= 2 {
            world.sandboxes.remove(name)
        } else {
            world.sandboxes
        },
        index: if steps >= 3 {
            apply_op(world.index, IndexOpView::Forget { name }, Seq::empty())
        } else {
            world.index
        },
    }
}

/// The world after a full cleanup of `name`.
pub open spec fn cleaned(world: World, name: Seq<char>) -> World {
    cleaned_up_to(world, name, 3)
}

/// Full cleanup is idempotent: a second cleanup of the same name changes
/// nothing, and a cleanup that follows one that stopped half-way ends where a
/// single cleanup ends.
pub proof fn lemma_cleanup_idempotent(world: World, name: Seq<char>, steps: nat)
    ensures
        cleaned(cleaned(world, name), name) == cleaned(world, name),
        cleaned(cleaned_up_to(world, name, steps), name) == cleaned(world, name),
        !cleaned(world, name).runners.contains(name),
        !cleaned(world, name).sandboxes.contains(name),
        !cleaned(world, name).index.contains_key(name),
{
    let once = cleaned(world, name);
    let twice = cleaned(once, name);
    assert(twice.runners =~= once.runners);
    assert(twice.sandboxes =~= once.sandboxes);
    assert(twice.index =~= once.index);
    let part = cleaned_up_to(world, name, steps);
    let then = cleaned(part, name);
    assert(then.runners =~= once.runners);
    assert(then.sandboxes =~= once.sandboxes);
    assert(then.index =~= once.index);
}

/// The operation that a step asks of the index is the one that the stage it
/// leads to waits for.
pub proof fn lemma_stage_of_op(m: ListenerModel, input: InputView, now: u64)
    requires
        m.wf(),
    ensures
        ({
            let then = next(m, input, now);
            match then.1.request {
                RequestView::Index(IndexOpView::Lookup { name }) => then.0.stage
                    == Stage::Assignment || then.0.stage == Stage::Claim,
                RequestView::Index(IndexOpView::Record { name, state }) => then.0.stage
                    == Stage::Recording,
                RequestView::Index(IndexOpView::Forget { name }) => then.0.stage
                    == Stage::Forgetting,
                RequestView::Index(IndexOpView::Prune) => then.0.stage == Stage::Pruning,
                RequestView::Index(IndexOpView::Clear) => then.0.stage == Stage::Clearing,
                RequestView::Outside(_) => !awaits_index(then.0.stage),
            }
        }),
{
}

/// The reap phase passes into the dispatch phase in two ways only: when the
/// stale entries have been removed, or with a notice that it was given up.
pub proof fn lemma_reap_passes(m: ListenerModel, input: InputView, now: u64)
    requires
        m.wf(),
        m.routine == Routine::Reap,
    ensures
        ({
            let then = next(m, input, now);
            &&& then.0.routine == Routine::Reap || then.0.routine == Routine::Dispatch
                || then.0.routine == Routine::Idle
            &&& then.0.routine == Routine::Idle ==> then.1.request is Outside
            &&& then.0.routine == Routine::Dispatch ==> then.1.request is Outside && ((m.stage
                == Stage::Pruning && input == InputView::Index(IndexReplyView::Done)
                && then.0.live == m.live && then.1.notice is None) || (then.1.notice matches Some(
                notice,
            ) && notice is ReapFailed))
        }),
{
}

/// When the scheduler, with an index that does not fail, comes to ask for a
/// credential, the job at hand is eligible, fewer sandboxes were counted than
/// may be live, and the index holds no assignment under the job's name.
#[verifier::rlimit(50)]
pub proof fn lemma_credential_is_due(
    m: ListenerModel,
    event: EventView,
    index: Map<Seq<char>, Seq<u8>>,
    now: u64,
)
    requires
        m.wf(),
        settled(m, event, index, now).request == RequestView::Outside(ActionView::MintCredential),
    ensures
        ({
            let there = settled(m, event, index, now);
            &&& there.model.wf()
            &&& there.model.stage == Stage::Credential
            &&& there.model.counted < there.model.max_concurrent
            &&& there.model.eligible(there.model.job())
            &&& found_in(index, container_name(there.model.job().id)) is None
            &&& there.index == index
        }),
{
    let told = InputView::Outside(event);
    let first = next(m, told, now);
    lemma_next_wf(m, told, now);
    lemma_index_budget(m, told, now);
    lemma_stage_of_op(m, told, now);
    assert(settled(m, event, index, now) == settle(first.0, first.1, index, now, 2));
    match first.1.request {
        RequestView::Outside(action) => {
            assert(settle(first.0, first.1, index, now, 2).request == first.1.request);
            lemma_credential_follows_claim(m, told, now);
        },
        RequestView::Index(op) => {
            let reply = InputView::Index(index_reply(index, op));
            let held = apply_op(index, op, first.0.live);
            let second = next(first.0, reply, now);
            lemma_next_wf(first.0, reply, now);
            lemma_index_budget(first.0, reply, now);
            lemma_stage_of_op(first.0, reply, now);
            assert(settle(first.0, first.1, index, now, 2) == after(
                said(first.1),
                settle(second.0, second.1, held, now, 1),
            ));
            match second.1.request {
                RequestView::Outside(action) => {
                    assert(settle(second.0, second.1, held, now, 1).request == second.1.request);
                    lemma_credential_follows_claim(first.0, reply, now);
                    lemma_claim_follows_count(m, told, now);
                },
                RequestView::Index(op2) => {
                    let reply2 = InputView::Index(index_reply(held, op2));
                    let held2 = apply_op(held, op2, second.0.live);
                    let third = next(second.0, reply2, now);
                    lemma_next_wf(second.0, reply2, now);
                    lemma_index_budget(second.0, reply2, now);
                    assert(settle(second.0, second.1, held, now, 1) == after(
                        said(second.1),
                        settle(third.0, third.1, held2, now, 0),
                    ));
                    assert(settle(third.0, third.1, held2, now, 0).request == third.1.request);
                    lemma_credential_follows_claim(second.0, reply2, now);
                    lemma_claim_follows_count(first.0, reply, now);
                },
            }
        },
    }
}

/// In every tick, when the reap phase is through without a notice that it
/// was given up, and the index did not fail, every name in the index is the
/// name of a sandbox in the inventory that the phase went by: an entry whose
/// sandbox is not live has been removed. No entry has come into the index.
#[verifier::rlimit(50)]
pub proof fn lemma_stale_entries_leave(
    m: ListenerModel,
    event: EventView,
    index: Map<Seq<char>, Seq<u8>>,
    now: u64,
    name: Seq<char>,
)
    requires
        m.wf(),
        m.routine == Routine::Reap,
        settled(m, event, index, now).model.routine == Routine::Dispatch,
        forall|i: int|
            0 <= i < settled(m, event, index, now).notices.len() ==> !(#[trigger] settled(
                m,
                event,
                index,
                now,
            ).notices[i] is ReapFailed),
        settled(m, event, index, now).index.contains_key(name),
    ensures
        settled(m, event, index, now).model.live.contains(name),
        index.contains_key(name),
{
    let told = InputView::Outside(event);
    let first = next(m, told, now);
    lemma_next_wf(m, told, now);
    lemma_index_budget(m, told, now);
    lemma_stage_of_op(m, told, now);
    lemma_reap_passes(m, told, now);
    let all = settled(m, event, index, now);
    assert(all == settle(first.0, first.1, index, now, 2));
    match first.1.request {
        RequestView::Outside(action) => {
            assert(all.notices == said(first.1));
            if first.1.notice is Some {
                assert(all.notices[0] == first.1.notice->Some_0);
            }
        },
        RequestView::Index(op) => {
            let reply = InputView::Index(index_reply(index, op));
            let held = apply_op(index, op, first.0.live);
            let second = next(first.0, reply, now);
            lemma_next_wf(first.0, reply, now);
            lemma_index_budget(first.0, reply, now);
            lemma_stage_of_op(first.0, reply, now);
            lemma_reap_passes(first.0, reply, now);
            let rest = settle(second.0, second.1, held, now, 1);
            assert(all == after(said(first.1), rest));
            match second.1.request {
                RequestView::Outside(action) => {
                    assert(rest.notices == said(second.1));
                    if second.1.notice is Some {
                        assert(all.notices[said(first.1).len() as int] == second.1.notice->Some_0);
                    }
                    lemma_prune_removes_stale(index, first.0.live, name);
                },
                RequestView::Index(op2) => {
                    let reply2 = InputView::Index(index_reply(held, op2));
                    let held2 = apply_op(held, op2, second.0.live);
                    let third = next(second.0, reply2, now);
                    lemma_next_wf(second.0, reply2, now);
                    lemma_index_budget(second.0, reply2, now);
                    lemma_reap_passes(second.0, reply2, now);
                    let last = settle(third.0, third.1, held2, now, 0);
                    assert(rest == after(said(second.1), last));
                    assert(last.notices == said(third.1));
                    if third.1.notice is Some {
                        assert(all.notices[(said(first.1).len() + said(second.1).len()) as int]
                            == third.1.notice->Some_0);
                    }
                    lemma_prune_removes_stale(held, second.0.live, name);
                },
            }
        },
    }
}

} // verus!
