use runner_controller::config::Config;
use runner_controller::github::types::Job;
use runner_controller::listener::JobListener;
use runner_controller::protocol::{Action, Event, Failure, ListenerError, Notice};
use runner_controller::state::{ContainerState, StateDb};

/// A sandbox host and a CI service that live in memory.
struct World {
    sandboxes: Vec<String>,
    exited: Vec<String>,
    runs: Vec<(String, u64, Vec<Job>)>,
    deregistered: Vec<String>,
    destroyed: Vec<String>,
    launched: Vec<(u64, String)>,
    minted: u32,
    sleeps: u32,
    ticks: u32,
    log: Vec<String>,
}

impl World {
    fn new() -> World {
        World {
            sandboxes: vec![],
            exited: vec![],
            runs: vec![],
            deregistered: vec![],
            destroyed: vec![],
            launched: vec![],
            minted: 0,
            sleeps: 0,
            ticks: 1,
            log: vec![],
        }
    }

    fn perform(&mut self, action: &Action) -> Event {
        self.log.push(format!("{:?}", action));
        match action {
            Action::ListSandboxes => Event::Sandboxes(self.sandboxes.clone()),
            Action::IsComplete { name } => Event::Complete(self.exited.contains(name)),
            Action::Deregister { name } => {
                self.deregistered.push(name.clone());
                Event::Done
            }
            Action::Destroy { name } => {
                self.destroyed.push(name.clone());
                self.sandboxes.retain(|n| n != name);
                Event::Done
            }
            Action::CountActive => Event::Count(self.sandboxes.len()),
            Action::ListRuns { status } => Event::Runs(
                self.runs.iter().filter(|r| &r.0 == status).map(|r| r.1).collect(),
            ),
            Action::ListJobs { run_id } => Event::Jobs(
                self.runs.iter().filter(|r| r.1 == *run_id).flat_map(|r| r.2.clone()).collect(),
            ),
            Action::MintCredential => {
                self.minted += 1;
                Event::Credential(format!("token-{}", self.minted))
            }
            Action::Launch { job_id, credential } => {
                let name = format!("ci-runner-{}", job_id);
                self.launched.push((*job_id, credential.clone()));
                self.sandboxes.push(name.clone());
                Event::Launched(name)
            }
            Action::CheckShutdown => Event::Shutdown(false),
            Action::Sleep { .. } => {
                self.sleeps += 1;
                Event::Shutdown(self.sleeps >= self.ticks)
            }
            Action::Finished { .. } => unreachable!(),
        }
    }
}

fn config(max_concurrent_jobs: usize, labels: &[&str]) -> Config {
    Config {
        github_repo: "owner/name".to_string(),
        github_token: "secret".to_string(),
        max_concurrent_jobs,
        poll_interval_secs: 10,
        job_timeout_secs: 7200,
        runner_labels: labels.iter().map(|l| l.to_string()).collect(),
        state_dir: "/var/lib/runner-controller".to_string(),
        http_port: 8080,
    }
}

fn job(id: u64, status: &str, labels: &[&str]) -> Job {
    Job {
        id,
        status: status.to_string(),
        labels: labels.iter().map(|l| l.to_string()).collect(),
        runner_id: None,
    }
}

/// Carries a routine through to its end.
fn drive(
    listener: &mut JobListener,
    index: &mut StateDb,
    world: &mut World,
    first: Action,
    now: u64,
) -> (Result<(), ListenerError>, Vec<Notice>) {
    let mut notices = vec![];
    let mut action = first;
    for _ in 0..10_000 {
        if let Action::Finished { result } = action {
            return (result, notices);
        }
        let event = world.perform(&action);
        let directive = listener.resume_at(index, event, now);
        notices.extend(directive.notices);
        action = directive.action;
    }
    panic!("the routine did not end");
}

fn run(
    listener: &mut JobListener,
    index: &mut StateDb,
    world: &mut World,
    now: u64,
) -> (Result<(), ListenerError>, Vec<Notice>) {
    let first = listener.run();
    drive(listener, index, world, first, now)
}

#[test]
fn single_job_happy_path() {
    let mut listener = JobListener::new(config(2, &["self-hosted", "linux"]));
    let mut index = StateDb::in_memory().unwrap();
    let mut world = World::new();
    world.runs.push(("queued".to_string(), 900, vec![job(42, "queued", &["self-hosted"])]));

    let (result, notices) = run(&mut listener, &mut index, &mut world, 1_000);
    assert_eq!(result, Ok(()));
    assert_eq!(world.sandboxes, vec!["ci-runner-42".to_string()]);
    assert_eq!(world.launched, vec![(42, "token-1".to_string())]);
    assert_eq!(
        index.list_containers().unwrap(),
        vec![("ci-runner-42".to_string(), ContainerState { job_id: 42, started_at: 1_000 })]
    );
    assert_eq!(notices, vec![Notice::Launched { job_id: 42 }]);

    // The sandbox reports complete: the next tick removes it.
    world.exited.push("ci-runner-42".to_string());
    world.runs.clear();
    world.sleeps = 0;
    let (result, notices) = run(&mut listener, &mut index, &mut world, 1_100);
    assert_eq!(result, Ok(()));
    assert!(world.sandboxes.is_empty());
    assert_eq!(world.deregistered, vec!["ci-runner-42".to_string()]);
    assert_eq!(world.destroyed, vec!["ci-runner-42".to_string()]);
    assert_eq!(index.list_containers().unwrap(), vec![]);
    assert_eq!(notices, vec![Notice::Completed { name: "ci-runner-42".to_string() }]);
}

#[test]
fn label_mismatch_launches_nothing() {
    let mut listener = JobListener::new(config(2, &["self-hosted", "linux"]));
    let mut index = StateDb::in_memory().unwrap();
    let mut world = World::new();
    world.ticks = 3;
    world.runs.push(("queued".to_string(), 1, vec![job(43, "queued", &["self-hosted", "windows"])]));

    let (result, notices) = run(&mut listener, &mut index, &mut world, 5);
    assert_eq!(result, Ok(()));
    assert_eq!(world.sleeps, 3);
    assert!(world.launched.is_empty());
    assert_eq!(world.minted, 0);
    assert!(world.sandboxes.is_empty());
    assert_eq!(index.list_containers().unwrap(), vec![]);
    assert_eq!(notices, vec![]);
}

#[test]
fn concurrency_cap_stops_at_two() {
    let mut listener = JobListener::new(config(2, &["self-hosted"]));
    let mut index = StateDb::in_memory().unwrap();
    let mut world = World::new();
    world.runs.push((
        "queued".to_string(),
        1,
        vec![job(1, "queued", &[]), job(2, "queued", &[]), job(3, "queued", &[])],
    ));

    let (result, _) = run(&mut listener, &mut index, &mut world, 5);
    assert_eq!(result, Ok(()));
    assert_eq!(world.sandboxes, vec!["ci-runner-1".to_string(), "ci-runner-2".to_string()]);
    assert_eq!(world.launched.len(), 2);
    assert_eq!(index.get_container("ci-runner-3"), Ok(None));
    let names: Vec<String> = index.list_containers().unwrap().into_iter().map(|e| e.0).collect();
    assert_eq!(names, vec!["ci-runner-1".to_string(), "ci-runner-2".to_string()]);
}

#[test]
fn orphan_is_reaped_at_startup() {
    let mut listener = JobListener::new(config(2, &["self-hosted"]));
    let mut index = StateDb::in_memory().unwrap();
    let mut world = World::new();
    world.sandboxes.push("ci-runner-99".to_string());
    // At startup only a sandbox whose runner has exited, or cannot be asked,
    // is cleaned up.
    world.exited.push("ci-runner-99".to_string());

    let first = listener.reconcile_on_startup();
    let (result, notices) = drive(&mut listener, &mut index, &mut world, first, 5);
    assert_eq!(result, Ok(()));
    assert!(world.sandboxes.is_empty());
    assert_eq!(world.destroyed, vec!["ci-runner-99".to_string()]);
    assert_eq!(world.deregistered, vec!["ci-runner-99".to_string()]);
    assert_eq!(notices, vec![Notice::Completed { name: "ci-runner-99".to_string() }]);
}

#[test]
fn orphan_is_reaped_by_a_tick() {
    let mut listener = JobListener::new(config(2, &["self-hosted"]));
    let mut index = StateDb::in_memory().unwrap();
    let mut world = World::new();
    world.sandboxes.push("ci-runner-99".to_string());

    let (result, notices) = run(&mut listener, &mut index, &mut world, 5);
    assert_eq!(result, Ok(()));
    assert!(world.sandboxes.is_empty());
    assert_eq!(world.deregistered, vec!["ci-runner-99".to_string()]);
    assert_eq!(notices, vec![Notice::Orphaned { name: "ci-runner-99".to_string() }]);
}

#[test]
fn stale_state_is_removed_by_a_tick() {
    let mut listener = JobListener::new(config(2, &["self-hosted"]));
    let mut index = StateDb::in_memory().unwrap();
    index.put_container("ci-runner-7", &ContainerState { job_id: 7, started_at: 1 }).unwrap();
    let mut world = World::new();

    let (result, _) = run(&mut listener, &mut index, &mut world, 5);
    assert_eq!(result, Ok(()));
    assert_eq!(index.get_container("ci-runner-7"), Ok(None));
    assert!(world.destroyed.is_empty());
}

#[test]
fn timeout_cleans_up_and_warns() {
    let mut listener = JobListener::new(config(2, &["self-hosted"]));
    let mut index = StateDb::in_memory().unwrap();
    let now = 1_000_000;
    let started_at = now - (7200 + 1);
    index.put_container("ci-runner-5", &ContainerState { job_id: 5, started_at }).unwrap();
    let mut world = World::new();
    world.sandboxes.push("ci-runner-5".to_string());

    let (result, notices) = run(&mut listener, &mut index, &mut world, now);
    assert_eq!(result, Ok(()));
    assert_eq!(world.deregistered, vec!["ci-runner-5".to_string()]);
    assert_eq!(world.destroyed, vec!["ci-runner-5".to_string()]);
    assert_eq!(index.get_container("ci-runner-5"), Ok(None));
    assert_eq!(
        notices,
        vec![Notice::TimedOut {
            name: "ci-runner-5".to_string(),
            running_secs: 7201,
            timeout_secs: 7200
        }]
    );
}

#[test]
fn a_sandbox_at_the_timeout_is_left_alone() {
    let mut listener = JobListener::new(config(2, &["self-hosted"]));
    let mut index = StateDb::in_memory().unwrap();
    let now = 1_000_000;
    index
        .put_container("ci-runner-5", &ContainerState { job_id: 5, started_at: now - 7200 })
        .unwrap();
    let mut world = World::new();
    world.sandboxes.push("ci-runner-5".to_string());

    let (result, notices) = run(&mut listener, &mut index, &mut world, now);
    assert_eq!(result, Ok(()));
    assert_eq!(world.sandboxes, vec!["ci-runner-5".to_string()]);
    assert_eq!(notices, vec![]);
    assert!(index.get_container("ci-runner-5").unwrap().is_some());
}

#[test]
fn drain_cleans_everything_and_clears_the_index() {
    let mut listener = JobListener::new(config(2, &["self-hosted"]));
    let mut index = StateDb::in_memory().unwrap();
    index.put_container("ci-runner-1", &ContainerState { job_id: 1, started_at: 1 }).unwrap();
    index.put_container("ci-runner-8", &ContainerState { job_id: 8, started_at: 1 }).unwrap();
    let mut world = World::new();
    world.sandboxes = vec!["ci-runner-1".to_string(), "ci-runner-2".to_string()];

    let first = listener.shutdown();
    let (result, notices) = drive(&mut listener, &mut index, &mut world, first, 5);
    assert_eq!(result, Ok(()));
    assert!(world.sandboxes.is_empty());
    assert_eq!(world.destroyed, vec!["ci-runner-1".to_string(), "ci-runner-2".to_string()]);
    assert_eq!(index.list_containers().unwrap(), vec![]);
    assert_eq!(notices, vec![]);
}

#[test]
fn unauthorized_ends_the_run() {
    let mut listener = JobListener::new(config(2, &["self-hosted"]));
    let mut index = StateDb::in_memory().unwrap();
    let refused = Failure { fatal: true, message: "unauthorized".to_string() };

    assert_eq!(listener.run(), Action::ListSandboxes);
    let d = listener.resume_at(&mut index, Event::Sandboxes(vec![]), 1);
    assert_eq!(d.action, Action::CheckShutdown);
    let d = listener.resume_at(&mut index, Event::Shutdown(false), 1);
    assert_eq!(d.action, Action::ListSandboxes);
    let d = listener.resume_at(&mut index, Event::Sandboxes(vec![]), 1);
    assert_eq!(d.action, Action::CountActive);
    let d = listener.resume_at(&mut index, Event::Count(0), 1);
    assert_eq!(d.action, Action::ListRuns { status: "queued".to_string() });
    let d = listener.resume_at(&mut index, Event::Failed(refused.clone()), 1);
    assert_eq!(d.action, Action::Finished { result: Err(ListenerError::Outside(refused)) });
}

#[test]
fn a_waiting_job_is_launched_once() {
    let mut listener = JobListener::new(config(3, &["self-hosted"]));
    let mut index = StateDb::in_memory().unwrap();
    let mut world = World::new();
    world.ticks = 4;
    // The job stays queued for as long as the test runs, and is reported
    // under two runs at once.
    world.runs.push(("queued".to_string(), 1, vec![job(42, "queued", &["self-hosted"])]));
    world.runs.push(("in_progress".to_string(), 2, vec![job(42, "queued", &["self-hosted"])]));

    let (result, notices) = run(&mut listener, &mut index, &mut world, 10);
    assert_eq!(result, Ok(()));
    assert_eq!(world.sleeps, 4);
    assert_eq!(world.launched.len(), 1);
    assert_eq!(world.minted, 1);
    assert_eq!(notices, vec![Notice::Launched { job_id: 42 }]);

    // Even when the sandbox is not in the inventory, the index remembers it
    // until the reap phase of the next tick has removed the stale entry.
    let mut listener = JobListener::new(config(3, &["self-hosted"]));
    let mut index = StateDb::in_memory().unwrap();
    index.put_container("ci-runner-42", &ContainerState { job_id: 42, started_at: 1 }).unwrap();
    assert_eq!(listener.run(), Action::ListSandboxes);
    let d = listener.resume_at(&mut index, Event::Sandboxes(vec!["ci-runner-42".to_string()]), 5);
    assert_eq!(d.action, Action::IsComplete { name: "ci-runner-42".to_string() });
    let d = listener.resume_at(&mut index, Event::Complete(false), 5);
    assert_eq!(d.action, Action::CheckShutdown);
    let d = listener.resume_at(&mut index, Event::Shutdown(false), 5);
    assert_eq!(d.action, Action::ListSandboxes);
    let d = listener.resume_at(&mut index, Event::Sandboxes(vec!["ci-runner-42".to_string()]), 5);
    let d = match d.action {
        Action::IsComplete { .. } => listener.resume_at(&mut index, Event::Complete(false), 5),
        other => panic!("unexpected {:?}", other),
    };
    assert_eq!(d.action, Action::CountActive);
    let d = listener.resume_at(&mut index, Event::Count(0), 5);
    assert_eq!(d.action, Action::ListRuns { status: "queued".to_string() });
    let d = listener.resume_at(&mut index, Event::Runs(vec![1]), 5);
    assert_eq!(d.action, Action::ListJobs { run_id: 1 });
    let d = listener.resume_at(&mut index, Event::Jobs(vec![job(42, "queued", &[])]), 5);
    assert_eq!(d.action, Action::ListRuns { status: "waiting".to_string() });
    listener.resume_at(&mut index, Event::Runs(vec![]), 5);
    listener.resume_at(&mut index, Event::Runs(vec![]), 5);
    let d = listener.resume_at(&mut index, Event::Runs(vec![]), 5);
    assert_eq!(d.action, Action::ListSandboxes);
    // The driver no longer shows the sandbox, but the index holds its entry.
    let d = listener.resume_at(&mut index, Event::Sandboxes(vec![]), 5);
    assert_eq!(d.action, Action::CountActive);
    let d = listener.resume_at(&mut index, Event::Count(0), 5);
    assert_eq!(d.action, Action::Sleep { seconds: 10 });
}

#[test]
fn startup_reconcile_removes_stale_state() {
    let mut listener = JobListener::new(config(2, &["self-hosted"]));
    let mut index = StateDb::in_memory().unwrap();
    index.put_container("ci-runner-1", &ContainerState { job_id: 1, started_at: 1 }).unwrap();
    index.put_container("ci-runner-7", &ContainerState { job_id: 7, started_at: 1 }).unwrap();
    let mut world = World::new();
    world.sandboxes.push("ci-runner-1".to_string());

    let first = listener.reconcile_on_startup();
    let (result, notices) = drive(&mut listener, &mut index, &mut world, first, 5);
    assert_eq!(result, Ok(()));
    assert_eq!(notices, vec![]);
    assert_eq!(world.sandboxes, vec!["ci-runner-1".to_string()]);
    assert_eq!(
        index.list_containers().unwrap(),
        vec![("ci-runner-1".to_string(), ContainerState { job_id: 1, started_at: 1 })]
    );
}

#[test]
fn resume_goes_by_the_system_clock() {
    let mut listener = JobListener::new(config(2, &["self-hosted"]));
    let mut index = StateDb::in_memory().unwrap();
    let mut world = World::new();
    world.runs.push(("pending".to_string(), 3, vec![job(8, "pending", &[])]));

    let mut action = listener.run();
    for _ in 0..1000 {
        if let Action::Finished { result } = action {
            assert_eq!(result, Ok(()));
            break;
        }
        let event = world.perform(&action);
        action = listener.resume(&mut index, event).action;
    }
    let recorded = index.get_container("ci-runner-8").unwrap().unwrap();
    assert_eq!(recorded.job_id, 8);
    assert!(recorded.started_at > 1_577_836_800);
    assert!(recorded.running_seconds() < 60);
}
