use runner_controller::github::client::{
    classify, rate_limit_low, CiError, Class, Exchange, GitHubClient, Method, Reply, Verdict,
};
use runner_controller::github::types::{Job, Runner};

fn client() -> GitHubClient {
    GitHubClient::new("owner/name".to_string(), "s3cret".to_string())
}

#[test]
fn requests_carry_url_and_headers() {
    let request = client().list_runners();
    assert_eq!(request.method, Method::Get);
    assert_eq!(request.endpoint, "/repos/owner/name/actions/runners?per_page=100");
    assert_eq!(request.url, "https://api.github.com/repos/owner/name/actions/runners?per_page=100");
    assert_eq!(request.authorization, "token s3cret");
    assert_eq!(request.accept, "application/vnd.github.v3+json");
    assert_eq!(request.user_agent, "runner-controller/0.1.0");
    assert_eq!(request.timeout_secs, 30);
}

#[test]
fn each_operation_has_its_endpoint() {
    let c = client();
    let token = c.get_registration_token();
    assert_eq!(token.method, Method::Post);
    assert_eq!(token.endpoint, "/repos/owner/name/actions/runners/registration-token");
    let delete = c.delete_runner(1234567890123);
    assert_eq!(delete.method, Method::Delete);
    assert_eq!(delete.endpoint, "/repos/owner/name/actions/runners/1234567890123");
    let runs = c.list_workflow_runs("in_progress");
    assert_eq!(runs.method, Method::Get);
    assert_eq!(runs.endpoint, "/repos/owner/name/actions/runs?status=in_progress");
    let jobs = c.list_jobs_for_run(0);
    assert_eq!(jobs.method, Method::Get);
    assert_eq!(jobs.endpoint, "/repos/owner/name/actions/runs/0/jobs");
    assert_eq!(jobs.url, "https://api.github.com/repos/owner/name/actions/runs/0/jobs");
}

#[test]
fn find_runner_by_name_takes_the_first_match() {
    let runners = vec![
        Runner { id: 1, name: "ci-runner-1".to_string() },
        Runner { id: 7, name: "ci-runner-42".to_string() },
        Runner { id: 9, name: "ci-runner-42".to_string() },
    ];
    assert_eq!(GitHubClient::find_runner_by_name(&runners, "ci-runner-42"), Some(7));
    assert_eq!(GitHubClient::find_runner_by_name(&runners, "ci-runner-4"), None);
    assert_eq!(GitHubClient::find_runner_by_name(&vec![], "ci-runner-42"), None);
}

#[test]
fn delete_by_name_of_an_absent_runner_has_nothing_to_do() {
    let runners = vec![Runner { id: 1, name: "ci-runner-1".to_string() }];
    assert_eq!(client().delete_runner_by_name(&runners, "ci-runner-42"), None);
    let request = client().delete_runner_by_name(&runners, "ci-runner-1").unwrap();
    assert_eq!(request.method, Method::Delete);
    assert_eq!(request.endpoint, "/repos/owner/name/actions/runners/1");
}

#[test]
fn delete_of_an_absent_runner_succeeds() {
    let mut exchange = Exchange::new(Method::Delete);
    assert_eq!(exchange.reply(Reply::Status(404)), Verdict::Done);
    assert!(exchange.over);
    assert_eq!(exchange.attempts, 1);
}

#[test]
fn statuses_are_classified_by_method() {
    assert_eq!(classify(Method::Get, 200), Class::Success);
    assert_eq!(classify(Method::Get, 201), Class::Retriable);
    assert_eq!(classify(Method::Get, 204), Class::Retriable);
    assert_eq!(classify(Method::Post, 200), Class::Success);
    assert_eq!(classify(Method::Post, 201), Class::Success);
    assert_eq!(classify(Method::Delete, 200), Class::Success);
    assert_eq!(classify(Method::Delete, 204), Class::Success);
    assert_eq!(classify(Method::Delete, 404), Class::Success);
    assert_eq!(classify(Method::Get, 404), Class::Rejected(CiError::NotFound));
    assert_eq!(classify(Method::Post, 404), Class::Rejected(CiError::NotFound));
    for method in [Method::Get, Method::Post, Method::Delete] {
        assert_eq!(classify(method, 401), Class::Rejected(CiError::Unauthorized));
        assert_eq!(classify(method, 403), Class::Retriable);
        assert_eq!(classify(method, 429), Class::Retriable);
        assert_eq!(classify(method, 500), Class::Retriable);
        assert_eq!(classify(method, 503), Class::Retriable);
        assert_eq!(classify(method, 302), Class::Retriable);
    }
}

#[test]
fn retry_exhaustion_takes_three_attempts() {
    let mut exchange = Exchange::new(Method::Get);
    let mut sent = 1;
    assert_eq!(exchange.reply(Reply::Status(500)), Verdict::Wait(1000));
    assert_eq!(exchange.woken(), Verdict::Send);
    sent += 1;
    assert_eq!(exchange.reply(Reply::NoAnswer), Verdict::Wait(2000));
    assert_eq!(exchange.woken(), Verdict::Send);
    sent += 1;
    assert_eq!(exchange.reply(Reply::Status(429)), Verdict::Wait(4000));
    assert_eq!(exchange.woken(), Verdict::Failed(CiError::Exhausted));
    assert_eq!(sent, 3);
    assert_eq!(exchange.attempts, 3);
    // Nothing is sent after that.
    assert_eq!(exchange.woken(), Verdict::Failed(CiError::Exhausted));
    assert_eq!(exchange.reply(Reply::Status(200)), Verdict::Failed(CiError::Exhausted));
}

#[test]
fn unauthorized_is_not_retried() {
    let mut exchange = Exchange::new(Method::Post);
    assert_eq!(exchange.reply(Reply::Status(401)), Verdict::Failed(CiError::Unauthorized));
    assert!(exchange.over);
    assert_eq!(exchange.woken(), Verdict::Failed(CiError::Exhausted));
}

#[test]
fn success_after_a_retry() {
    let mut exchange = Exchange::new(Method::Post);
    assert_eq!(exchange.reply(Reply::Status(403)), Verdict::Wait(1000));
    assert_eq!(exchange.woken(), Verdict::Send);
    assert_eq!(exchange.reply(Reply::Status(201)), Verdict::Done);
    assert_eq!(exchange.attempts, 2);
}

#[test]
fn rate_limit_warns_below_one_hundred() {
    assert_eq!(rate_limit_low("99"), Some(99));
    assert_eq!(rate_limit_low("0"), Some(0));
    assert_eq!(rate_limit_low("+7"), Some(7));
    assert_eq!(rate_limit_low("007"), Some(7));
    assert_eq!(rate_limit_low("100"), None);
    assert_eq!(rate_limit_low("4999"), None);
    assert_eq!(rate_limit_low(""), None);
    assert_eq!(rate_limit_low("+"), None);
    assert_eq!(rate_limit_low("-1"), None);
    assert_eq!(rate_limit_low(" 5"), None);
    assert_eq!(rate_limit_low("5 "), None);
    assert_eq!(rate_limit_low("4294967296"), None);
    assert_eq!(rate_limit_low("٣"), None);
}

#[test]
fn errors_become_failures() {
    let refused = CiError::Unauthorized.failure("/repos/o/n/actions/runners");
    assert!(refused.fatal);
    assert_eq!(refused.message, "GitHub API unauthorized - check token");
    let missing = CiError::NotFound.failure("/repos/o/n/x");
    assert!(!missing.fatal);
    assert_eq!(missing.message, "GitHub API resource not found: /repos/o/n/x");
    let spent = CiError::Exhausted.failure("/repos/o/n/x");
    assert!(!spent.fatal);
    assert_eq!(spent.message, "GitHub API request failed after 3 retries: /repos/o/n/x");
    let unread = CiError::Malformed.failure("/repos/o/n/x");
    assert!(!unread.fatal);
    assert_eq!(unread.message, "Failed to parse JSON response");
}

#[test]
fn waiting_and_assigned_jobs() {
    let mut job = Job { id: 1, status: "queued".to_string(), labels: vec![], runner_id: None };
    assert!(job.is_waiting());
    assert!(!job.has_runner());
    job.status = "waiting".to_string();
    assert!(job.is_waiting());
    job.status = "pending".to_string();
    assert!(job.is_waiting());
    job.status = "in_progress".to_string();
    assert!(!job.is_waiting());
    job.status = "completed".to_string();
    assert!(!job.is_waiting());
    job.status = "Queued".to_string();
    assert!(!job.is_waiting());
    job.status = "".to_string();
    assert!(!job.is_waiting());
    job.runner_id = Some(0);
    assert!(!job.has_runner());
    job.runner_id = Some(17);
    assert!(job.has_runner());
}
