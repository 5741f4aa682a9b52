//! The requests that the controller makes of the CI service, and what it does
//! with the answers.
//!
//! Nothing here sends anything. [`GitHubClient`] writes the requests;
//! [`Exchange`] follows one request through its attempts and says after each
//! answer whether to take it, to wait and send again, or to give up.

use crate::github::types::Runner;
use crate::protocol::Failure;
use crate::text::{decimal, parse_unsigned, push_decimal, same_text, unsigned_upto};
use vstd::prelude::*;

verus! {

/// How often a request is sent at most.
pub const MAX_RETRIES: u32 = 3;

/// How long the wait is after the first attempt, in milliseconds. Each later
/// wait is twice the one before.
pub const INITIAL_BACKOFF_MS: u64 = 1000;

/// Below this many requests left in the rate limit a warning is due.
pub const RATE_LIMIT_WARNING: u32 = 100;

/// How long one attempt may take, in seconds.
pub const REQUEST_TIMEOUT_SECS: u64 = 30;

// ---------------------------------------------------------------------------
// Requests
// ---------------------------------------------------------------------------

#[derive(Debug, Clone, Copy, PartialEq, Eq, Structural)]
pub enum Method {
    Get,
    Post,
    Delete,
}

/// One request to the CI service.
#[derive(Debug, Clone, PartialEq, Eq)]
pub struct Request {
    pub method: Method,
    /// The path and query below the API's base.
    pub endpoint: String,
    pub url: String,
    /// The value of the `Authorization` header.
    pub authorization: String,
    /// The value of the `Accept` header.
    pub accept: String,
    /// The value of the `User-Agent` header.
    pub user_agent: String,
    /// How long the request may take, in seconds.
    pub timeout_secs: u64,
}

/// Where the registration token for new runners is asked for.
pub open spec fn registration_token_endpoint(repo: Seq<char>) -> Seq<char> {
    "/repos/"@ + repo + "/actions/runners/registration-token"@
}

/// Where the runners of the repository are listed, a hundred to the page.
pub open spec fn runners_endpoint(repo: Seq<char>) -> Seq<char> {
    "/repos/"@ + repo + "/actions/runners?per_page=100"@
}

/// Where one runner lives.
pub open spec fn runner_endpoint(repo: Seq<char>, runner_id: u64) -> Seq<char> {
    "/repos/"@ + repo + "/actions/runners/"@ + decimal(runner_id as nat)
}

/// Where the workflow runs in one state are listed.
pub open spec fn runs_endpoint(repo: Seq<char>, status: Seq<char>) -> Seq<char> {
    "/repos/"@ + repo + "/actions/runs?status="@ + status
}

/// Where the jobs of one workflow run are listed.
pub open spec fn jobs_endpoint(repo: Seq<char>, run_id: u64) -> Seq<char> {
    "/repos/"@ + repo + "/actions/runs/"@ + decimal(run_id as nat) + "/jobs"@
}

/// The request for `endpoint` by `method` with the credential `token`.
pub open spec fn is_request(
    request: Request,
    method: Method,
    endpoint: Seq<char>,
    token: Seq<char>,
) -> bool {
    &&& request.method == method
    &&& request.endpoint@ == endpoint
    &&& request.url@ == "https://api.github.com"@ + endpoint
    &&& request.authorization@ == "token "@ + token
    &&& request.accept@ == "application/vnd.github.v3+json"@
    &&& request.user_agent@ == "runner-controller/0.1.0"@
    &&& request.timeout_secs == REQUEST_TIMEOUT_SECS
}

/// The id of the first runner of this name, if there is one.
pub open spec fn first_named(runners: Seq<Runner>, name: Seq<char>) -> Option<u64>
    decreases runners.len(),
{
    if runners.len() == 0 {
        None
    } else if runners[0].name@ == name {
        Some(runners[0].id)
    } else {
        first_named(runners.drop_first(), name)
    }
}

pub struct GitHubClient {
    repo: String,
    token: String,
}

impl GitHubClient {
    /// The repository that the requests are about.
    pub closed spec fn repo(&self) -> Seq<char> {
        self.repo@
    }

    /// The credential that the requests carry.
    pub closed spec fn token(&self) -> Seq<char> {
        self.token@
    }

    pub fn new(repo: String, token: String) -> (client: Self)
        ensures
            client.repo() == repo@,
            client.token() == token@,
    {
        GitHubClient { repo, token }
    }

    fn request(&self, method: Method, endpoint: String) -> (request: Request)
        ensures
            is_request(request, method, endpoint@, self.token()),
    {
        let mut url = String::from_str("https://api.github.com");
        url.append(endpoint.as_str());
        let mut authorization = String::from_str("token ");
        authorization.append(self.token.as_str());
        Request {
            method,
            endpoint,
            url,
            authorization,
            accept: String::from_str("application/vnd.github.v3+json"),
            user_agent: String::from_str("runner-controller/0.1.0"),
            timeout_secs: REQUEST_TIMEOUT_SECS,
        }
    }

    /// Get a registration token for new runners
    pub fn get_registration_token(&self) -> (request: Request)
        ensures
            is_request(
                request,
                Method::Post,
                registration_token_endpoint(self.repo()),
                self.token(),
            ),
    {
        let mut endpoint = String::from_str("/repos/");
        endpoint.append(self.repo.as_str());
        endpoint.append("/actions/runners/registration-token");
        self.request(Method::Post, endpoint)
    }

    /// List all runners for the repository
    pub fn list_runners(&self) -> (request: Request)
        ensures
            is_request(request, Method::Get, runners_endpoint(self.repo()), self.token()),
    {
        let mut endpoint = String::from_str("/repos/");
        endpoint.append(self.repo.as_str());
        endpoint.append("/actions/runners?per_page=100");
        self.request(Method::Get, endpoint)
    }

    /// Delete a runner by ID
    pub fn delete_runner(&self, runner_id: u64) -> (request: Request)
        ensures
            is_request(
                request,
                Method::Delete,
                runner_endpoint(self.repo(), runner_id),
                self.token(),
            ),
    {
        let mut endpoint = String::from_str("/repos/");
        endpoint.append(self.repo.as_str());
        endpoint.append("/actions/runners/");
        push_decimal(&mut endpoint, runner_id);
        self.request(Method::Delete, endpoint)
    }

    /// List the workflow runs that are in the state `status`.
    pub fn list_workflow_runs(&self, status: &str) -> (request: Request)
        ensures
            is_request(request, Method::Get, runs_endpoint(self.repo(), status@), self.token()),
    {
        let mut endpoint = String::from_str("/repos/");
        endpoint.append(self.repo.as_str());
        endpoint.append("/actions/runs?status=");
        endpoint.append(status);
        self.request(Method::Get, endpoint)
    }

    /// List the jobs of the workflow run `run_id`.
    pub fn list_jobs_for_run(&self, run_id: u64) -> (request: Request)
        ensures
            is_request(request, Method::Get, jobs_endpoint(self.repo(), run_id), self.token()),
    {
        let mut endpoint = String::from_str("/repos/");
        endpoint.append(self.repo.as_str());
        endpoint.append("/actions/runs/");
        push_decimal(&mut endpoint, run_id);
        endpoint.append("/jobs");
        self.request(Method::Get, endpoint)
    }

    /// Find a runner by name and return its ID
    pub fn find_runner_by_name(runners: &Vec<Runner>, name: &str) -> (found: Option<u64>)
        ensures
            found == first_named(runners@, name@),
    {
        let mut i: usize = 0;
        assert(runners@.subrange(0, runners.len() as int) == runners@);
        while i < runners.len()
            invariant
                i <= runners.len(),
                first_named(runners@, name@) == first_named(
                    runners@.subrange(i as int, runners.len() as int),
                    name@,
                ),
            decreases runners.len() - i,
        {
            let ghost rest = runners@.subrange(i as int, runners.len() as int);
            assert(rest[0] == runners@[i as int]);
            if same_text(runners[i].name.as_str(), name) {
                return Some(runners[i].id);
            }
            assert(rest.drop_first() == runners@.subrange(i + 1, runners.len() as int));
            i += 1;
        }
        None
    }

    /// Delete a runner by name (convenience method)
    ///
    /// Among `runners`, the runners that the CI service lists, the first of
    /// this name is to be deleted: the result is the request that does it.
    /// Where no runner has this name there is nothing to do.
    pub fn delete_runner_by_name(&self, runners: &Vec<Runner>, name: &str) -> (request: Option<
        Request,
    >)
        ensures
            match first_named(runners@, name@) {
                Some(runner_id) => request matches Some(delete) && is_request(
                    delete,
                    Method::Delete,
                    runner_endpoint(self.repo(), runner_id),
                    self.token(),
                ),
                None => request is None,
            },
    {
        match Self::find_runner_by_name(runners, name) {
            Some(runner_id) => Some(self.delete_runner(runner_id)),
            None => None,
        }
    }
}

// ---------------------------------------------------------------------------
// Answers
// ---------------------------------------------------------------------------

/// Why a request to the CI service came to nothing.
#[derive(Debug, Clone, Copy, PartialEq, Eq, Structural)]
pub enum CiError {
    /// The service refuses the credential (401).
    Unauthorized,
    /// The service knows no such resource (404).
    NotFound,
    /// Every attempt failed.
    Exhausted,
    /// The answer could not be read.
    Malformed,
}

/// What an answer's status means for the request.
#[derive(Debug, Clone, Copy, PartialEq, Eq, Structural)]
pub enum Class {
    /// The answer is the one hoped for.
    Success,
    /// The request is not to be sent again.
    Rejected(CiError),
    /// The request is to be sent again after a wait.
    Retriable,
}

/// What the status `code` means for a request by `method`: 200 is success,
/// and so is 201 for a POST and 204 for a DELETE; a DELETE of what is not
/// there (404) is success too; 401 is the end of it, and so is 404 for the
/// other methods; anything else is worth another attempt.
pub open spec fn class_of(method: Method, code: u16) -> Class {
    if code == 200 || (method == Method::Post && code == 201) || (method == Method::Delete && (code
        == 204 || code == 404)) {
        Class::Success
    } else if code == 401 {
        Class::Rejected(CiError::Unauthorized)
    } else if code == 404 {
        Class::Rejected(CiError::NotFound)
    } else {
        Class::Retriable
    }
}

/// What the status `code` means for a request by `method`.
pub fn classify(method: Method, code: u16) -> (class: Class)
    ensures
        class == class_of(method, code),
{
    let expected = match method {
        Method::Get => code == 200,
        Method::Post => code == 200 || code == 201,
        Method::Delete => code == 200 || code == 204 || code == 404,
    };
    if expected {
        Class::Success
    } else if code == 401 {
        Class::Rejected(CiError::Unauthorized)
    } else if code == 404 {
        Class::Rejected(CiError::NotFound)
    } else {
        Class::Retriable
    }
}

/// The requests left in the rate limit, as the header says it, when that is
/// a number below the warning threshold.
pub open spec fn low_quota(header: Seq<char>) -> Option<u32> {
    match unsigned_upto(header, u32::MAX as nat) {
        Some(left) => if left < RATE_LIMIT_WARNING {
            Some(left as u32)
        } else {
            None
        },
        None => None,
    }
}

/// Reads the header that tells how many requests are left in the rate limit.
/// The result is that number where a warning is due.
pub fn rate_limit_low(header: &str) -> (low: Option<u32>)
    ensures
        low == low_quota(header@),
{
    match parse_unsigned(header, u32::MAX as u64) {
        Some(left) => if left < RATE_LIMIT_WARNING as u64 {
            Some(left as u32)
        } else {
            None
        },
        None => None,
    }
}

/// What came of one attempt.
#[derive(Debug, Clone, Copy, PartialEq, Eq, Structural)]
pub enum Reply {
    /// The service answered with this status.
    Status(u16),
    /// No answer came.
    NoAnswer,
}

/// What is to be done next with a request.
#[derive(Debug, Clone, Copy, PartialEq, Eq, Structural)]
pub enum Verdict {
    /// Send the request.
    Send,
    /// Wait for so many milliseconds, then ask again with `woken`.
    Wait(u64),
    /// The request succeeded. The answer's body, if the request has one, is
    /// the result.
    Done,
    /// The request failed.
    Failed(CiError),
}

/// One request on its way through its attempts.
#[derive(Debug, Clone, Copy, PartialEq, Eq, Structural)]
pub struct Exchange {
    pub method: Method,
    /// How many attempts have been made.
    pub attempts: u32,
    /// The exchange is over.
    pub over: bool,
}

/// The wait after the attempt of this number, in milliseconds: a second after
/// the first, and after each later one twice the wait before.
pub open spec fn backoff_after(attempt: nat) -> nat
    decreases attempt,
{
    if attempt <= 1 {
        INITIAL_BACKOFF_MS as nat
    } else {
        2 * backoff_after((attempt - 1) as nat)
    }
}

/// The waits are one, two and four seconds.
pub proof fn lemma_backoff()
    ensures
        backoff_after(1) == 1000,
        backoff_after(2) == 2000,
        backoff_after(3) == 4000,
{
    reveal_with_fuel(backoff_after, 4);
}

/// The wait after the attempt of this number.
fn backoff(attempt: u32) -> (wait: u64)
    requires
        1 <= attempt <= MAX_RETRIES,
    ensures
        wait == backoff_after(attempt as nat),
{
    proof {
        lemma_backoff();
    }
    let mut wait: u64 = INITIAL_BACKOFF_MS;
    let mut made: u32 = 1;
    while made < attempt
        invariant
            1 <= made <= attempt <= MAX_RETRIES,
            wait == backoff_after(made as nat),
            wait <= 4000,
        decreases attempt - made,
    {
        proof {
            lemma_backoff();
        }
        wait = 2 * wait;
        made = made + 1;
    }
    wait
}

impl Exchange {
    /// No attempt is left: the exchange is over, or as many attempts have
    /// been made as may be.
    pub open spec fn spent(self) -> bool {
        self.over || self.attempts >= MAX_RETRIES
    }

    /// The exchange after an answer, and what is to be done.
    pub open spec fn after_reply(self, reply: Reply) -> (Exchange, Verdict) {
        if self.spent() {
            (Exchange { over: true, ..self }, Verdict::Failed(CiError::Exhausted))
        } else {
            let tried = Exchange { attempts: (self.attempts + 1) as u32, ..self };
            let class = match reply {
                Reply::Status(code) => class_of(self.method, code),
                Reply::NoAnswer => Class::Retriable,
            };
            match class {
                Class::Success => (Exchange { over: true, ..tried }, Verdict::Done),
                Class::Rejected(error) => (Exchange { over: true, ..tried }, Verdict::Failed(error)),
                Class::Retriable => (
                    tried,
                    Verdict::Wait(backoff_after(tried.attempts as nat) as u64),
                ),
            }
        }
    }

    /// The exchange after a wait, and what is to be done: another attempt
    /// while there is one left.
    pub open spec fn after_wait(self) -> (Exchange, Verdict) {
        if self.spent() {
            (Exchange { over: true, ..self }, Verdict::Failed(CiError::Exhausted))
        } else {
            (self, Verdict::Send)
        }
    }

    /// A request by `method` before its first attempt.
    pub fn new(method: Method) -> (exchange: Exchange)
        ensures
            exchange == (Exchange { method, attempts: 0, over: false }),
    {
        Exchange { method, attempts: 0, over: false }
    }

    /// Takes in what came of an attempt.
    pub fn reply(&mut self, reply: Reply) -> (verdict: Verdict)
        ensures
            (*final(self), verdict) == old(self).after_reply(reply),
    {
        if self.over || self.attempts >= MAX_RETRIES {
            self.over = true;
            return Verdict::Failed(CiError::Exhausted);
        }
        self.attempts = self.attempts + 1;
        let class = match reply {
            Reply::Status(code) => classify(self.method, code),
            Reply::NoAnswer => Class::Retriable,
        };
        match class {
            Class::Success => {
                self.over = true;
                Verdict::Done
            },
            Class::Rejected(error) => {
                self.over = true;
                Verdict::Failed(error)
            },
            Class::Retriable => Verdict::Wait(backoff(self.attempts)),
        }
    }

    /// Goes on after a wait.
    pub fn woken(&mut self) -> (verdict: Verdict)
        ensures
            (*final(self), verdict) == old(self).after_wait(),
    {
        if self.over || self.attempts >= MAX_RETRIES {
            self.over = true;
            Verdict::Failed(CiError::Exhausted)
        } else {
            Verdict::Send
        }
    }
}

/// A reply after which the request is worth another attempt.
pub open spec fn is_retriable(method: Method, reply: Reply) -> bool {
    match reply {
        Reply::Status(code) => class_of(method, code) == Class::Retriable,
        Reply::NoAnswer => true,
    }
}

/// A request whose every attempt fails is sent three times, with waits of
/// one, two and four seconds after the attempts, and then fails.
pub proof fn lemma_retry_exhaustion(method: Method, first: Reply, second: Reply, third: Reply)
    requires
        is_retriable(method, first),
        is_retriable(method, second),
        is_retriable(method, third),
    ensures
        ({
            let fresh = Exchange { method, attempts: 0, over: false };
            let one = fresh.after_reply(first);
            let two = one.0.after_wait().0.after_reply(second);
            let three = two.0.after_wait().0.after_reply(third);
            &&& one.1 == Verdict::Wait(1000)
            &&& one.0.after_wait().1 == Verdict::Send
            &&& two.1 == Verdict::Wait(2000)
            &&& two.0.after_wait().1 == Verdict::Send
            &&& three.1 == Verdict::Wait(4000)
            &&& three.0.attempts == 3
            &&& three.0.after_wait().1 == Verdict::Failed(CiError::Exhausted)
        }),
{
    lemma_backoff();
}

/// Once no attempt is left, nothing is sent any more.
pub proof fn lemma_spent_stays_spent(exchange: Exchange, reply: Reply)
    requires
        exchange.spent(),
    ensures
        exchange.after_wait().1 == Verdict::Failed(CiError::Exhausted),
        exchange.after_reply(reply).1 == Verdict::Failed(CiError::Exhausted),
        exchange.after_wait().0.spent(),
        exchange.after_reply(reply).0.spent(),
{
}

/// A status of success or rejection ends the exchange at once, whatever the
/// attempt.
pub proof fn lemma_answer_ends_exchange(exchange: Exchange, code: u16)
    requires
        !exchange.spent(),
        class_of(exchange.method, code) != Class::Retriable,
    ensures
        exchange.after_reply(Reply::Status(code)).0.over,
        !(exchange.after_reply(Reply::Status(code)).1 is Wait),
        !(exchange.after_reply(Reply::Status(code)).1 is Send),
{
}

impl CiError {
    /// Whether the controller cannot go on after this error: only when the
    /// service refuses its credential.
    pub open spec fn fatal(self) -> bool {
        self == CiError::Unauthorized
    }

    /// What the error says of a request for `endpoint`.
    pub open spec fn message(self, endpoint: Seq<char>) -> Seq<char> {
        match self {
            CiError::Unauthorized => "GitHub API unauthorized - check token"@,
            CiError::NotFound => "GitHub API resource not found: "@ + endpoint,
            CiError::Exhausted => "GitHub API request failed after 3 retries: "@ + endpoint,
            CiError::Malformed => "Failed to parse JSON response"@,
        }
    }

    /// The failure that the scheduler is told of when a request for
    /// `endpoint` ends with this error.
    pub fn failure(&self, endpoint: &str) -> (failure: Failure)
        ensures
            failure.fatal == self.fatal(),
            failure.message@ == self.message(endpoint@),
    {
        match self {
            CiError::Unauthorized => Failure {
                fatal: true,
                message: String::from_str("GitHub API unauthorized - check token"),
            },
            CiError::NotFound => {
                let mut message = String::from_str("GitHub API resource not found: ");
                message.append(endpoint);
                Failure { fatal: false, message }
            },
            CiError::Exhausted => {
                let mut message = String::from_str("GitHub API request failed after 3 retries: ");
                message.append(endpoint);
                Failure { fatal: false, message }
            },
            CiError::Malformed => Failure {
                fatal: false,
                message: String::from_str("Failed to parse JSON response"),
            },
        }
    }
}

} // verus!
