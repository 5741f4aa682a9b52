//! The controller's settings, and how they are read from the values of the
//! environment.

use crate::text::{
    chars_of, parse_unsigned, pieces, split, split_on, texts, trim, trimmed, unsigned_upto,
};
use vstd::prelude::*;

verus! {

#[derive(Debug, Clone, PartialEq, Eq)]
pub struct Config {
    /// The repository on the CI service, as `owner/name`.
    pub github_repo: String,
    /// The bearer credential for the CI service.
    pub github_token: String,
    /// How many sandboxes may be live at once.
    pub max_concurrent_jobs: usize,
    /// The pause between two ticks, in seconds.
    pub poll_interval_secs: u64,
    /// How long a sandbox may run, in seconds.
    pub job_timeout_secs: u64,
    /// The labels that this controller's sandboxes advertise.
    pub runner_labels: Vec<String>,
    /// The directory that holds the index file.
    pub state_dir: String,
    /// The port of the status server.
    pub http_port: u16,
}

/// What the environment holds for the controller: the value of each variable
/// that is set, and what the credential file holds.
#[derive(Debug, Clone, PartialEq, Eq)]
pub struct EnvValues {
    /// `GITHUB_REPO`
    pub github_repo: Option<String>,
    /// `GITHUB_TOKEN_FILE`
    pub github_token_file: Option<String>,
    /// What the file named by `GITHUB_TOKEN_FILE` holds, if it could be read.
    pub token_file_contents: Option<String>,
    /// `MAX_CONCURRENT`
    pub max_concurrent: Option<String>,
    /// `POLL_INTERVAL`
    pub poll_interval: Option<String>,
    /// `JOB_TIMEOUT`
    pub job_timeout: Option<String>,
    /// `RUNNER_LABELS`
    pub runner_labels: Option<String>,
    /// `STATE_DIR`
    pub state_dir: Option<String>,
    /// `HTTP_PORT`
    pub http_port: Option<String>,
}

/// What is wrong with the environment.
#[derive(Debug, Clone, Copy, PartialEq, Eq, Structural)]
pub enum ConfigError {
    /// `GITHUB_REPO` is not set.
    MissingRepo,
    /// `GITHUB_TOKEN_FILE` is not set.
    MissingTokenFile,
    /// The file named by `GITHUB_TOKEN_FILE` could not be read.
    UnreadableTokenFile,
    /// `MAX_CONCURRENT` is no positive number.
    InvalidMaxConcurrent,
    /// `POLL_INTERVAL` is no number.
    InvalidPollInterval,
    /// `JOB_TIMEOUT` is no number.
    InvalidJobTimeout,
    /// `HTTP_PORT` is no port number.
    InvalidHttpPort,
}

/// The pieces that are labels: each piece without the white space around
/// it, unless nothing is left of it.
pub open spec fn kept_labels(parts: Seq<Seq<char>>) -> Seq<Seq<char>>
    decreases parts.len(),
{
    if parts.len() == 0 {
        Seq::empty()
    } else {
        let before = kept_labels(parts.drop_last());
        let label = trimmed(parts.last());
        if label.len() == 0 {
            before
        } else {
            before.push(label)
        }
    }
}

/// The labels that a list separated by commas names.
pub open spec fn labels_of(list: Seq<char>) -> Seq<Seq<char>> {
    kept_labels(split_on(list, ','))
}

/// The labels that a list separated by commas names.
pub fn parse_labels(list: &str) -> (labels: Vec<String>)
    ensures
        texts(labels@) == labels_of(list@),
{
    let chars = chars_of(list);
    let parts = split(&chars, ',');
    let mut labels: Vec<String> = Vec::new();
    let mut i: usize = 0;
    assert(pieces(parts@).take(0) == Seq::<Seq<char>>::empty());
    assert(texts(labels@) == Seq::<Seq<char>>::empty());
    while i < parts.len()
        invariant
            i <= parts.len(),
            texts(labels@) == kept_labels(pieces(parts@).take(i as int)),
        decreases parts.len() - i,
    {
        let ghost so_far = texts(labels@);
        assert(pieces(parts@).take(i + 1).drop_last() == pieces(parts@).take(i as int));
        assert(pieces(parts@).take(i + 1).last() == parts@[i as int]@);
        let label = trim(&parts[i]);
        if label.as_str().unicode_len() != 0 {
            labels.push(label);
            assert(texts(labels@) == so_far.push(trimmed(parts@[i as int]@)));
        }
        i += 1;
    }
    assert(pieces(parts@).take(parts.len() as int) == pieces(parts@));
    labels
}

/// The number that a variable stands for: what its value says as a number of
/// at most `max`, or `default` where the variable is not set.
pub open spec fn number_of(value: Option<String>, default: nat, max: nat) -> Option<nat> {
    match value {
        Some(text) => unsigned_upto(text@, max),
        None => Some(default),
    }
}

/// The text that a variable stands for: its value, or `default` where the
/// variable is not set.
pub open spec fn text_of(value: Option<String>, default: Seq<char>) -> Seq<char> {
    match value {
        Some(text) => text@,
        None => default,
    }
}

/// What is wrong with the environment, if anything; of several things the
/// first in this order.
pub open spec fn fault_of(values: EnvValues) -> Option<ConfigError> {
    if values.github_repo is None {
        Some(ConfigError::MissingRepo)
    } else if values.github_token_file is None {
        Some(ConfigError::MissingTokenFile)
    } else if values.token_file_contents is None {
        Some(ConfigError::UnreadableTokenFile)
    } else if !(number_of(values.max_concurrent, 7, usize::MAX as nat) matches Some(n) && n > 0) {
        Some(ConfigError::InvalidMaxConcurrent)
    } else if number_of(values.poll_interval, 10, u64::MAX as nat) is None {
        Some(ConfigError::InvalidPollInterval)
    } else if number_of(values.job_timeout, 7200, u64::MAX as nat) is None {
        Some(ConfigError::InvalidJobTimeout)
    } else if number_of(values.http_port, 8080, u16::MAX as nat) is None {
        Some(ConfigError::InvalidHttpPort)
    } else {
        None
    }
}

/// The settings that the environment stands for, when nothing is wrong with
/// it.
pub open spec fn reads(config: Config, values: EnvValues) -> bool {
    &&& values.github_repo matches Some(repo) && config.github_repo@ == repo@
    &&& values.token_file_contents matches Some(contents) && config.github_token@ == trimmed(
        contents@,
    )
    &&& number_of(values.max_concurrent, 7, usize::MAX as nat) == Some(
        config.max_concurrent_jobs as nat,
    )
    &&& number_of(values.poll_interval, 10, u64::MAX as nat) == Some(
        config.poll_interval_secs as nat,
    )
    &&& number_of(values.job_timeout, 7200, u64::MAX as nat) == Some(
        config.job_timeout_secs as nat,
    )
    &&& texts(config.runner_labels@) == labels_of(
        text_of(values.runner_labels, "self-hosted,ci,nix,x64,Linux"@),
    )
    &&& config.state_dir@ == text_of(values.state_dir, "/var/lib/runner-controller"@)
    &&& number_of(values.http_port, 8080, u16::MAX as nat) == Some(config.http_port as nat)
}

/// Reads the value of a variable as a number of at most `max`.
fn parse_number(value: &Option<String>, default: u64, max: u64) -> (number: Option<u64>)
    requires
        default <= max,
    ensures
        match number_of(*value, default as nat, max as nat) {
            Some(n) => number == Some(n as u64),
            None => number is None,
        },
{
    match value {
        Some(text) => parse_unsigned(text.as_str(), max),
        None => Some(default),
    }
}

impl Config {
    /// The settings that the values of the environment stand for.
    pub fn from_values(values: EnvValues) -> (r: Result<Config, ConfigError>)
        ensures
            match r {
                Ok(config) => fault_of(values) is None && reads(config, values),
                Err(fault) => fault_of(values) == Some(fault),
            },
    {
        let github_repo = match &values.github_repo {
            Some(repo) => repo.clone(),
            None => {
                return Err(ConfigError::MissingRepo);
            },
        };
        if values.github_token_file.is_none() {
            return Err(ConfigError::MissingTokenFile);
        }
        let github_token = match &values.token_file_contents {
            Some(contents) => trim(&chars_of(contents.as_str())),
            None => {
                return Err(ConfigError::UnreadableTokenFile);
            },
        };
        let max_concurrent_jobs = match parse_number(
            &values.max_concurrent,
            7,
            usize::MAX as u64,
        ) {
            Some(n) => if n > 0 {
                n as usize
            } else {
                return Err(ConfigError::InvalidMaxConcurrent);
            },
            None => {
                return Err(ConfigError::InvalidMaxConcurrent);
            },
        };
        let poll_interval_secs = match parse_number(&values.poll_interval, 10, u64::MAX) {
            Some(n) => n,
            None => {
                return Err(ConfigError::InvalidPollInterval);
            },
        };
        let job_timeout_secs = match parse_number(&values.job_timeout, 7200, u64::MAX) {
            Some(n) => n,
            None => {
                return Err(ConfigError::InvalidJobTimeout);
            },
        };
        let runner_labels = match &values.runner_labels {
            Some(list) => parse_labels(list.as_str()),
            None => parse_labels("self-hosted,ci,nix,x64,Linux"),
        };
        let state_dir = match &values.state_dir {
            Some(dir) => dir.clone(),
            None => String::from_str("/var/lib/runner-controller"),
        };
        let http_port = match parse_number(&values.http_port, 8080, u16::MAX as u64) {
            Some(n) => n as u16,
            None => {
                return Err(ConfigError::InvalidHttpPort);
            },
        };
        Ok(
            Config {
                github_repo,
                github_token,
                max_concurrent_jobs,
                poll_interval_secs,
                job_timeout_secs,
                runner_labels,
                state_dir,
                http_port,
            },
        )
    }
}

} // verus!
