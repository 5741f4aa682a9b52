use runner_controller::config::{parse_labels, Config, ConfigError, EnvValues};
use runner_controller::text::{chars_of, parse_unsigned, trim};

fn minimal() -> EnvValues {
    EnvValues {
        github_repo: Some("owner/name".to_string()),
        github_token_file: Some("/run/secrets/token".to_string()),
        token_file_contents: Some("  ghp_abc\n".to_string()),
        max_concurrent: None,
        poll_interval: None,
        job_timeout: None,
        runner_labels: None,
        state_dir: None,
        http_port: None,
    }
}

#[test]
fn defaults_apply_where_nothing_is_set() {
    let config = Config::from_values(minimal()).unwrap();
    assert_eq!(
        config,
        Config {
            github_repo: "owner/name".to_string(),
            github_token: "ghp_abc".to_string(),
            max_concurrent_jobs: 7,
            poll_interval_secs: 10,
            job_timeout_secs: 7200,
            runner_labels: vec![
                "self-hosted".to_string(),
                "ci".to_string(),
                "nix".to_string(),
                "x64".to_string(),
                "Linux".to_string()
            ],
            state_dir: "/var/lib/runner-controller".to_string(),
            http_port: 8080,
        }
    );
}

#[test]
fn values_override_defaults() {
    let mut values = minimal();
    values.max_concurrent = Some("2".to_string());
    values.poll_interval = Some("0".to_string());
    values.job_timeout = Some("18446744073709551615".to_string());
    values.runner_labels = Some(" self-hosted , ,linux,,".to_string());
    values.state_dir = Some("/tmp/state".to_string());
    values.http_port = Some("65535".to_string());
    let config = Config::from_values(values).unwrap();
    assert_eq!(config.max_concurrent_jobs, 2);
    assert_eq!(config.poll_interval_secs, 0);
    assert_eq!(config.job_timeout_secs, u64::MAX);
    assert_eq!(config.runner_labels, vec!["self-hosted".to_string(), "linux".to_string()]);
    assert_eq!(config.state_dir, "/tmp/state");
    assert_eq!(config.http_port, 65535);
}

#[test]
fn each_fault_is_told_and_the_first_one_wins() {
    let mut values = minimal();
    values.github_repo = None;
    values.github_token_file = None;
    assert_eq!(Config::from_values(values), Err(ConfigError::MissingRepo));

    let mut values = minimal();
    values.github_token_file = None;
    values.token_file_contents = None;
    assert_eq!(Config::from_values(values), Err(ConfigError::MissingTokenFile));

    let mut values = minimal();
    values.token_file_contents = None;
    values.max_concurrent = Some("x".to_string());
    assert_eq!(Config::from_values(values), Err(ConfigError::UnreadableTokenFile));

    let mut values = minimal();
    values.max_concurrent = Some("seven".to_string());
    values.poll_interval = Some("x".to_string());
    assert_eq!(Config::from_values(values), Err(ConfigError::InvalidMaxConcurrent));

    let mut values = minimal();
    values.max_concurrent = Some("0".to_string());
    assert_eq!(Config::from_values(values), Err(ConfigError::InvalidMaxConcurrent));

    let mut values = minimal();
    values.poll_interval = Some("1.5".to_string());
    values.job_timeout = Some("x".to_string());
    assert_eq!(Config::from_values(values), Err(ConfigError::InvalidPollInterval));

    let mut values = minimal();
    values.job_timeout = Some("18446744073709551616".to_string());
    values.http_port = Some("x".to_string());
    assert_eq!(Config::from_values(values), Err(ConfigError::InvalidJobTimeout));

    let mut values = minimal();
    values.http_port = Some("65536".to_string());
    assert_eq!(Config::from_values(values), Err(ConfigError::InvalidHttpPort));
}

#[test]
fn labels_are_split_trimmed_and_kept_if_not_empty() {
    assert_eq!(parse_labels("a,b"), vec!["a".to_string(), "b".to_string()]);
    assert_eq!(parse_labels(""), Vec::<String>::new());
    assert_eq!(parse_labels(" , ,\t"), Vec::<String>::new());
    assert_eq!(parse_labels("self hosted"), vec!["self hosted".to_string()]);
    assert_eq!(parse_labels(",x,"), vec!["x".to_string()]);
    assert_eq!(parse_labels("\u{a0}x\u{3000},y"), vec!["x".to_string(), "y".to_string()]);
}

#[test]
fn trim_takes_white_space_from_both_ends_only() {
    assert_eq!(trim(&chars_of("  a b \n")), "a b");
    assert_eq!(trim(&chars_of("")), "");
    assert_eq!(trim(&chars_of(" \t\r\n")), "");
    assert_eq!(trim(&chars_of("x")), "x");
    assert_eq!(trim(&chars_of("\u{feff}x")), "\u{feff}x");
}

#[test]
fn unsigned_numbers_are_read_as_rust_reads_them() {
    assert_eq!(parse_unsigned("0", u64::MAX), Some(0));
    assert_eq!(parse_unsigned("18446744073709551615", u64::MAX), Some(u64::MAX));
    assert_eq!(parse_unsigned("18446744073709551616", u64::MAX), None);
    assert_eq!(parse_unsigned("99999999999999999999999", u64::MAX), None);
    assert_eq!(parse_unsigned("+12", 12), Some(12));
    assert_eq!(parse_unsigned("13", 12), None);
    assert_eq!(parse_unsigned("++1", 12), None);
    assert_eq!(parse_unsigned("1_000", u64::MAX), None);
    assert_eq!(parse_unsigned("0x10", u64::MAX), None);
    assert_eq!(parse_unsigned("", u64::MAX), None);
}
