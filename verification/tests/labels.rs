use runner_controller::listener::JobListener;

#[test]
fn test_labels_match_exact() {
    let job_labels = vec!["self-hosted".to_string(), "linux".to_string()];
    let runner_labels = vec!["self-hosted".to_string(), "linux".to_string()];
    assert!(JobListener::labels_match(&job_labels, &runner_labels));
}

#[test]
fn test_labels_match_subset() {
    let job_labels = vec!["self-hosted".to_string()];
    let runner_labels = vec![
        "self-hosted".to_string(),
        "linux".to_string(),
        "x64".to_string(),
    ];
    assert!(JobListener::labels_match(&job_labels, &runner_labels));
}

#[test]
fn test_labels_no_match() {
    let job_labels = vec!["self-hosted".to_string(), "windows".to_string()];
    let runner_labels = vec!["self-hosted".to_string(), "linux".to_string()];
    assert!(!JobListener::labels_match(&job_labels, &runner_labels));
}

#[test]
fn test_labels_empty_job() {
    let job_labels: Vec<String> = vec![];
    let runner_labels = vec!["self-hosted".to_string()];
    assert!(JobListener::labels_match(&job_labels, &runner_labels));
}

#[test]
fn empty_job_labels_match_empty_runner_labels() {
    let none: Vec<String> = vec![];
    assert!(JobListener::labels_match(&none, &none));
}

#[test]
fn nonempty_job_labels_never_match_empty_runner_labels() {
    let job_labels = vec!["self-hosted".to_string()];
    let runner_labels: Vec<String> = vec![];
    assert!(!JobListener::labels_match(&job_labels, &runner_labels));
}

#[test]
fn labels_match_is_exact_on_text() {
    let runner_labels = vec!["Linux".to_string(), "x64".to_string()];
    assert!(!JobListener::labels_match(&vec!["linux".to_string()], &runner_labels));
    assert!(!JobListener::labels_match(&vec!["x6".to_string()], &runner_labels));
    assert!(!JobListener::labels_match(&vec!["x64 ".to_string()], &runner_labels));
    assert!(JobListener::labels_match(
        &vec!["x64".to_string(), "x64".to_string(), "Linux".to_string()],
        &runner_labels
    ));
}
