use fabro::clone_retry::{
    after_attempt, classify_message, delay_for_attempt, may_repeat, CloneNext, CloneRetryReason,
    MAX_ATTEMPTS,
};

#[test]
fn private_repo_not_found_after_a_successful_mint_is_a_replication_lag() {
    assert_eq!(
        classify_message("repository not found: Repository not found.", true),
        Some(CloneRetryReason::TokenReplication)
    );
}

#[test]
fn not_found_without_credentials_is_a_wrong_url() {
    assert_eq!(
        classify_message("repository not found: Repository not found.", false),
        None
    );
}

#[test]
fn auth_failure_with_credentials_is_a_replication_lag() {
    assert_eq!(
        classify_message(
            "fatal: Authentication failed for 'https://github.com/owner/repo'",
            true
        ),
        Some(CloneRetryReason::TokenReplication)
    );
}

#[test]
fn infra_failures_retry_without_credentials() {
    for message in [
        "fatal: unable to access: Could not resolve host: github.com",
        "error: RPC failed; curl 56 recv failure",
        "fatal: early EOF",
        "Operation timed out",
    ] {
        assert_eq!(
            classify_message(message, false),
            Some(CloneRetryReason::TransientInfra),
            "expected {message:?} to be transient"
        );
    }
}

#[test]
fn genuine_failures_are_not_retried() {
    for message in [
        "fatal: could not read Username for 'https://github.com'",
        "remote: Permission to owner/repo.git denied",
        "fatal: destination path 'repo' already exists",
    ] {
        assert_eq!(
            classify_message(message, true),
            None,
            "expected {message:?} to fail fast"
        );
    }
}

#[test]
fn backoff_waits_seconds_not_milliseconds() {
    assert_eq!(delay_for_attempt(1), 3);
    assert_eq!(delay_for_attempt(2), 9);
}

#[test]
fn later_delays_are_capped() {
    assert_eq!(delay_for_attempt(0), 3);
    assert_eq!(delay_for_attempt(3), 10);
    assert_eq!(delay_for_attempt(u32::MAX), 10);
}

#[test]
fn infrastructure_counts_before_credentials() {
    assert_eq!(
        classify_message("Repository not found (connection reset)", true),
        Some(CloneRetryReason::TransientInfra)
    );
    assert_eq!(CloneRetryReason::TransientInfra.as_str(), "transient_infra");
    assert_eq!(CloneRetryReason::TokenReplication.as_str(), "token_replication");
}

/// Runs attempts until one ends the clone, and says which were made.
fn run<T>(
    attempt_ends: impl Fn(u32) -> Result<T, String>,
    reason: Option<CloneRetryReason>,
) -> (Result<T, String>, Vec<u32>, Vec<u64>) {
    let mut attempts = Vec::new();
    let mut delays = Vec::new();
    let mut attempt = 1;
    loop {
        attempts.push(attempt);
        match after_attempt(attempt, attempt_ends(attempt), reason) {
            CloneNext::Done(result) => return (result, attempts, delays),
            CloneNext::Retry {
                attempt: next,
                delay_seconds,
            } => {
                attempt = next;
                delays.push(delay_seconds);
            }
        }
    }
}

#[test]
fn first_success_runs_one_attempt() {
    let (result, attempts, delays) = run(Ok, Some(CloneRetryReason::TokenReplication));
    assert_eq!(result, Ok(1));
    assert_eq!(attempts, vec![1]);
    assert!(delays.is_empty());
}

#[test]
fn retries_until_a_later_attempt_succeeds() {
    let (result, attempts, delays) = run(
        |attempt| {
            if attempt < 3 {
                Err("Repository not found.".to_string())
            } else {
                Ok(attempt)
            }
        },
        Some(CloneRetryReason::TokenReplication),
    );
    assert_eq!(result, Ok(3));
    assert_eq!(attempts, vec![1, 2, 3]);
    assert_eq!(delays, vec![3, 9]);
}

#[test]
fn exhausted_attempts_return_the_final_error() {
    let (result, attempts, delays) = run(
        |attempt| Err::<(), _>(format!("Repository not found. (attempt {attempt})")),
        Some(CloneRetryReason::TokenReplication),
    );
    assert_eq!(
        result,
        Err("Repository not found. (attempt 3)".to_string()),
        "the caller should see the last failure, not the first"
    );
    assert_eq!(attempts, vec![1, 2, 3]);
    assert_eq!(attempts.len(), MAX_ATTEMPTS as usize);
    assert_eq!(delays.iter().sum::<u64>(), 12);
}

#[test]
fn unretryable_failure_stops_immediately() {
    let (result, attempts, _) = run(|_| Err::<(), _>("permission denied".to_string()), None);
    assert_eq!(result, Err("permission denied".to_string()));
    assert_eq!(
        attempts,
        vec![1],
        "a deterministic failure should not wait out the backoff"
    );
}

#[test]
fn the_last_failure_is_not_classified() {
    assert!(may_repeat(1));
    assert!(may_repeat(2));
    assert!(!may_repeat(MAX_ATTEMPTS));
    for reason in [None, Some(CloneRetryReason::TransientInfra)] {
        assert_eq!(
            after_attempt(MAX_ATTEMPTS, Err::<(), _>("early EOF"), reason),
            CloneNext::Done(Err("early EOF"))
        );
    }
}
