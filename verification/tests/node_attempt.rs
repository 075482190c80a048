use fabro::json::{parse_json, Json};
use fabro::node_attempt::{
    changed_values, context_error, executor_timeout, finalize_retries_exhausted, finish_attempt,
    AttemptEnd, CoreError, NodeTimeoutPolicy,
};
use fabro::outcome::{FailureCategory, FailureDetail, Outcome, StageOutcome, SystemActorKind};
use fabro::text_map::TextMap;

fn context(entries: &[(&str, &str)]) -> TextMap<Json> {
    let mut map = TextMap::new();
    for (key, value) in entries {
        map.insert(key.to_string(), parse_json(value).unwrap());
    }
    map
}

fn keys(updates: &[(String, Json)]) -> Vec<&str> {
    updates.iter().map(|(key, _)| key.as_str()).collect()
}

#[test]
fn only_new_and_different_values_are_written_back() {
    let before = context(&[("same", r#"{"a":1,"b":2}"#), ("changed", "1"), ("removed", "1")]);
    let mut after = context(&[("changed", "2"), ("new", "null")]);
    after.insert(
        "same".to_string(),
        Json::Object(vec![
            ("b".to_string(), Json::Number("2".to_string())),
            ("a".to_string(), Json::Number("1".to_string())),
        ]),
    );
    let updates = changed_values(&before, &after);
    assert_eq!(keys(&updates), vec!["changed", "new"]);
    assert_eq!(updates[0].1, Json::Number("2".to_string()));
}

#[test]
fn attempts_out_of_time_write_nothing() {
    let (updates, result) = finish_attempt(
        AttemptEnd::TimedOut { after_ms: 1500 },
        &context(&[]),
        &context(&[("new", "1")]),
    );
    assert!(updates.is_empty());
    assert_eq!(
        result,
        Err(CoreError::Handler {
            retryable: true,
            failure: FailureDetail {
                message: "handler timed out after 1500ms".to_string(),
                category: FailureCategory::TransientInfra,
                system_actor: Some(SystemActorKind::Timeout),
            },
        })
    );
}

#[test]
fn other_attempts_write_what_they_changed() {
    let failure = || FailureDetail::new("broken".to_string(), FailureCategory::TransientInfra);
    let finish = |end| finish_attempt(end, &context(&[]), &context(&[("new", "1")]));
    let (updates, result) = finish(AttemptEnd::Completed(Outcome::success()));
    assert_eq!(keys(&updates), vec!["new"]);
    assert_eq!(result, Ok(Outcome::success()));

    let (updates, result) = finish(AttemptEnd::Cancelled);
    assert_eq!(keys(&updates), vec!["new"]);
    assert_eq!(result, Err(CoreError::Cancelled));

    let (_, result) = finish(AttemptEnd::Failed {
        retryable: true,
        failure: failure(),
    });
    assert_eq!(
        result,
        Err(CoreError::Handler {
            retryable: true,
            failure: failure()
        })
    );

    let (_, result) = finish(AttemptEnd::Panicked {
        message: "handler panicked".to_string(),
    });
    assert_eq!(
        result,
        Err(CoreError::Handler {
            retryable: false,
            failure: FailureDetail::new(
                "handler panicked".to_string(),
                FailureCategory::Deterministic
            )
        })
    );
    assert_eq!(
        context_error(failure()),
        CoreError::Handler {
            retryable: true,
            failure: failure()
        }
    );
}

#[test]
fn handlers_may_keep_their_own_time() {
    assert_eq!(
        executor_timeout(NodeTimeoutPolicy::ExecutorEnforced, Some(5)),
        Some(5)
    );
    assert_eq!(
        executor_timeout(NodeTimeoutPolicy::HandlerManaged, Some(5)),
        None
    );
}

#[test]
fn exhausted_retries_end_in_partial_success_or_failure() {
    let mut last = Outcome::success();
    last.preferred_label = Some("next".to_string());
    let partial = finalize_retries_exhausted(true, last);
    assert_eq!(partial.status, StageOutcome::PartiallySucceeded);
    assert_eq!(partial.preferred_label.as_deref(), Some("next"));
    assert_eq!(
        finalize_retries_exhausted(false, Outcome::success()).status,
        StageOutcome::Failed {
            retry_requested: false
        }
    );
}
