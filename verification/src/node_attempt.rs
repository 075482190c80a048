//! One attempt of a node's handler: how long it may take, what it changes in the
//! context of the run, and how its end is reported.

use vstd::prelude::*;
use vstd::string::*;

use crate::json::{same_tree, Json};
use crate::outcome::{FailureCategory, FailureDetail, Outcome, StageOutcome, SystemActorKind};
use crate::text::{decimal, decimal_text};
use crate::text_map::TextMap;

verus! {

/// Who keeps the time of a node.
#[derive(Debug, Clone, Copy, PartialEq, Eq, Structural)]
pub enum NodeTimeoutPolicy {
    ExecutorEnforced,
    HandlerManaged,
}

/// The time that the executor gives an attempt: that of the node, unless the handler
/// keeps it.
pub fn executor_timeout<T>(policy: NodeTimeoutPolicy, node_timeout: Option<T>) -> (r: Option<T>)
    ensures
        r == (match policy {
            NodeTimeoutPolicy::ExecutorEnforced => node_timeout,
            NodeTimeoutPolicy::HandlerManaged => None,
        }),
{
    match policy {
        NodeTimeoutPolicy::ExecutorEnforced => node_timeout,
        NodeTimeoutPolicy::HandlerManaged => None,
    }
}

/// The error of an attempt.
#[derive(Debug, PartialEq, Eq)]
pub enum CoreError {
    Cancelled,
    Handler { retryable: bool, failure: FailureDetail },
}

/// The error for a context that could not be made ready: it may be tried again.
pub fn context_error(failure: FailureDetail) -> (r: CoreError)
    ensures
        r == (CoreError::Handler { retryable: true, failure }),
{
    CoreError::Handler { retryable: true, failure }
}

/// How an attempt ended.
#[derive(Debug, PartialEq, Eq)]
pub enum AttemptEnd {
    /// The executor's time ran out after this many milliseconds.
    TimedOut { after_ms: u64 },
    Completed(Outcome),
    Cancelled,
    /// The handler failed; it says itself whether it may be tried again.
    Failed { retryable: bool, failure: FailureDetail },
    Panicked { message: String },
}

/// The values of `after` that are new or differ from those of `before`, in order.
pub open spec fn changed(
    before: Map<Seq<char>, Json>,
    after: Seq<(String, Json)>,
) -> Seq<(String, Json)>
    decreases after.len(),
{
    if after.len() == 0 {
        Seq::empty()
    } else {
        let rest = changed(before, after.drop_last());
        let (key, value) = after.last();
        if before.dom().contains(key@) && same_tree(before[key@].tree(), value.tree()) {
            rest
        } else {
            rest.push((key, value))
        }
    }
}

/// The updates are the entries `entries`, keys and values.
pub open spec fn updates_are(updates: Seq<(String, Json)>, entries: Seq<(String, Json)>) -> bool {
    &&& updates.len() == entries.len()
    &&& forall|i: int|
        0 <= i < updates.len() ==> (#[trigger] updates[i]).0@ == entries[i].0@ && updates[i].1.tree()
            == entries[i].1.tree()
}

/// What an attempt changed in the context: the values that are new or differ from
/// those it started with.
pub fn changed_values(before: &TextMap<Json>, after: &TextMap<Json>) -> (r: Vec<(String, Json)>)
    ensures
        updates_are(r@, changed(before@, after.listed())),
{
    let ghost entries = after.listed();
    let mut r: Vec<(String, Json)> = Vec::new();
    let mut i: usize = 0;
    proof {
        assert(entries.take(0).len() == 0);
    }
    while i < after.len()
        invariant
            entries == after.listed(),
            i <= entries.len(),
            updates_are(r@, changed(before@, entries.take(i as int))),
        decreases entries.len() - i,
    {
        let key = after.key(i);
        let value = after.value(i);
        proof {
            assert(entries.take(i + 1).drop_last() =~= entries.take(i as int));
            assert(entries.take(i + 1).last() == entries[i as int]);
            assert(entries[i as int].0 == *key && entries[i as int].1 == *value);
        }
        let unchanged = match before.get(key.as_str()) {
            Some(old_value) => old_value.same(value),
            None => false,
        };
        if !unchanged {
            r.push((key.clone(), value.clone()));
        }
        i += 1;
    }
    proof {
        assert(entries.take(entries.len() as int) =~= entries);
    }
    r
}

/// How the end of an attempt is reported.
pub open spec fn reported(end: AttemptEnd, r: Result<Outcome, CoreError>) -> bool {
    match end {
        AttemptEnd::TimedOut { after_ms } => r matches Err(
            CoreError::Handler { retryable, failure },
        ) && {
            &&& retryable
            &&& failure.message@ == "handler timed out after "@ + decimal(after_ms as nat) + "ms"@
            &&& failure.category == FailureCategory::TransientInfra
            &&& failure.system_actor == Some(SystemActorKind::Timeout)
        },
        AttemptEnd::Completed(outcome) => r == Ok::<Outcome, CoreError>(outcome),
        AttemptEnd::Cancelled => r == Err::<Outcome, CoreError>(CoreError::Cancelled),
        AttemptEnd::Failed { retryable, failure } => r == Err::<Outcome, CoreError>(
            CoreError::Handler { retryable, failure },
        ),
        AttemptEnd::Panicked { message } => r == Err::<Outcome, CoreError>(
            CoreError::Handler {
                retryable: false,
                failure: FailureDetail {
                    message,
                    category: FailureCategory::Deterministic,
                    system_actor: None,
                },
            },
        ),
    }
}

/// Ends an attempt: gives the values to write into the context of the run, and how the
/// attempt is reported. `before` is the context that the handler was given, `after` what
/// it left. An attempt that ran out of time writes nothing.
pub fn finish_attempt(end: AttemptEnd, before: &TextMap<Json>, after: &TextMap<Json>) -> (r: (
    Vec<(String, Json)>,
    Result<Outcome, CoreError>,
))
    ensures
        reported(end, r.1),
        end is TimedOut ==> r.0@.len() == 0,
        end !is TimedOut ==> updates_are(r.0@, changed(before@, after.listed())),
{
    match end {
        AttemptEnd::TimedOut { after_ms } => {
            let mut message = "handler timed out after ".to_owned();
            message.append(decimal_text(after_ms).as_str());
            message.append("ms");
            (
                Vec::new(),
                Err(
                    CoreError::Handler {
                        retryable: true,
                        failure: FailureDetail {
                            message,
                            category: FailureCategory::TransientInfra,
                            system_actor: Some(SystemActorKind::Timeout),
                        },
                    },
                ),
            )
        },
        AttemptEnd::Completed(outcome) => (changed_values(before, after), Ok(outcome)),
        AttemptEnd::Cancelled => (changed_values(before, after), Err(CoreError::Cancelled)),
        AttemptEnd::Failed { retryable, failure } => (
            changed_values(before, after),
            Err(CoreError::Handler { retryable, failure }),
        ),
        AttemptEnd::Panicked { message } => (
            changed_values(before, after),
            Err(
                CoreError::Handler {
                    retryable: false,
                    failure: FailureDetail::new(message, FailureCategory::Deterministic),
                },
            ),
        ),
    }
}

/// The outcome of a node whose retries are used up: partial success where the node
/// allows it, else failure. The rest of the last outcome is kept.
pub fn finalize_retries_exhausted(allow_partial: bool, last_outcome: Outcome) -> (r: Outcome)
    ensures
        r == (Outcome {
            status: if allow_partial {
                StageOutcome::PartiallySucceeded
            } else {
                StageOutcome::Failed { retry_requested: false }
            },
            ..last_outcome
        }),
{
    let mut r = last_outcome;
    r.status = if allow_partial {
        StageOutcome::PartiallySucceeded
    } else {
        StageOutcome::Failed { retry_requested: false }
    };
    r
}

/// Every value that the handler left is written back, unless it equals the one that
/// was there.
pub proof fn no_change_is_lost(
    before: Map<Seq<char>, Json>,
    after: Seq<(String, Json)>,
    i: int,
)
    requires
        0 <= i < after.len(),
    ensures
        changed(before, after).contains(after[i]) || (before.dom().contains(after[i].0@)
            && same_tree(before[after[i].0@].tree(), after[i].1.tree())),
    decreases after.len(),
{
    let rest = after.drop_last();
    let kept = changed(before, rest);
    if i < rest.len() {
        no_change_is_lost(before, rest, i);
        assert(rest[i] == after[i]);
        if kept.contains(after[i]) {
            let k = choose|k: int| 0 <= k < kept.len() && kept[k] == after[i];
            assert(changed(before, after)[k] == after[i]);
        }
    } else {
        if !(before.dom().contains(after[i].0@) && same_tree(
            before[after[i].0@].tree(),
            after[i].1.tree(),
        )) {
            assert(changed(before, after)[kept.len() as int] == after[i]);
        }
    }
}

/// Nothing else is written back: each value that is written is one that the handler
/// left, and it is new or differs from the one that was there.
pub proof fn only_changes_are_written(
    before: Map<Seq<char>, Json>,
    after: Seq<(String, Json)>,
    k: int,
)
    requires
        0 <= k < changed(before, after).len(),
    ensures
        after.contains(changed(before, after)[k]),
        ({
            let (key, value) = changed(before, after)[k];
            !before.dom().contains(key@) || !same_tree(before[key@].tree(), value.tree())
        }),
    decreases after.len(),
{
    let rest = after.drop_last();
    let kept = changed(before, rest);
    if k < kept.len() {
        only_changes_are_written(before, rest, k);
        let i = choose|i: int| 0 <= i < rest.len() && rest[i] == kept[k];
        assert(after[i] == kept[k]);
    } else {
        assert(after[after.len() - 1] == changed(before, after)[k]);
    }
}

/// The executor keeps the time of a node exactly where the handler does not.
pub proof fn handlers_keep_their_own_time<T>(
    policy: NodeTimeoutPolicy,
    node_timeout: Option<T>,
    r: Option<T>,
)
    requires
        call_ensures(executor_timeout::<T>, (policy, node_timeout), r),
    ensures
        policy == NodeTimeoutPolicy::HandlerManaged ==> r is None,
        policy == NodeTimeoutPolicy::ExecutorEnforced ==> r == node_timeout,
{
}

/// An attempt that ran out of time leaves the context as it was and may be tried again;
/// one that panicked may not; one that completed, failed or was cancelled is reported as
/// it ended.
pub proof fn ends_of_attempts_are_told_apart(
    end: AttemptEnd,
    before: &TextMap<Json>,
    after: &TextMap<Json>,
    r: (Vec<(String, Json)>, Result<Outcome, CoreError>),
)
    requires
        call_ensures(finish_attempt, (end, before, after), r),
    ensures
        end matches AttemptEnd::Completed(outcome) ==> r.1 == Ok::<Outcome, CoreError>(outcome),
        end is Completed <==> r.1 is Ok,
        end is Cancelled ==> r.1 == Err::<Outcome, CoreError>(CoreError::Cancelled),
        r.1 matches Err(CoreError::Cancelled) ==> end is Cancelled,
        end matches AttemptEnd::Failed { retryable, failure } ==> r.1 == Err::<Outcome, CoreError>(
            CoreError::Handler { retryable, failure },
        ),
        end matches AttemptEnd::TimedOut { after_ms } ==> r.0@.len() == 0 && (r.1 matches Err(
            CoreError::Handler { retryable, failure },
        ) && retryable && failure.category == FailureCategory::TransientInfra
            && failure.system_actor == Some(SystemActorKind::Timeout) && failure.message@
            == "handler timed out after "@ + decimal(after_ms as nat) + "ms"@),
        end matches AttemptEnd::Panicked { message } ==> (r.1 matches Err(
            CoreError::Handler { retryable, failure },
        ) && !retryable && failure.category == FailureCategory::Deterministic && failure.message
            == message && failure.system_actor is None),
{
}

/// However an attempt ends, unless it ran out of time: what the handler added or changed
/// is written back, with the value that it left, and what it left alone is not.
pub proof fn changes_of_an_attempt_are_written_back(
    end: AttemptEnd,
    before: &TextMap<Json>,
    after: &TextMap<Json>,
    r: (Vec<(String, Json)>, Result<Outcome, CoreError>),
    i: int,
    k: int,
)
    requires
        call_ensures(finish_attempt, (end, before, after), r),
        end !is TimedOut,
    ensures
        0 <= i < after.listed().len() ==> {
            let (key, value) = after.listed()[i];
            (!before@.dom().contains(key@) || !same_tree(before@[key@].tree(), value.tree()))
                ==> exists|j: int|
                0 <= j < r.0@.len() && (#[trigger] r.0@[j]).0@ == key@ && r.0@[j].1.tree()
                    == value.tree()
        },
        0 <= k < r.0@.len() ==> {
            let (key, value) = r.0@[k];
            &&& !before@.dom().contains(key@) || !same_tree(before@[key@].tree(), value.tree())
            &&& exists|j: int|
                0 <= j < after.listed().len() && (#[trigger] after.listed()[j]).0@ == key@
                    && after.listed()[j].1.tree() == value.tree()
        },
{
    let entries = changed(before@, after.listed());
    if 0 <= i < after.listed().len() {
        no_change_is_lost(before@, after.listed(), i);
        if entries.contains(after.listed()[i]) {
            let j = choose|j: int| 0 <= j < entries.len() && entries[j] == after.listed()[i];
            assert(r.0@[j].0@ == entries[j].0@);
        }
    }
    if 0 <= k < r.0@.len() {
        only_changes_are_written(before@, after.listed(), k);
        assert(r.0@[k].0@ == entries[k].0@);
        let j = choose|j: int| 0 <= j < after.listed().len() && after.listed()[j] == entries[k];
        assert(after.listed()[j].0@ == r.0@[k].0@);
    }
}

/// A node that has used up its retries ends in partial success where that is allowed and
/// in failure where it is not; neither asks for another try, and nothing else of its last
/// outcome is lost.
pub proof fn used_up_retries_end_the_node(allow_partial: bool, last_outcome: Outcome, r: Outcome)
    requires
        call_ensures(finalize_retries_exhausted, (allow_partial, last_outcome), r),
    ensures
        allow_partial ==> r.status == StageOutcome::PartiallySucceeded,
        !allow_partial ==> r.status == (StageOutcome::Failed { retry_requested: false }),
        r.preferred_label == last_outcome.preferred_label,
        r.suggested_next_ids == last_outcome.suggested_next_ids,
        r.context_updates == last_outcome.context_updates,
        r.failure == last_outcome.failure,
{
}

/// A context that could not be made ready fails the attempt, which may be tried again.
pub proof fn faults_of_the_context_may_be_retried(failure: FailureDetail, r: CoreError)
    requires
        call_ensures(context_error, (failure,), r),
    ensures
        r matches CoreError::Handler { retryable, failure: kept } && retryable && kept == failure,
{
}

} // verus!
