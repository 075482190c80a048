//! The outcome of a workflow stage.

use vstd::prelude::*;

use crate::json::Json;
use crate::text::same_text;
use crate::text_map::TextMap;

verus! {

/// How a stage ended.
#[derive(Debug, Clone, Copy, PartialEq, Eq, Structural)]
pub enum StageOutcome {
    Succeeded,
    PartiallySucceeded,
    Failed { retry_requested: bool },
    Skipped,
}

/// The outcome that a status word names.
pub open spec fn named_outcome(word: Seq<char>) -> Option<StageOutcome> {
    if word == "succeeded"@ {
        Some(StageOutcome::Succeeded)
    } else if word == "partially_succeeded"@ {
        Some(StageOutcome::PartiallySucceeded)
    } else if word == "failed"@ {
        Some(StageOutcome::Failed { retry_requested: false })
    } else if word == "skipped"@ {
        Some(StageOutcome::Skipped)
    } else {
        None
    }
}

impl StageOutcome {
    /// The outcome that a status word names.
    pub fn parse(word: &str) -> (r: Option<StageOutcome>)
        ensures
            r == named_outcome(word@),
    {
        if same_text(word, "succeeded") {
            Some(StageOutcome::Succeeded)
        } else if same_text(word, "partially_succeeded") {
            Some(StageOutcome::PartiallySucceeded)
        } else if same_text(word, "failed") {
            Some(StageOutcome::Failed { retry_requested: false })
        } else if same_text(word, "skipped") {
            Some(StageOutcome::Skipped)
        } else {
            None
        }
    }

    /// The word for this outcome.
    pub open spec fn word(self) -> Seq<char> {
        match self {
            StageOutcome::Succeeded => "succeeded"@,
            StageOutcome::PartiallySucceeded => "partially_succeeded"@,
            StageOutcome::Failed { .. } => "failed"@,
            StageOutcome::Skipped => "skipped"@,
        }
    }

    /// The word for this outcome.
    pub fn as_str(&self) -> (r: &'static str)
        ensures
            r@ == self.word(),
    {
        match self {
            StageOutcome::Succeeded => "succeeded",
            StageOutcome::PartiallySucceeded => "partially_succeeded",
            StageOutcome::Failed { .. } => "failed",
            StageOutcome::Skipped => "skipped",
        }
    }

    /// Whether the stage succeeded, wholly or in part.
    pub fn is_successful(&self) -> (b: bool)
        ensures
            b == (*self is Succeeded || *self is PartiallySucceeded),
    {
        match self {
            StageOutcome::Succeeded => true,
            StageOutcome::PartiallySucceeded => true,
            _ => false,
        }
    }

    /// Whether the stage failed.
    pub fn is_failure(&self) -> (b: bool)
        ensures
            b == (*self is Failed),
    {
        match self {
            StageOutcome::Failed { .. } => true,
            _ => false,
        }
    }
}

/// Whether a failure may pass by itself.
#[derive(Debug, Clone, Copy, PartialEq, Eq, Structural)]
pub enum FailureCategory {
    TransientInfra,
    Deterministic,
}

/// The part of the system that ended a stage.
#[derive(Debug, Clone, Copy, PartialEq, Eq, Structural)]
pub enum SystemActorKind {
    Timeout,
}

/// Why a stage failed.
#[derive(Debug, PartialEq, Eq)]
pub struct FailureDetail {
    pub message: String,
    pub category: FailureCategory,
    pub system_actor: Option<SystemActorKind>,
}

impl FailureDetail {
    /// A failure that no part of the system brought about.
    pub fn new(message: String, category: FailureCategory) -> (r: Self)
        ensures
            r.message == message,
            r.category == category,
            r.system_actor is None,
    {
        FailureDetail { message, category, system_actor: None }
    }
}

/// What a stage hands to the rest of the run.
#[derive(Debug, PartialEq, Eq)]
pub struct Outcome {
    pub status: StageOutcome,
    pub preferred_label: Option<String>,
    pub suggested_next_ids: Vec<String>,
    pub context_updates: TextMap<Json>,
    pub failure: Option<FailureDetail>,
}

impl Outcome {
    /// The outcome of a stage that succeeded and has nothing to add.
    pub fn success() -> (r: Self)
        ensures
            r.status == StageOutcome::Succeeded,
            r.preferred_label is None,
            r.suggested_next_ids@.len() == 0,
            r.context_updates@ == Map::<Seq<char>, Json>::empty(),
            r.failure is None,
    {
        Outcome {
            status: StageOutcome::Succeeded,
            preferred_label: None,
            suggested_next_ids: Vec::new(),
            context_updates: TextMap::new(),
            failure: None,
        }
    }
}

/// The word for an outcome names that outcome; a failure comes back without a request
/// to try again. No other word names an outcome.
pub proof fn outcome_words_read_back(outcome: StageOutcome, word: &str, r: Option<StageOutcome>)
    requires
        call_ensures(StageOutcome::parse, (word,), r),
    ensures
        word@ == outcome.word() ==> r == Some(
            match outcome {
                StageOutcome::Failed { .. } => StageOutcome::Failed { retry_requested: false },
                other => other,
            },
        ),
        r matches Some(named) ==> word@ == named.word() && named != (StageOutcome::Failed {
            retry_requested: true,
        }),
        r is None <==> word@ != "succeeded"@ && word@ != "partially_succeeded"@ && word@
            != "failed"@ && word@ != "skipped"@,
{
    reveal_strlit("succeeded");
    reveal_strlit("partially_succeeded");
    reveal_strlit("failed");
    reveal_strlit("skipped");
    assert("succeeded"@.len() == 9 && "partially_succeeded"@.len() == 19);
    assert("failed"@[0] == 'f' && "skipped"@[0] == 's' && "skipped"@.len() == 7);
}

/// Four words name the outcomes: a whole success, a partial one, a failure and a stage
/// that was skipped. The first two count as success, and only a failure as failure.
pub proof fn outcomes_are_told_apart(
    outcome: StageOutcome,
    word: &str,
    successful: bool,
    failed: bool,
)
    requires
        call_ensures(StageOutcome::as_str, (&outcome,), word),
        call_ensures(StageOutcome::is_successful, (&outcome,), successful),
        call_ensures(StageOutcome::is_failure, (&outcome,), failed),
    ensures
        outcome == StageOutcome::Succeeded ==> word@ == "succeeded"@ && successful && !failed,
        outcome == StageOutcome::PartiallySucceeded ==> word@ == "partially_succeeded"@
            && successful && !failed,
        outcome == StageOutcome::Skipped ==> word@ == "skipped"@ && !successful && !failed,
        outcome is Failed ==> word@ == "failed"@ && !successful && failed,
{
}

/// A stage that succeeded with nothing to add routes nowhere and changes nothing.
pub proof fn plain_success_adds_nothing(r: Outcome, key: Seq<char>)
    requires
        call_ensures(Outcome::success, (), r),
    ensures
        r.status == StageOutcome::Succeeded,
        r.preferred_label is None,
        r.suggested_next_ids@.len() == 0,
        !r.context_updates@.dom().contains(key),
        r.failure is None,
{
}

/// A failure keeps its message and its category, and names no part of the system.
pub proof fn failures_keep_their_message(
    message: String,
    category: FailureCategory,
    r: FailureDetail,
)
    requires
        call_ensures(FailureDetail::new, (message, category), r),
    ensures
        r.message == message,
        r.category == category,
        r.system_actor is None,
{
}

} // verus!
