//! Retry for the first repository clone in a clone-based sandbox.
//!
//! Clone-based providers mint an installation access token and clone with it in the
//! same breath. A new token reaches the edge cache sites of GitHub asynchronously, so
//! a clone that starts right after the mint can be rejected before the token is
//! visible. On a private repository that rejection arrives as `Repository not found.`
//!
//! A successful mint is what makes that message safe to retry: once credentials are in
//! hand, `not found` from the clone itself cannot mean "no access". Retries reuse the
//! same token on purpose.

use vstd::prelude::*;

use crate::text::{ascii_lowered, contains, text_has, to_ascii_lowercase};

verus! {

/// Total clone attempts, including the first.
pub const MAX_ATTEMPTS: u32 = 3;

/// Seconds before the second attempt.
pub const INITIAL_DELAY_SECONDS: u64 = 3;

/// What each further delay is longer by.
pub const DELAY_FACTOR: u64 = 3;

/// Seconds that no delay exceeds.
pub const MAX_DELAY_SECONDS: u64 = 10;

/// Why a failed clone attempt is worth repeating.
#[derive(Debug, Clone, Copy, PartialEq, Eq, Structural)]
pub enum CloneRetryReason {
    /// A freshly minted installation token has not reached the edge cache site serving
    /// this clone yet.
    TokenReplication,
    /// The clone failed on infrastructure, unrelated to credentials.
    TransientInfra,
}

impl CloneRetryReason {
    /// The word for the reason.
    pub fn as_str(&self) -> (r: &'static str)
        ensures
            r@ == (match self {
                CloneRetryReason::TokenReplication => "token_replication"@,
                CloneRetryReason::TransientInfra => "transient_infra"@,
            }),
    {
        match self {
            CloneRetryReason::TokenReplication => "token_replication",
            CloneRetryReason::TransientInfra => "transient_infra",
        }
    }
}

/// Message fragments that mean the clone failed on infrastructure. These are safe to
/// retry whether or not the clone was authenticated.
pub open spec fn transient_hints() -> Seq<Seq<char>> {
    seq![
        "could not resolve host"@,
        "temporary failure in name resolution"@,
        "connection refused"@,
        "connection reset"@,
        "connection timed out"@,
        "timed out"@,
        "network is unreachable"@,
        "no route to host"@,
        "tls handshake"@,
        "early eof"@,
        "rpc failed"@,
        "unexpected disconnect"@,
        "the remote end hung up unexpectedly"@,
        "index-pack failed"@,
        "service unavailable"@,
        "gateway timeout"@,
        "too many requests"@,
        "rate limit"@,
    ]
}

/// Message fragments that mean a token is not yet visible. Only meaningful when the
/// clone carried credentials.
pub open spec fn token_replication_hints() -> Seq<Seq<char>> {
    seq![
        "repository not found"@,
        "authentication failed"@,
        "invalid username or password"@,
        "bad credentials"@,
    ]
}

/// One of the hints stands in the text.
pub open spec fn has_any(text: Seq<char>, hints: Seq<Seq<char>>) -> bool {
    exists|i: int| 0 <= i < hints.len() && text_has(text, #[trigger] hints[i])
}

/// Why a failure with this message is worth repeating, if it is.
pub open spec fn classification(message: Seq<char>, has_credentials: bool) -> Option<
    CloneRetryReason,
> {
    let text = ascii_lowered(message);
    if has_any(text, transient_hints()) {
        Some(CloneRetryReason::TransientInfra)
    } else if has_credentials && has_any(text, token_replication_hints()) {
        Some(CloneRetryReason::TokenReplication)
    } else {
        None
    }
}

fn contains_any(text: &str, hints: &Vec<&str>) -> (b: bool)
    ensures
        b == has_any(text@, hints@.map_values(|h: &str| h@)),
{
    let ghost all = hints@.map_values(|h: &str| h@);
    let mut i: usize = 0;
    while i < hints.len()
        invariant
            i <= hints@.len(),
            all == hints@.map_values(|h: &str| h@),
            forall|j: int| 0 <= j < i ==> !text_has(text@, #[trigger] all[j]),
        decreases hints@.len() - i,
    {
        proof {
            assert(all[i as int] == hints@[i as int]@);
        }
        if contains(text, hints[i]) {
            return true;
        }
        i += 1;
    }
    false
}

/// Classifies a failed clone by its rendered message.
///
/// Without credentials there is no token to replicate, so `not found` on a public clone
/// means the URL names a repository that is not there: that fails immediately.
pub fn classify_message(message: &str, has_credentials: bool) -> (r: Option<CloneRetryReason>)
    ensures
        r == classification(message@, has_credentials),
{
    let lower = to_ascii_lowercase(message);
    let transient: Vec<&str> = vec![
        "could not resolve host",
        "temporary failure in name resolution",
        "connection refused",
        "connection reset",
        "connection timed out",
        "timed out",
        "network is unreachable",
        "no route to host",
        "tls handshake",
        "early eof",
        "rpc failed",
        "unexpected disconnect",
        "the remote end hung up unexpectedly",
        "index-pack failed",
        "service unavailable",
        "gateway timeout",
        "too many requests",
        "rate limit",
    ];
    let replication: Vec<&str> = vec![
        "repository not found",
        "authentication failed",
        "invalid username or password",
        "bad credentials",
    ];
    proof {
        assert(transient@.map_values(|h: &str| h@) =~= transient_hints());
        assert(replication@.map_values(|h: &str| h@) =~= token_replication_hints());
    }
    if contains_any(lower.as_str(), &transient) {
        return Some(CloneRetryReason::TransientInfra);
    }
    if has_credentials && contains_any(lower.as_str(), &replication) {
        return Some(CloneRetryReason::TokenReplication);
    }
    None
}

/// The delay after the attempt `n` before it is capped.
pub open spec fn growing_delay(n: nat) -> nat
    decreases n,
{
    if n <= 1 {
        INITIAL_DELAY_SECONDS as nat
    } else {
        growing_delay((n - 1) as nat) * DELAY_FACTOR as nat
    }
}

/// The delay after the attempt `n`, in seconds.
pub open spec fn delay(n: nat) -> nat {
    if growing_delay(n) < MAX_DELAY_SECONDS {
        growing_delay(n)
    } else {
        MAX_DELAY_SECONDS as nat
    }
}

/// The delay after an attempt, in seconds: 3, then 9, and never more than 10.
pub fn delay_for_attempt(attempt: u32) -> (seconds: u64)
    ensures
        seconds == delay(attempt as nat),
{
    let mut seconds: u64 = INITIAL_DELAY_SECONDS;
    let mut n: u32 = 1;
    while n < attempt && seconds < MAX_DELAY_SECONDS
        invariant
            n == 1 || n <= attempt,
            n >= 1,
            seconds == growing_delay(n as nat),
            seconds <= 30,
        decreases attempt - n,
    {
        seconds = seconds * DELAY_FACTOR;
        n += 1;
    }
    if seconds < MAX_DELAY_SECONDS {
        proof {
            if attempt <= 1 {
                assert(growing_delay(attempt as nat) == INITIAL_DELAY_SECONDS);
            }
        }
        seconds
    } else {
        proof {
            if n < attempt {
                lemma_delay_grows(n as nat, attempt as nat);
            } else if attempt <= 1 {
                assert(growing_delay(attempt as nat) == INITIAL_DELAY_SECONDS);
            }
        }
        MAX_DELAY_SECONDS
    }
}

proof fn lemma_delay_grows(n: nat, m: nat)
    requires
        1 <= n <= m,
    ensures
        growing_delay(n) <= growing_delay(m),
    decreases m,
{
    if n < m {
        lemma_delay_grows(n, (m - 1) as nat);
    }
}

/// What comes after an attempt to clone.
#[derive(Debug, PartialEq, Eq)]
pub enum CloneNext<T, E> {
    /// The clone ends so.
    Done(Result<T, E>),
    /// The clone is tried again after a delay.
    Retry { attempt: u32, delay_seconds: u64 },
}

/// A failure of the attempt may be worth repeating: it is not the last one.
pub open spec fn repeatable(attempt: u32) -> bool {
    attempt < MAX_ATTEMPTS
}

/// Whether a failure of the attempt may be worth repeating. Of the last attempt it need
/// not be asked why it failed.
pub fn may_repeat(attempt: u32) -> (b: bool)
    ensures
        b == repeatable(attempt),
{
    attempt < MAX_ATTEMPTS
}

/// `r` is what follows the attempt.
pub open spec fn follows<T, E>(
    attempt: u32,
    result: Result<T, E>,
    reason: Option<CloneRetryReason>,
    r: CloneNext<T, E>,
) -> bool {
    if result is Err && reason is Some && repeatable(attempt) {
        r == CloneNext::<T, E>::Retry {
            attempt: (attempt + 1) as u32,
            delay_seconds: delay(attempt as nat) as u64,
        }
    } else {
        r == CloneNext::Done(result)
    }
}

/// Decides what comes after the attempt `attempt`, counted from 1. `reason` says why its
/// failure is worth repeating, if it is. The failure of the last attempt is returned as
/// it is, and so is one that is not worth repeating.
pub fn after_attempt<T, E>(
    attempt: u32,
    result: Result<T, E>,
    reason: Option<CloneRetryReason>,
) -> (r: CloneNext<T, E>)
    ensures
        follows(attempt, result, reason, r),
{
    match result {
        Ok(value) => CloneNext::Done(Ok(value)),
        Err(error) => {
            if may_repeat(attempt) && reason.is_some() {
                CloneNext::Retry {
                    attempt: attempt + 1,
                    delay_seconds: delay_for_attempt(attempt),
                }
            } else {
                CloneNext::Done(Err(error))
            }
        },
    }
}

/// A clone is tried at most three times, and waits no longer than twelve seconds in
/// all.
pub proof fn attempts_and_delays_are_bounded<T, E>(
    attempt: u32,
    result: Result<T, E>,
    reason: Option<CloneRetryReason>,
    r: CloneNext<T, E>,
)
    requires
        1 <= attempt,
        follows(attempt, result, reason, r),
    ensures
        r matches CloneNext::Retry { attempt: next, .. } ==> next == attempt + 1 && next
            <= MAX_ATTEMPTS,
        attempt >= MAX_ATTEMPTS ==> r == CloneNext::Done(result),
        delay(1) + delay(2) == 12,
{
    reveal_with_fuel(growing_delay, 3);
}

/// What follows the last attempt does not depend on why it failed.
pub proof fn the_last_failure_needs_no_reason<T, E>(
    attempt: u32,
    result: Result<T, E>,
    a: Option<CloneRetryReason>,
    b: Option<CloneRetryReason>,
    after_a: CloneNext<T, E>,
    after_b: CloneNext<T, E>,
)
    requires
        !repeatable(attempt),
        follows(attempt, result, a, after_a),
        follows(attempt, result, b, after_b),
    ensures
        after_a == after_b,
        after_a == CloneNext::Done(result),
{
}

/// Why the result of an attempt is worth repeating, if it is. `classify` is asked only of
/// the errors of attempts that may be repeated.
pub open spec fn known_reason<T, E>(
    attempt: u32,
    result: Result<T, E>,
    classify: spec_fn(E) -> Option<CloneRetryReason>,
) -> Option<CloneRetryReason> {
    match result {
        Err(error) => if repeatable(attempt) {
            classify(error)
        } else {
            None
        },
        Ok(_) => None,
    }
}

/// What follows the attempt at place `i`, the attempts being counted from 1.
pub open spec fn goes_on<T, E>(
    results: Seq<Result<T, E>>,
    classify: spec_fn(E) -> Option<CloneRetryReason>,
    steps: Seq<CloneNext<T, E>>,
    i: int,
) -> bool {
    &&& follows(
        (i + 1) as u32,
        results[i],
        known_reason((i + 1) as u32, results[i], classify),
        steps[i],
    )
    &&& (steps[i] is Retry <==> i + 1 < steps.len())
}

/// The results of the attempts that a clone makes, and what follows each: the next
/// attempt as long as the clone is tried again.
pub open spec fn is_clone<T, E>(
    results: Seq<Result<T, E>>,
    classify: spec_fn(E) -> Option<CloneRetryReason>,
    steps: Seq<CloneNext<T, E>>,
) -> bool {
    &&& 0 < results.len()
    &&& results.len() == steps.len()
    &&& forall|i: int| 0 <= i < steps.len() ==> #[trigger] goes_on(results, classify, steps, i)
}

/// The result is one that a clone ends with, whichever attempt gave it: it is a success,
/// or an error that is not worth repeating.
pub open spec fn settles<T, E>(
    result: Result<T, E>,
    classify: spec_fn(E) -> Option<CloneRetryReason>,
) -> bool {
    match result {
        Ok(_) => true,
        Err(error) => classify(error) is None,
    }
}

/// A clone makes one to three attempts. It ends with the first that settles it, or with
/// the third, and with exactly the result of that attempt. It waits three seconds after
/// a first attempt and nine after a second, and not after the one it ends with.
pub proof fn a_clone_ends_with_its_last_attempt<T, E>(
    results: Seq<Result<T, E>>,
    classify: spec_fn(E) -> Option<CloneRetryReason>,
    steps: Seq<CloneNext<T, E>>,
)
    requires
        is_clone(results, classify, steps),
    ensures
        1 <= results.len() <= 3,
        steps.last() == CloneNext::Done(results.last()),
        settles(results.last(), classify) || results.len() == 3,
        forall|i: int|
            0 <= i < results.len() - 1 ==> !settles(#[trigger] results[i], classify),
        forall|i: int|
            0 <= i < steps.len() - 1 ==> #[trigger] steps[i] == (CloneNext::<T, E>::Retry {
                attempt: (i + 2) as u32,
                delay_seconds: if i == 0 {
                    3
                } else {
                    9
                },
            }),
{
    reveal_with_fuel(growing_delay, 3);
    if results.len() > 3 {
        assert(goes_on(results, classify, steps, 2));
    }
    assert(goes_on(results, classify, steps, steps.len() - 1));
    assert forall|i: int| 0 <= i < results.len() - 1 implies !settles(
        #[trigger] results[i],
        classify,
    ) by {
        assert(goes_on(results, classify, steps, i));
    }
    assert forall|i: int| 0 <= i < steps.len() - 1 implies #[trigger] steps[i] == (CloneNext::<
        T,
        E,
    >::Retry {
        attempt: (i + 2) as u32,
        delay_seconds: if i == 0 {
            3
        } else {
            9
        },
    }) by {
        assert(goes_on(results, classify, steps, i));
    }
}

/// Without credentials, a repository that is not found is no reason to retry; nor is
/// any message without a hint.
pub proof fn only_hints_are_retried(message: Seq<char>, has_credentials: bool)
    ensures
        classification(message, has_credentials) is Some ==> has_any(
            ascii_lowered(message),
            transient_hints(),
        ) || (has_credentials && has_any(ascii_lowered(message), token_replication_hints())),
        !has_credentials ==> classification(message, has_credentials) != Some(
            CloneRetryReason::TokenReplication,
        ),
{
}

/// A clone that succeeds ends so, and one whose failure is not worth repeating fails with
/// that failure. The first failure that is worth repeating is repeated after three
/// seconds, the second after nine, and the third is the last.
pub proof fn failures_are_repeated_twice<T, E>(
    attempt: u32,
    result: Result<T, E>,
    reason: Option<CloneRetryReason>,
    r: CloneNext<T, E>,
)
    requires
        1 <= attempt,
        call_ensures(after_attempt::<T, E>, (attempt, result, reason), r),
    ensures
        result is Ok ==> r == CloneNext::Done(result),
        reason is None ==> r == CloneNext::Done(result),
        attempt >= 3 ==> r == CloneNext::Done(result),
        attempt == 1 && result is Err && reason is Some ==> r == (CloneNext::<T, E>::Retry {
            attempt: 2,
            delay_seconds: 3,
        }),
        attempt == 2 && result is Err && reason is Some ==> r == (CloneNext::<T, E>::Retry {
            attempt: 3,
            delay_seconds: 9,
        }),
{
    reveal_with_fuel(growing_delay, 3);
}

/// The delays grow with the attempts: each is thrice the one before, until it would be
/// longer than ten seconds.
pub proof fn delays_triple_up_to_ten_seconds(attempt: u32, seconds: u64, next: u64)
    requires
        1 <= attempt < u32::MAX,
        call_ensures(delay_for_attempt, (attempt,), seconds),
        call_ensures(delay_for_attempt, ((attempt + 1) as u32,), next),
    ensures
        attempt == 1 ==> seconds == 3,
        3 <= seconds <= next <= 10,
        next == (if 3 * seconds < 10 {
            3 * seconds
        } else {
            10
        }),
{
    lemma_delay_grows(1, attempt as nat);
    assert(growing_delay(1) == 3);
    assert(growing_delay((attempt + 1) as nat) == growing_delay(attempt as nat) * 3);
}

/// The text stands for an infrastructure that failed.
pub open spec fn is_transient_hint(hint: Seq<char>) -> bool {
    ||| hint == "could not resolve host"@
    ||| hint == "temporary failure in name resolution"@
    ||| hint == "connection refused"@
    ||| hint == "connection reset"@
    ||| hint == "connection timed out"@
    ||| hint == "timed out"@
    ||| hint == "network is unreachable"@
    ||| hint == "no route to host"@
    ||| hint == "tls handshake"@
    ||| hint == "early eof"@
    ||| hint == "rpc failed"@
    ||| hint == "unexpected disconnect"@
    ||| hint == "the remote end hung up unexpectedly"@
    ||| hint == "index-pack failed"@
    ||| hint == "service unavailable"@
    ||| hint == "gateway timeout"@
    ||| hint == "too many requests"@
    ||| hint == "rate limit"@
}

/// The text stands for a token that is not visible yet.
pub open spec fn is_replication_hint(hint: Seq<char>) -> bool {
    ||| hint == "repository not found"@
    ||| hint == "authentication failed"@
    ||| hint == "invalid username or password"@
    ||| hint == "bad credentials"@
}

/// A message in which a hint stands, in letters of either case, is worth repeating, the
/// infrastructure with or without credentials and the token only with them; and nothing
/// else is.
pub proof fn messages_are_classified_by_their_hints(
    message: &str,
    has_credentials: bool,
    r: Option<CloneRetryReason>,
    hint: Seq<char>,
)
    requires
        call_ensures(classify_message, (message, has_credentials), r),
    ensures
        is_transient_hint(hint) && text_has(ascii_lowered(message@), hint) ==> r == Some(
            CloneRetryReason::TransientInfra,
        ),
        is_replication_hint(hint) && text_has(ascii_lowered(message@), hint) && has_credentials
            ==> r is Some,
        !has_credentials ==> r != Some(CloneRetryReason::TokenReplication),
        r == Some(CloneRetryReason::TransientInfra) ==> exists|h: Seq<char>| #[trigger]
            is_transient_hint(h) && text_has(ascii_lowered(message@), h),
        r == Some(CloneRetryReason::TokenReplication) ==> exists|h: Seq<char>| #[trigger]
            is_replication_hint(h) && text_has(ascii_lowered(message@), h),
{
    let transient = transient_hints();
    let replication = token_replication_hints();
    let text = ascii_lowered(message@);
    assert(is_transient_hint(hint) ==> transient.contains(hint)) by {
        assert(transient[0] == "could not resolve host"@);
        assert(transient[1] == "temporary failure in name resolution"@);
        assert(transient[2] == "connection refused"@);
        assert(transient[3] == "connection reset"@);
        assert(transient[4] == "connection timed out"@);
        assert(transient[5] == "timed out"@);
        assert(transient[6] == "network is unreachable"@);
        assert(transient[7] == "no route to host"@);
        assert(transient[8] == "tls handshake"@);
        assert(transient[9] == "early eof"@);
        assert(transient[10] == "rpc failed"@);
        assert(transient[11] == "unexpected disconnect"@);
        assert(transient[12] == "the remote end hung up unexpectedly"@);
        assert(transient[13] == "index-pack failed"@);
        assert(transient[14] == "service unavailable"@);
        assert(transient[15] == "gateway timeout"@);
        assert(transient[16] == "too many requests"@);
        assert(transient[17] == "rate limit"@);
    }
    assert(is_replication_hint(hint) ==> replication.contains(hint)) by {
        assert(replication[0] == "repository not found"@);
        assert(replication[1] == "authentication failed"@);
        assert(replication[2] == "invalid username or password"@);
        assert(replication[3] == "bad credentials"@);
    }
    assert forall|i: int| 0 <= i < transient.len() implies is_transient_hint(
        #[trigger] transient[i],
    ) by {}
    assert forall|i: int| 0 <= i < replication.len() implies is_replication_hint(
        #[trigger] replication[i],
    ) by {}
}

/// What is worth repeating stays so, whatever else the message says, and in whichever
/// letters.
pub proof fn longer_messages_keep_their_hints(
    message: &str,
    longer: &str,
    has_credentials: bool,
    r: Option<CloneRetryReason>,
    s: Option<CloneRetryReason>,
    before: Seq<char>,
    after: Seq<char>,
)
    requires
        call_ensures(classify_message, (message, has_credentials), r),
        call_ensures(classify_message, (longer, has_credentials), s),
        ascii_lowered(longer@) == ascii_lowered(before + message@ + after),
    ensures
        r is Some ==> s is Some,
        r == Some(CloneRetryReason::TransientInfra) ==> s == r,
{
    let text = ascii_lowered(message@);
    let more = ascii_lowered(longer@);
    assert(more =~= ascii_lowered(before) + text + ascii_lowered(after));
    assert forall|hints: Seq<Seq<char>>| has_any(text, hints) implies #[trigger] has_any(
        more,
        hints,
    ) by {
        let i = choose|i: int| 0 <= i < hints.len() && text_has(text, #[trigger] hints[i]);
        let at = choose|at: int| crate::text::occurs_at(text, hints[i], at);
        assert(more.subrange(at + before.len(), at + before.len() + hints[i].len())
            =~= text.subrange(at, at + hints[i].len()));
        assert(crate::text::occurs_at(more, hints[i], at + before.len()));
    }
    assert(has_any(text, transient_hints()) ==> has_any(more, transient_hints()));
    assert(has_any(text, token_replication_hints()) ==> has_any(more, token_replication_hints()));
}

} // verus!
