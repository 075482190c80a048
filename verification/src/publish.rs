//! The publish phase of a run: push the final commit and, when configured, open a
//! pull request.
//!
//! The decisions stand here. Pushing and opening the pull request are work for the
//! caller, who performs what a [`Next`] asks for and hands the result back.

use vstd::prelude::*;
use vstd::string::*;

use crate::outcome::StageOutcome;
use crate::text::{blank, trim, trimmed};

verus! {

/// How a pull request is to be merged.
#[derive(Debug, Clone, Copy, PartialEq, Eq, Structural)]
pub enum MergeStrategy {
    Merge,
    Squash,
    Rebase,
}

/// How a run wants its pull request.
#[derive(Debug, Clone, Copy, PartialEq, Eq, Structural)]
pub struct PullRequestConfig {
    pub draft: bool,
    pub auto_merge: bool,
    pub merge_strategy: MergeStrategy,
}

/// A run that has come to its end.
#[derive(Debug, PartialEq, Eq)]
pub struct Concluded {
    /// How the run ended; absent where execution ended in an error.
    pub status: Option<StageOutcome>,
    pub dry_run: bool,
    pub run_branch: Option<String>,
    pub push_run_branch: bool,
    pub base_branch: Option<String>,
    pub final_git_commit_sha: Option<String>,
    pub patch: Option<String>,
    pub goal: String,
    pub artifact_count: usize,
}

/// What the publish phase is told besides the run.
#[derive(Debug, PartialEq, Eq)]
pub struct PublishOptions {
    pub pr_config: Option<PullRequestConfig>,
    pub origin_url: Option<String>,
    pub github_credentials: bool,
    pub model: String,
}

/// What publishing came to.
#[derive(Debug, PartialEq, Eq)]
pub enum PublishOutcome {
    NotRequested,
    NoChanges { pushed_branch: String },
    Published { pushed_branch: String, pr_url: Option<String> },
}

/// Why publishing failed.
#[derive(Debug, PartialEq, Eq)]
pub struct PublishError {
    pub message: String,
    pub source: Option<String>,
    pub exec_output_tail: Option<String>,
}

/// What the publish phase announces.
#[derive(Debug, PartialEq, Eq)]
pub enum PublishEvent {
    GitPush { branch: String, success: bool, exec_output_tail: Option<String> },
    PullRequestFailed { error: String },
    PullRequestCreated {
        html_url: String,
        base_branch: String,
        head_branch: String,
        head_sha: String,
        title: String,
        draft: bool,
    },
}

/// A push that is under way.
#[derive(Debug, PartialEq, Eq)]
pub struct Push {
    pub origin_url: String,
    pub branch: String,
    pub final_sha: String,
    pub refspec: String,
}

/// A push that failed.
#[derive(Debug, PartialEq, Eq)]
pub struct PushFailure {
    pub message: String,
    pub exec_output_tail: Option<String>,
}

/// A pull request to open.
#[derive(Debug, PartialEq, Eq)]
pub struct OpenPullRequestRequest {
    pub origin_url: String,
    pub base_branch: String,
    pub head_branch: String,
    pub expected_head_sha: String,
    pub goal: String,
    pub diff: String,
    pub model: String,
    pub draft: bool,
    pub auto_merge: Option<MergeStrategy>,
}

/// A pull request that has been opened.
#[derive(Debug, PartialEq, Eq)]
pub struct CreatedPullRequest {
    pub html_url: String,
    pub base_branch: String,
    pub head_branch: String,
    pub head_sha: String,
    pub title: String,
}

/// What comes next in the publish phase.
#[derive(Debug, PartialEq, Eq)]
pub enum Next {
    Done(Result<PublishOutcome, PublishError>),
    Push(Push),
    OpenPullRequest(OpenPullRequestRequest),
}

/// One step of the publish phase: what it announces, and what comes next.
#[derive(Debug, PartialEq, Eq)]
pub struct Step {
    pub events: Vec<PublishEvent>,
    pub next: Next,
}

/// The run ended in success, whole or partial.
pub open spec fn succeeded(run: Concluded) -> bool {
    run.status == Some(StageOutcome::Succeeded) || run.status == Some(
        StageOutcome::PartiallySucceeded,
    )
}

/// The origin that the options name, unless it is blank.
pub open spec fn origin(options: PublishOptions) -> Option<String> {
    match options.origin_url {
        Some(url) => if trimmed(url@).len() == 0 {
            None
        } else {
            Some(url)
        },
        None => None,
    }
}

/// The run has a remote branch: an origin, a branch of its own, and leave to push it.
pub open spec fn has_remote_branch(run: Concluded, options: PublishOptions) -> bool {
    origin(options) is Some && run.run_branch is Some && run.push_run_branch
}

/// The step ends in an error with the message `message`, caused by nothing else.
pub open spec fn fails_with(step: Step, message: Seq<char>) -> bool {
    match step.next {
        Next::Done(Err(error)) => error.message@ == message && error.source is None
            && error.exec_output_tail is None,
        _ => false,
    }
}

/// The step announces that a pull request failed with `message`, and ends so.
pub open spec fn fails_pull_request(step: Step, message: Seq<char>) -> bool {
    &&& fails_with(step, message)
    &&& step.events@.len() == 1
    &&& step.events@[0] matches PublishEvent::PullRequestFailed { error } && error@ == message
}

/// The step announces nothing and asks for nothing.
pub open spec fn is_no_op(step: Step) -> bool {
    step.events@.len() == 0 && step.next == Next::Done(Ok(PublishOutcome::NotRequested))
}

/// The refspec that pushes a branch to the branch of the same name.
pub open spec fn branch_refspec(branch: Seq<char>) -> Seq<char> {
    "refs/heads/"@ + branch + ":refs/heads/"@ + branch
}

/// The first step of the publish phase.
pub open spec fn begins(run: Concluded, options: PublishOptions, step: Step) -> bool {
    if !succeeded(run) || run.dry_run || !has_remote_branch(run, options) {
        is_no_op(step)
    } else if run.final_git_commit_sha is None {
        step.events@.len() == 0 && fails_with(
            step,
            "cannot publish a run without a final git commit SHA"@,
        )
    } else {
        &&& step.events@.len() == 0
        &&& step.next matches Next::Push(push) && {
            &&& Some(push.origin_url) == origin(options)
            &&& Some(push.branch) == run.run_branch
            &&& Some(push.final_sha) == run.final_git_commit_sha
            &&& push.refspec@ == branch_refspec(push.branch@)
        }
    }
}

/// The announcement of a push.
pub open spec fn announces_push(event: PublishEvent, push: Push, failure: Option<PushFailure>) -> bool {
    match event {
        PublishEvent::GitPush { branch, success, exec_output_tail } => {
            &&& branch == push.branch
            &&& success == (failure is None)
            &&& exec_output_tail == (match failure {
                Some(f) => f.exec_output_tail,
                None => None,
            })
        },
        _ => false,
    }
}

/// The diff of the run, empty where there is none.
pub open spec fn diff_of(run: Concluded) -> Seq<char> {
    match run.patch {
        Some(patch) => patch@,
        None => Seq::empty(),
    }
}

/// The message for a push that failed.
pub open spec fn push_failure_message(push: Push) -> Seq<char> {
    "failed to push final commit "@ + push.final_sha@ + " to branch '"@ + push.branch@ + "'"@
}

/// The step that follows a push.
pub open spec fn follows_push(
    run: Concluded,
    options: PublishOptions,
    push: Push,
    failure: Option<PushFailure>,
    step: Step,
) -> bool {
    &&& step.events@.len() >= 1
    &&& announces_push(step.events@[0], push, failure)
    &&& if let Some(f) = failure {
        &&& step.events@.len() == 1
        &&& step.next matches Next::Done(Err(error)) && {
            &&& error.message@ == push_failure_message(push)
            &&& error.source == Some(f.message)
            &&& error.exec_output_tail == f.exec_output_tail
        }
    } else if options.pr_config is None {
        step.events@.len() == 1 && step.next == Next::Done(
            Ok(PublishOutcome::Published { pushed_branch: push.branch, pr_url: None }),
        )
    } else if trimmed(diff_of(run)).len() == 0 {
        step.events@.len() == 1 && step.next == Next::Done(
            Ok(PublishOutcome::NoChanges { pushed_branch: push.branch }),
        )
    } else if run.base_branch is None {
        fails_after_push(step, "pull request creation requires a base branch"@)
    } else if !options.github_credentials {
        fails_after_push(step, "pull request creation requires GitHub credentials"@)
    } else {
        &&& step.events@.len() == 1
        &&& step.next matches Next::OpenPullRequest(request) && asks_for_pull_request(
            run,
            options,
            push,
            request,
        )
    }
}

/// The step announces, after the push, that a pull request failed, and ends so.
pub open spec fn fails_after_push(step: Step, message: Seq<char>) -> bool {
    &&& fails_with(step, message)
    &&& step.events@.len() == 2
    &&& step.events@[1] matches PublishEvent::PullRequestFailed { error } && error@ == message
}

/// The request for the pull request of a pushed run.
pub open spec fn asks_for_pull_request(
    run: Concluded,
    options: PublishOptions,
    push: Push,
    request: OpenPullRequestRequest,
) -> bool {
    &&& request.origin_url == push.origin_url
    &&& Some(request.base_branch) == run.base_branch
    &&& request.head_branch == push.branch
    &&& request.expected_head_sha == push.final_sha
    &&& request.goal == run.goal
    &&& request.diff@ == diff_of(run)
    &&& request.model == options.model
    &&& options.pr_config matches Some(config) && {
        &&& request.draft == config.draft
        &&& request.auto_merge == (if config.auto_merge {
            Some(config.merge_strategy)
        } else {
            None
        })
    }
}

/// The step that follows the attempt to open a pull request.
pub open spec fn follows_pull_request(
    request: OpenPullRequestRequest,
    created: Result<Option<CreatedPullRequest>, String>,
    step: Step,
) -> bool {
    match created {
        Err(message) => {
            &&& step.events@ == seq![PublishEvent::PullRequestFailed { error: message }]
            &&& step.next matches Next::Done(Err(error)) && {
                &&& error.message@ == "failed to create pull request"@
                &&& error.source == Some(message)
                &&& error.exec_output_tail is None
            }
        },
        Ok(None) => fails_pull_request(
            step,
            "pull request creation found no changes after the stored diff was checked"@,
        ),
        Ok(Some(pr)) => {
            &&& step.events@ == seq![
                PublishEvent::PullRequestCreated {
                    html_url: pr.html_url,
                    base_branch: pr.base_branch,
                    head_branch: pr.head_branch,
                    head_sha: pr.head_sha,
                    title: pr.title,
                    draft: request.draft,
                },
            ]
            &&& step.next == Next::Done(
                Ok(
                    PublishOutcome::Published {
                        pushed_branch: request.head_branch,
                        pr_url: Some(pr.html_url),
                    },
                ),
            )
        },
    }
}

fn plain_error(message: &str) -> (r: PublishError)
    ensures
        r.message@ == message@,
        r.source is None,
        r.exec_output_tail is None,
{
    PublishError { message: message.to_owned(), source: None, exec_output_tail: None }
}

/// The step that announces the failure of a pull request and ends with it.
pub fn pull_request_error(message: &str) -> (step: Step)
    ensures
        fails_pull_request(step, message@),
{
    let mut events: Vec<PublishEvent> = Vec::new();
    events.push(PublishEvent::PullRequestFailed { error: message.to_owned() });
    Step { events, next: Next::Done(Err(plain_error(message))) }
}

fn not_requested() -> (step: Step)
    ensures
        is_no_op(step),
{
    Step { events: Vec::new(), next: Next::Done(Ok(PublishOutcome::NotRequested)) }
}

/// Starts the publish phase of a run.
pub fn begin_publish(run: &Concluded, options: &PublishOptions) -> (step: Step)
    ensures
        begins(*run, *options, step),
{
    let successful = match run.status {
        Some(StageOutcome::Succeeded) => true,
        Some(StageOutcome::PartiallySucceeded) => true,
        _ => false,
    };
    if !successful || run.dry_run {
        return not_requested();
    }
    let origin_url = match &options.origin_url {
        Some(url) => {
            if trim(url.as_str()).unicode_len() == 0 {
                return not_requested();
            }
            url.clone()
        },
        None => {
            return not_requested();
        },
    };
    let branch = match &run.run_branch {
        Some(branch) => branch.clone(),
        None => {
            return not_requested();
        },
    };
    if !run.push_run_branch {
        return not_requested();
    }
    let final_sha = match &run.final_git_commit_sha {
        Some(sha) => sha.clone(),
        None => {
            return Step {
                events: Vec::new(),
                next: Next::Done(
                    Err(plain_error("cannot publish a run without a final git commit SHA")),
                ),
            };
        },
    };
    let mut refspec = "refs/heads/".to_owned();
    refspec.append(branch.as_str());
    refspec.append(":refs/heads/");
    refspec.append(branch.as_str());
    Step {
        events: Vec::new(),
        next: Next::Push(Push { origin_url, branch, final_sha, refspec }),
    }
}

fn clone_tail(tail: &Option<String>) -> (r: Option<String>)
    ensures
        r == *tail,
{
    match tail {
        Some(text) => Some(text.clone()),
        None => None,
    }
}

/// Goes on after the push: `failure` is absent where the push went through.
pub fn after_push(
    run: &Concluded,
    options: &PublishOptions,
    push: Push,
    failure: Option<PushFailure>,
) -> (step: Step)
    ensures
        follows_push(*run, *options, push, failure, step),
{
    let mut events: Vec<PublishEvent> = Vec::new();
    if let Some(f) = failure {
        let mut message = "failed to push final commit ".to_owned();
        message.append(push.final_sha.as_str());
        message.append(" to branch '");
        message.append(push.branch.as_str());
        message.append("'");
        events.push(
            PublishEvent::GitPush {
                branch: push.branch,
                success: false,
                exec_output_tail: clone_tail(&f.exec_output_tail),
            },
        );
        return Step {
            events,
            next: Next::Done(
                Err(
                    PublishError {
                        message,
                        source: Some(f.message),
                        exec_output_tail: f.exec_output_tail,
                    },
                ),
            ),
        };
    }
    events.push(
        PublishEvent::GitPush {
            branch: push.branch.clone(),
            success: true,
            exec_output_tail: None,
        },
    );
    let config = match &options.pr_config {
        Some(config) => config,
        None => {
            return Step {
                events,
                next: Next::Done(
                    Ok(PublishOutcome::Published { pushed_branch: push.branch, pr_url: None }),
                ),
            };
        },
    };
    let diff = match &run.patch {
        Some(patch) => patch.clone(),
        None => String::new(),
    };
    if trim(diff.as_str()).unicode_len() == 0 {
        return Step {
            events,
            next: Next::Done(Ok(PublishOutcome::NoChanges { pushed_branch: push.branch })),
        };
    }
    let base_branch = match &run.base_branch {
        Some(branch) => branch.clone(),
        None => {
            let message = "pull request creation requires a base branch";
            events.push(PublishEvent::PullRequestFailed { error: message.to_owned() });
            return Step { events, next: Next::Done(Err(plain_error(message))) };
        },
    };
    if !options.github_credentials {
        let message = "pull request creation requires GitHub credentials";
        events.push(PublishEvent::PullRequestFailed { error: message.to_owned() });
        return Step { events, next: Next::Done(Err(plain_error(message))) };
    }
    let auto_merge = if config.auto_merge {
        Some(config.merge_strategy)
    } else {
        None
    };
    Step {
        events,
        next: Next::OpenPullRequest(
            OpenPullRequestRequest {
                origin_url: push.origin_url,
                base_branch,
                head_branch: push.branch,
                expected_head_sha: push.final_sha,
                goal: run.goal.clone(),
                diff,
                model: options.model.clone(),
                draft: config.draft,
                auto_merge,
            },
        ),
    }
}

/// Goes on after the attempt to open the pull request: `created` holds the pull
/// request, nothing where there was nothing to open one for, or the failure.
pub fn after_pull_request(
    request: OpenPullRequestRequest,
    created: Result<Option<CreatedPullRequest>, String>,
) -> (step: Step)
    ensures
        follows_pull_request(request, created, step),
{
    let mut events: Vec<PublishEvent> = Vec::new();
    match created {
        Err(message) => {
            events.push(PublishEvent::PullRequestFailed { error: message.clone() });
            Step {
                events,
                next: Next::Done(
                    Err(
                        PublishError {
                            message: "failed to create pull request".to_owned(),
                            source: Some(message),
                            exec_output_tail: None,
                        },
                    ),
                ),
            }
        },
        Ok(None) => pull_request_error(
            "pull request creation found no changes after the stored diff was checked",
        ),
        Ok(Some(pr)) => {
            let html_url = pr.html_url.clone();
            events.push(
                PublishEvent::PullRequestCreated {
                    html_url: pr.html_url,
                    base_branch: pr.base_branch,
                    head_branch: pr.head_branch,
                    head_sha: pr.head_sha,
                    title: pr.title,
                    draft: request.draft,
                },
            );
            Step {
                events,
                next: Next::Done(
                    Ok(
                        PublishOutcome::Published {
                            pushed_branch: request.head_branch,
                            pr_url: Some(html_url),
                        },
                    ),
                ),
            }
        },
    }
}

/// A run that has been through the publish phase.
#[derive(Debug, PartialEq, Eq)]
pub struct Published {
    pub status: Option<StageOutcome>,
    pub publish_outcome: Result<PublishOutcome, PublishError>,
    pub dry_run: bool,
    pub run_branch: Option<String>,
    pub push_run_branch: bool,
    pub base_branch: Option<String>,
    pub final_git_commit_sha: Option<String>,
    pub patch: Option<String>,
    pub artifact_count: usize,
}

/// The published run: how execution and publishing ended, side by side, with the options
/// and the conclusion of the run. Its graph, and with it the goal, is left behind.
pub fn publish(
    run: Concluded,
    publish_outcome: Result<PublishOutcome, PublishError>,
) -> (r: Published)
    ensures
        r.status == run.status,
        r.publish_outcome == publish_outcome,
        r.dry_run == run.dry_run,
        r.run_branch == run.run_branch,
        r.push_run_branch == run.push_run_branch,
        r.base_branch == run.base_branch,
        r.final_git_commit_sha == run.final_git_commit_sha,
        r.patch == run.patch,
        r.artifact_count == run.artifact_count,
{
    Published {
        status: run.status,
        publish_outcome,
        dry_run: run.dry_run,
        run_branch: run.run_branch,
        push_run_branch: run.push_run_branch,
        base_branch: run.base_branch,
        final_git_commit_sha: run.final_git_commit_sha,
        patch: run.patch,
        artifact_count: run.artifact_count,
    }
}

/// Publishing is a no-op for a run that did not succeed and for a dry run,
/// whatever was configured.
pub proof fn unsuccessful_and_dry_runs_are_not_published(
    run: Concluded,
    options: PublishOptions,
    step: Step,
)
    requires
        begins(run, options, step),
        !succeeded(run) || run.dry_run,
    ensures
        step.events@.len() == 0,
        step.next == Next::Done(Ok(PublishOutcome::NotRequested)),
{
}

/// Publishing is a no-op for a run without a remote branch, whatever was configured.
pub proof fn runs_without_a_remote_branch_are_not_published(
    run: Concluded,
    options: PublishOptions,
    step: Step,
)
    requires
        begins(run, options, step),
        !has_remote_branch(run, options),
    ensures
        step.events@.len() == 0,
        step.next == Next::Done(Ok(PublishOutcome::NotRequested)),
{
}

/// A pull request is asked for only after the push went through, for the branch
/// and the commit that were pushed, and only where one was configured and the run
/// changed something.
pub proof fn pull_requests_follow_a_successful_push(
    run: Concluded,
    options: PublishOptions,
    first: Step,
    push: Push,
    failure: Option<PushFailure>,
    second: Step,
)
    requires
        begins(run, options, first),
        first.next == Next::Push(push),
        follows_push(run, options, push, failure, second),
        second.next is OpenPullRequest,
    ensures
        failure is None,
        options.pr_config is Some,
        trimmed(diff_of(run)).len() > 0,
        Some(second.next->OpenPullRequest_0.head_branch) == run.run_branch,
        Some(second.next->OpenPullRequest_0.expected_head_sha) == run.final_git_commit_sha,
{
}

/// The publish phase ends: the first step never opens a pull request, the step
/// after the push never pushes again, and the step after the pull request is the last.
pub proof fn publishing_takes_at_most_three_steps(
    run: Concluded,
    options: PublishOptions,
    push: Push,
    failure: Option<PushFailure>,
    request: OpenPullRequestRequest,
    created: Result<Option<CreatedPullRequest>, String>,
    first: Step,
    second: Step,
    third: Step,
)
    requires
        begins(run, options, first),
        follows_push(run, options, push, failure, second),
        follows_pull_request(request, created, third),
    ensures
        first.next !is OpenPullRequest,
        second.next !is Push,
        third.next is Done,
{
}

/// Every failure of a pull request that ends the phase after the push was
/// announced, and its announcement is the last event of its step.
pub proof fn failed_pull_requests_are_announced(
    request: OpenPullRequestRequest,
    created: Result<Option<CreatedPullRequest>, String>,
    step: Step,
)
    requires
        follows_pull_request(request, created, step),
    ensures
        (step.next matches Next::Done(Err(_))) <==> (step.events@.last() is PullRequestFailed),
        (step.next matches Next::Done(Ok(_))) <==> (step.events@.last() is PullRequestCreated),
{
}

// ---- What publishing is for ----

/// A pull request merges itself if and only if the configuration switches that on, and
/// then by the configured strategy; it is a draft exactly as configured.
pub proof fn auto_merge_is_asked_for_exactly_where_it_is_switched_on(
    run: &Concluded,
    options: &PublishOptions,
    push: Push,
    failure: Option<PushFailure>,
    step: Step,
    request: OpenPullRequestRequest,
)
    requires
        call_ensures(after_push, (run, options, push, failure), step),
        step.next == Next::OpenPullRequest(request),
    ensures
        options.pr_config matches Some(config) && {
            &&& request.auto_merge is Some <==> config.auto_merge
            &&& request.auto_merge matches Some(strategy) ==> strategy == config.merge_strategy
            &&& request.draft == config.draft
        },
{
}

/// The pull request that is asked for after a push is that of the run: for the branch
/// and the commit that were pushed, to where they were pushed, against the base branch
/// of the run, with its goal, its whole diff and the model of the options.
pub proof fn the_pull_request_speaks_of_the_run(
    run: &Concluded,
    options: &PublishOptions,
    push: Push,
    failure: Option<PushFailure>,
    step: Step,
    request: OpenPullRequestRequest,
)
    requires
        call_ensures(after_push, (run, options, push, failure), step),
        step.next == Next::OpenPullRequest(request),
    ensures
        request.origin_url == push.origin_url,
        request.head_branch == push.branch,
        request.expected_head_sha == push.final_sha,
        run.base_branch == Some(request.base_branch),
        request.goal == run.goal,
        run.patch matches Some(patch) && request.diff@ == patch@,
        request.model == options.model,
{
    if run.patch is None {
        crate::text::only_blank_text_is_trimmed_away(diff_of(*run));
    }
}

/// What a push is followed by, by what went before: a push that failed ends the phase
/// with an error; without a configuration the pushed branch is all there is; a run that
/// changed nothing has no pull request; and else one is opened, or refused for want of
/// a base branch or, with one, of credentials.
pub proof fn a_push_is_followed_by_what_was_configured(
    run: &Concluded,
    options: &PublishOptions,
    push: Push,
    failure: Option<PushFailure>,
    step: Step,
)
    requires
        call_ensures(after_push, (run, options, push, failure), step),
    ensures
        failure is Some ==> (step.next matches Next::Done(Err(_))),
        failure is None && options.pr_config is None ==> step.next == Next::Done(
            Ok(PublishOutcome::Published { pushed_branch: push.branch, pr_url: None }),
        ),
        failure is None && options.pr_config is Some && (run.patch is None || blank(
            run.patch->0@,
        )) ==> step.next == Next::Done(
            Ok(PublishOutcome::NoChanges { pushed_branch: push.branch }),
        ),
        failure is None && options.pr_config is Some && run.patch is Some && !blank(run.patch->0@)
            ==> {
            &&& run.base_branch is Some && options.github_credentials
                <==> step.next is OpenPullRequest
            &&& run.base_branch is None ==> (step.next matches Next::Done(Err(error))
                && error.message@ == "pull request creation requires a base branch"@)
            &&& run.base_branch is Some && !options.github_credentials ==> (
            step.next matches Next::Done(Err(error)) && error.message@
                == "pull request creation requires GitHub credentials"@)
        },
{
    crate::text::only_blank_text_is_trimmed_away(diff_of(*run));
}

/// Every push is announced first, with its branch and whether it went through. Behind it
/// comes the announcement of a pull request that was refused, and nothing else: there is
/// one exactly where the phase ends in an error although the push went through.
pub proof fn what_follows_a_push_is_announced(
    run: &Concluded,
    options: &PublishOptions,
    push: Push,
    failure: Option<PushFailure>,
    step: Step,
)
    requires
        call_ensures(after_push, (run, options, push, failure), step),
    ensures
        step.events@.len() >= 1,
        step.events@[0] == (PublishEvent::GitPush {
            branch: push.branch,
            success: failure is None,
            exec_output_tail: match failure {
                Some(f) => f.exec_output_tail,
                None => None,
            },
        }),
        failure is None && (step.next matches Next::Done(Err(error))) ==> step.events@.len() == 2
            && (step.events@[1] matches PublishEvent::PullRequestFailed { error: text } && text@
            == step.next->Done_0->Err_0.message@),
        !(failure is None && (step.next matches Next::Done(Err(_)))) ==> step.events@.len() == 1,
        failure matches Some(f) ==> (step.next matches Next::Done(Err(error)) && error.source
            == Some(f.message) && error.exec_output_tail == f.exec_output_tail && error.message@
            == "failed to push final commit "@ + push.final_sha@ + " to branch '"@ + push.branch@
            + "'"@),
{
}

/// A run is published exactly if it succeeded, wholly or in part, is no dry run, and has
/// a remote branch: an origin that is not blank, a branch, and leave to push it. With a
/// final commit it is pushed; without one publishing fails; else nothing happens.
pub proof fn successful_runs_with_a_remote_branch_are_pushed(
    run: &Concluded,
    options: &PublishOptions,
    step: Step,
)
    requires
        call_ensures(begin_publish, (run, options), step),
    ensures
        ({
            let ended_well = run.status == Some(StageOutcome::Succeeded) || run.status == Some(
                StageOutcome::PartiallySucceeded,
            );
            let remote = options.origin_url is Some && !blank(options.origin_url->0@)
                && run.run_branch is Some && run.push_run_branch;
            let wanted = ended_well && !run.dry_run && remote;
            &&& step.events@.len() == 0
            &&& wanted && run.final_git_commit_sha is Some <==> step.next is Push
            &&& wanted && run.final_git_commit_sha is None ==> (step.next matches Next::Done(
                Err(error),
            ) && error.message@ == "cannot publish a run without a final git commit SHA"@)
            &&& !wanted ==> step.next == Next::Done(Ok(PublishOutcome::NotRequested))
        }),
{
    if let Some(url) = options.origin_url {
        crate::text::only_blank_text_is_trimmed_away(url@);
    }
}

/// What is pushed is the final commit of the run, on its branch, to the origin as it was
/// given: to the branch of the same name there.
pub proof fn the_final_commit_is_pushed_to_the_branch_of_the_run(
    run: &Concluded,
    options: &PublishOptions,
    step: Step,
    push: Push,
)
    requires
        call_ensures(begin_publish, (run, options), step),
        step.next == Next::Push(push),
    ensures
        options.origin_url == Some(push.origin_url),
        run.run_branch == Some(push.branch),
        run.final_git_commit_sha == Some(push.final_sha),
        push.refspec@ == "refs/heads/"@ + push.branch@ + ":refs/heads/"@ + push.branch@,
{
}

/// What opening a pull request gave is what publishing comes to: its address, with the
/// branch that was pushed, or an error. It is announced with all that is known of it.
pub proof fn an_opened_pull_request_is_published(
    request: OpenPullRequestRequest,
    created: Result<Option<CreatedPullRequest>, String>,
    step: Step,
)
    requires
        call_ensures(after_pull_request, (request, created), step),
    ensures
        step.events@.len() == 1,
        created matches Ok(Some(pr)) ==> {
            &&& step.next == Next::Done(
                Ok(
                    PublishOutcome::Published {
                        pushed_branch: request.head_branch,
                        pr_url: Some(pr.html_url),
                    },
                ),
            )
            &&& step.events@[0] == (PublishEvent::PullRequestCreated {
                html_url: pr.html_url,
                base_branch: pr.base_branch,
                head_branch: pr.head_branch,
                head_sha: pr.head_sha,
                title: pr.title,
                draft: request.draft,
            })
        },
        created matches Ok(None) ==> (step.next matches Next::Done(Err(error)) && error.source is None
            && (step.events@[0] matches PublishEvent::PullRequestFailed { error: text } && text@
            == error.message@)),
        created matches Err(message) ==> {
            &&& step.events@[0] == (PublishEvent::PullRequestFailed { error: message })
            &&& step.next matches Next::Done(Err(error)) && error.source == Some(message)
        },
{
}

/// Publishing changes nothing of how the run ended: the published run holds what it
/// concluded with beside what publishing came to.
pub proof fn publishing_keeps_the_conclusion(
    run: Concluded,
    outcome: Result<PublishOutcome, PublishError>,
    r: Published,
)
    requires
        call_ensures(publish, (run, outcome), r),
    ensures
        r == (Published {
            status: run.status,
            publish_outcome: outcome,
            dry_run: run.dry_run,
            run_branch: run.run_branch,
            push_run_branch: run.push_run_branch,
            base_branch: run.base_branch,
            final_git_commit_sha: run.final_git_commit_sha,
            patch: run.patch,
            artifact_count: run.artifact_count,
        }),
{
}

/// A pull request that could not be opened fails the publishing, with what GitHub said as
/// the reason; so does one for which no changes were left.
pub proof fn unopened_pull_requests_fail_the_publishing(
    request: OpenPullRequestRequest,
    created: Result<Option<CreatedPullRequest>, String>,
    step: Step,
)
    requires
        follows_pull_request(request, created, step),
    ensures
        created matches Err(message) ==> {
            &&& step.events@.len() == 1
            &&& step.events@[0] == (PublishEvent::PullRequestFailed { error: message })
            &&& step.next matches Next::Done(Err(error)) && error.source == Some(message)
                && error.message@ == "failed to create pull request"@
        },
        created matches Ok(None) ==> (step.next matches Next::Done(Err(error)) && error.message@
            == "pull request creation found no changes after the stored diff was checked"@
            && error.source is None),
{
}

} // verus!
