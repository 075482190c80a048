use fabro::outcome::StageOutcome;
use fabro::publish::{
    after_pull_request, after_push, begin_publish, publish, Concluded, CreatedPullRequest,
    MergeStrategy, Next, OpenPullRequestRequest, PublishError, PublishEvent, PublishOptions,
    PublishOutcome, PullRequestConfig, Push, PushFailure, Step,
};

fn run() -> Concluded {
    Concluded {
        status: Some(StageOutcome::Succeeded),
        dry_run: false,
        run_branch: Some("fabro/run-1".to_string()),
        push_run_branch: true,
        base_branch: Some("main".to_string()),
        final_git_commit_sha: Some("abc123".to_string()),
        patch: Some("+line".to_string()),
        goal: "Ship it".to_string(),
        artifact_count: 2,
    }
}

fn options(pull_request: bool) -> PublishOptions {
    PublishOptions {
        pr_config: pull_request.then_some(PullRequestConfig {
            draft: true,
            auto_merge: false,
            merge_strategy: MergeStrategy::Squash,
        }),
        origin_url: Some("https://github.com/owner/repo".to_string()),
        github_credentials: true,
        model: "gpt-5.4".to_string(),
    }
}

fn not_requested(step: &Step) -> bool {
    step.events.is_empty() && step.next == Next::Done(Ok(PublishOutcome::NotRequested))
}

fn failure(step: &Step) -> String {
    match &step.next {
        Next::Done(Err(error)) => error.message.clone(),
        other => panic!("expected a failure: {other:?}"),
    }
}

fn push(step: Step) -> Push {
    match step.next {
        Next::Push(push) => push,
        other => panic!("expected a push: {other:?}"),
    }
}

fn request(step: Step) -> OpenPullRequestRequest {
    match step.next {
        Next::OpenPullRequest(request) => request,
        other => panic!("expected a pull request: {other:?}"),
    }
}

#[test]
fn unsuccessful_and_dry_runs_publish_nothing() {
    for status in [
        None,
        Some(StageOutcome::Skipped),
        Some(StageOutcome::Failed {
            retry_requested: true,
        }),
    ] {
        let mut run = run();
        run.status = status;
        assert!(not_requested(&begin_publish(&run, &options(true))));
    }
    let mut dry = run();
    dry.dry_run = true;
    assert!(not_requested(&begin_publish(&dry, &options(true))));
}

#[test]
fn runs_without_a_remote_branch_publish_nothing() {
    for requested in [false, true] {
        for origin_url in [None, Some("  ".to_string())] {
            let mut no_origin = options(requested);
            no_origin.origin_url = origin_url;
            assert!(not_requested(&begin_publish(&run(), &no_origin)));
        }
        let mut no_branch = run();
        no_branch.run_branch = None;
        assert!(not_requested(&begin_publish(&no_branch, &options(requested))));
        let mut unpushed = run();
        unpushed.push_run_branch = false;
        assert!(not_requested(&begin_publish(&unpushed, &options(requested))));
        unpushed.final_git_commit_sha = None;
        assert!(not_requested(&begin_publish(&unpushed, &options(requested))));
    }
}

#[test]
fn a_final_commit_is_needed_to_publish() {
    let mut run = run();
    run.final_git_commit_sha = None;
    let step = begin_publish(&run, &options(false));
    assert_eq!(failure(&step), "cannot publish a run without a final git commit SHA");
    assert!(step.events.is_empty());
}

#[test]
fn branches_are_pushed_to_their_own_name() {
    let mut run = run();
    run.status = Some(StageOutcome::PartiallySucceeded);
    let push = push(begin_publish(&run, &options(false)));
    assert_eq!(push.refspec, "refs/heads/fabro/run-1:refs/heads/fabro/run-1");
    let step = after_push(&run, &options(false), push, None);
    assert_eq!(
        step.events,
        vec![PublishEvent::GitPush {
            branch: "fabro/run-1".to_string(),
            success: true,
            exec_output_tail: None
        }]
    );
    assert_eq!(
        step.next,
        Next::Done(Ok(PublishOutcome::Published {
            pushed_branch: "fabro/run-1".to_string(),
            pr_url: None
        }))
    );
}

#[test]
fn failed_pushes_keep_their_output() {
    let first = push(begin_publish(&run(), &options(true)));
    let step = after_push(
        &run(),
        &options(true),
        first,
        Some(PushFailure {
            message: "rejected".to_string(),
            exec_output_tail: Some("remote: no".to_string()),
        }),
    );
    assert_eq!(
        step.next,
        Next::Done(Err(PublishError {
            message: "failed to push final commit abc123 to branch 'fabro/run-1'".to_string(),
            source: Some("rejected".to_string()),
            exec_output_tail: Some("remote: no".to_string()),
        }))
    );
    assert_eq!(step.events.len(), 1);
}

#[test]
fn runs_without_changes_open_no_pull_request() {
    let mut run = run();
    run.patch = Some(" \n".to_string());
    let first = push(begin_publish(&run, &options(true)));
    assert_eq!(
        after_push(&run, &options(true), first, None).next,
        Next::Done(Ok(PublishOutcome::NoChanges {
            pushed_branch: "fabro/run-1".to_string()
        }))
    );
}

#[test]
fn pull_requests_need_a_base_and_credentials() {
    let mut no_base = run();
    no_base.base_branch = None;
    let first = push(begin_publish(&no_base, &options(true)));
    let step = after_push(&no_base, &options(true), first, None);
    assert_eq!(failure(&step), "pull request creation requires a base branch");
    assert_eq!(step.events.len(), 2);

    let mut anonymous = options(true);
    anonymous.github_credentials = false;
    let first = push(begin_publish(&run(), &anonymous));
    let step = after_push(&run(), &anonymous, first, None);
    assert_eq!(failure(&step), "pull request creation requires GitHub credentials");
}

#[test]
fn pull_requests_are_opened_for_what_was_pushed() {
    let mut merging = options(true);
    merging.pr_config = Some(PullRequestConfig {
        draft: false,
        auto_merge: true,
        merge_strategy: MergeStrategy::Rebase,
    });
    let first = push(begin_publish(&run(), &merging));
    let asked = request(after_push(&run(), &merging, first, None));
    assert_eq!(
        asked,
        OpenPullRequestRequest {
            origin_url: "https://github.com/owner/repo".to_string(),
            base_branch: "main".to_string(),
            head_branch: "fabro/run-1".to_string(),
            expected_head_sha: "abc123".to_string(),
            goal: "Ship it".to_string(),
            diff: "+line".to_string(),
            model: "gpt-5.4".to_string(),
            draft: false,
            auto_merge: Some(MergeStrategy::Rebase),
        }
    );
    let created = CreatedPullRequest {
        html_url: "https://github.com/owner/repo/pull/7".to_string(),
        base_branch: "main".to_string(),
        head_branch: "fabro/run-1".to_string(),
        head_sha: "abc123".to_string(),
        title: "Ship it".to_string(),
    };
    let step = after_pull_request(asked, Ok(Some(created)));
    assert_eq!(
        step.next,
        Next::Done(Ok(PublishOutcome::Published {
            pushed_branch: "fabro/run-1".to_string(),
            pr_url: Some("https://github.com/owner/repo/pull/7".to_string()),
        }))
    );
    assert!(matches!(
        step.events.as_slice(),
        [PublishEvent::PullRequestCreated { draft: false, .. }]
    ));
}

#[test]
fn failed_pull_requests_end_the_phase() {
    let asked = || {
        let first = push(begin_publish(&run(), &options(true)));
        request(after_push(&run(), &options(true), first, None))
    };
    let step = after_pull_request(asked(), Err("api down".to_string()));
    assert_eq!(
        step.next,
        Next::Done(Err(PublishError {
            message: "failed to create pull request".to_string(),
            source: Some("api down".to_string()),
            exec_output_tail: None,
        }))
    );
    assert_eq!(
        step.events,
        vec![PublishEvent::PullRequestFailed {
            error: "api down".to_string()
        }]
    );
    assert_eq!(
        failure(&after_pull_request(asked(), Ok(None))),
        "pull request creation found no changes after the stored diff was checked"
    );
}

#[test]
fn execution_and_publishing_end_side_by_side() {
    let published = publish(run(), Ok(PublishOutcome::NotRequested));
    assert_eq!(published.status, Some(StageOutcome::Succeeded));
    assert_eq!(published.publish_outcome, Ok(PublishOutcome::NotRequested));
    assert_eq!(published.final_git_commit_sha.as_deref(), Some("abc123"));
    assert_eq!(published.patch.as_deref(), Some("+line"));
    assert_eq!(published.artifact_count, 2);
    assert!(!published.dry_run);
    assert_eq!(published.run_branch.as_deref(), Some("fabro/run-1"));
    assert!(published.push_run_branch);
    assert_eq!(published.base_branch.as_deref(), Some("main"));
}
