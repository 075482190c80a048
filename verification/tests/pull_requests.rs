use fabro::outcome::StageOutcome;
use fabro::publish::{CreatedPullRequest, MergeStrategy};
use fabro::pull_request_api::{
    after_append, after_github_check, begin_create, begin_link, begin_unlink,
    close_run_pull_request, creation_requested, finish_create, get_run_pull_request,
    get_run_pull_request_creation, may_record_request, merge_run_pull_request, routes, CreateNext,
    DetailsLookup, DetailsUnavailableReason, Endpoint, GithubFault, Method,
};
use fabro::pull_request_queue::{
    after_open, after_prepare, begin_process, may_record_created, may_record_failure,
    pending_pull_request_creation_run_ids, CachedRun, OpenEnd, OpenNext, ProcessEnd, ProcessNext,
    Supervisor, WorkerEnd,
};
use fabro::pull_requests::{
    github_pull_request_not_found_error, link_url, load_pull_request_github_context,
    load_pull_request_record, load_server_github_credentials, parse_github_owner_repo_from_url,
    pull_request_record_from_link_request, server_github_context, ApiError, Conclusion,
    OriginFacts, PullRequestCreation, PullRequestGithubContext, PullRequestLink, RunPrInputs,
    RunProjection, UrlFacts,
};

fn link() -> PullRequestLink {
    PullRequestLink {
        owner: "owner".to_string(),
        repo: "repo".to_string(),
        number: 7,
        html_url: "https://github.com/owner/repo/pull/7".to_string(),
    }
}

fn creation(pending: bool) -> PullRequestCreation {
    PullRequestCreation {
        id: 42,
        model: "gpt-5.4".to_string(),
        force: false,
        requested_at: 100,
        pending,
    }
}

fn finished_run() -> RunProjection {
    RunProjection {
        goal: "Ship it".to_string(),
        repo_origin_url: Some("git@github.com:owner/repo.git".to_string()),
        base_branch: Some("main".to_string()),
        run_branch: Some("fabro/run-1".to_string()),
        conclusion: Some(Conclusion {
            status: StageOutcome::Succeeded,
            patch: Some("+line".to_string()),
            final_git_commit_sha: Some("abc123".to_string()),
        }),
        pull_request: None,
        pull_request_creation: None,
    }
}

fn url_facts(host: Result<Option<&str>, &str>) -> UrlFacts {
    UrlFacts {
        host: host
            .map(|host| host.map(str::to_string))
            .map_err(str::to_string),
        owner_repo: Ok(("owner".to_string(), "repo".to_string())),
    }
}

fn origin() -> OriginFacts {
    OriginFacts {
        normalized: "https://github.com/owner/repo".to_string(),
        url: url_facts(Ok(Some("github.com"))),
    }
}

fn assert_error(error: &ApiError, status: u16, detail: &str, code: Option<&str>) {
    assert_eq!(error.status, status);
    assert_eq!(error.detail, detail);
    assert_eq!(error.code.as_deref(), code);
}

fn store_error() -> ApiError {
    ApiError::new(500, "store down".to_string())
}

// ---- URLs and records ----

#[test]
fn only_github_urls_name_a_repository() {
    let parse = |facts: &UrlFacts| parse_github_owner_repo_from_url(facts, "repo origin URL");
    assert_eq!(
        parse(&url_facts(Ok(Some("github.com")))),
        Ok(("owner".to_string(), "repo".to_string()))
    );
    assert_error(
        &parse(&url_facts(Err("relative URL without a base"))).unwrap_err(),
        400,
        "Invalid repo origin URL: relative URL without a base",
        None,
    );
    assert_error(
        &parse(&url_facts(Ok(None))).unwrap_err(),
        400,
        "Invalid repo origin URL: missing host",
        None,
    );
    assert_error(
        &parse(&url_facts(Ok(Some("gitlab.com")))).unwrap_err(),
        400,
        "Pull request operations support github.com only (got gitlab.com).",
        Some("unsupported_host"),
    );
    let mut facts = url_facts(Ok(Some("github.com")));
    facts.owner_repo = Err("no repository".to_string());
    assert_error(&parse(&facts).unwrap_err(), 400, "no repository", None);
}

#[test]
fn link_requests_name_a_pull_request() {
    assert_eq!(link_url("  https://github.com/o/r/pull/1\n"), "https://github.com/o/r/pull/1");
    assert_eq!(pull_request_record_from_link_request(Ok(link())), Ok(link()));
    assert_error(
        &pull_request_record_from_link_request(Err(
            "expected a GitHub pull request URL, got gitlab".to_string()
        ))
        .unwrap_err(),
        400,
        "expected a GitHub pull request URL, got gitlab",
        Some("unsupported_pull_request_provider"),
    );
    assert_error(
        &pull_request_record_from_link_request(Err("not a URL".to_string())).unwrap_err(),
        400,
        "not a URL",
        Some("invalid_pull_request_url"),
    );
}

#[test]
fn github_may_be_unavailable() {
    assert_eq!(load_server_github_credentials(Ok(Some("creds"))), Ok("creds"));
    for found in [Ok(None), Err("vault locked".to_string())] {
        assert_error(
            &load_server_github_credentials::<()>(found).unwrap_err(),
            503,
            "GitHub integration unavailable on server.",
            Some("integration_unavailable"),
        );
    }
    assert_eq!(server_github_context(Ok("client")), Ok("client"));
    assert_error(
        &server_github_context::<()>(Err("no TLS".to_string())).unwrap_err(),
        503,
        "GitHub integration unavailable on server: no TLS",
        Some("integration_unavailable"),
    );
    assert_error(
        &github_pull_request_not_found_error(u64::MAX),
        502,
        "Pull request #18446744073709551615 was deleted on GitHub.",
        Some("github_not_found"),
    );
}

#[test]
fn stored_records_are_loaded_with_credentials() {
    let mut run = finished_run();
    assert_error(
        &load_pull_request_record(Ok(&run), "run-1").unwrap_err(),
        404,
        "No pull request found in store. Create one first with: fabro pr create run-1",
        Some("no_stored_record"),
    );
    run.pull_request = Some(link());
    assert_eq!(load_pull_request_record(Ok(&run), "run-1"), Ok(link()));
    assert_eq!(
        load_pull_request_record(Err(store_error()), "run-1"),
        Err(store_error())
    );
    let context = load_pull_request_github_context(Ok(link()), Ok("creds")).unwrap();
    assert_eq!(
        (context.owner.as_str(), context.repo.as_str(), context.number, context.creds),
        ("owner", "repo", 7, "creds")
    );
    let credentials = ApiError::new(503, "none".to_string());
    assert_eq!(
        load_pull_request_github_context::<()>(Err(store_error()), Err(credentials)),
        Err(store_error())
    );
}

// ---- What a pull request is made from ----

fn refusal(change: impl Fn(&mut RunProjection), force: bool) -> ApiError {
    let mut run = finished_run();
    change(&mut run);
    RunPrInputs::extract(&run, force, &origin()).unwrap_err()
}

#[test]
fn finished_runs_have_all_a_pull_request_needs() {
    let inputs = RunPrInputs::extract(&finished_run(), false, &origin()).unwrap();
    assert_eq!(
        inputs,
        RunPrInputs {
            goal: "Ship it".to_string(),
            base_branch: "main".to_string(),
            run_branch: "fabro/run-1".to_string(),
            final_git_sha: "abc123".to_string(),
            diff: "+line".to_string(),
            status: StageOutcome::Succeeded,
            normalized_origin: "https://github.com/owner/repo".to_string(),
        }
    );
}

#[test]
fn the_first_obstacle_is_reported() {
    assert_error(
        &refusal(
            |run| {
                run.pull_request = Some(link());
                run.repo_origin_url = None;
            },
            true,
        ),
        409,
        "Pull request already exists at https://github.com/owner/repo/pull/7",
        Some("pull_request_exists"),
    );
    assert_error(
        &refusal(
            |run| {
                run.repo_origin_url = None;
                run.base_branch = None;
            },
            false,
        ),
        400,
        "Run has no repo origin URL — pull request creation requires git metadata.",
        Some("missing_repo_origin"),
    );
    assert_error(
        &refusal(|run| run.base_branch = None, false),
        400,
        "Run has no base branch — pull request creation requires git metadata.",
        Some("missing_base_branch"),
    );
    assert_error(
        &refusal(|run| run.run_branch = None, false),
        400,
        "Run has no run_branch — was it run with git push enabled?",
        Some("missing_run_branch"),
    );
    for change in [
        (|run: &mut RunProjection| run.conclusion = None) as fn(&mut RunProjection),
        |run| run.conclusion.as_mut().unwrap().patch = Some("\n".to_string()),
    ] {
        assert_error(
            &refusal(change, false),
            400,
            "Stored diff is empty — nothing to create a PR for",
            Some("empty_diff"),
        );
    }
    assert_error(
        &refusal(
            |run| run.conclusion.as_mut().unwrap().final_git_commit_sha = Some(" ".to_string()),
            false,
        ),
        400,
        "Run has no final git commit SHA — the remote branch cannot be verified.",
        Some("missing_final_git_commit"),
    );
}

#[test]
fn failed_runs_need_force() {
    let fail = |run: &mut RunProjection| {
        run.conclusion.as_mut().unwrap().status = StageOutcome::Failed {
            retry_requested: false,
        }
    };
    assert_error(
        &refusal(fail, false),
        400,
        "Run status is 'failed', expected succeeded or partially_succeeded",
        Some("run_not_successful"),
    );
    let mut run = finished_run();
    fail(&mut run);
    assert!(RunPrInputs::extract(&run, true, &origin()).is_ok());
    let mut elsewhere = origin();
    elsewhere.url = url_facts(Ok(Some("example.com")));
    assert_eq!(
        RunPrInputs::extract(&run, true, &elsewhere).unwrap_err().code.as_deref(),
        Some("unsupported_host")
    );
}

// ---- Requests to create ----

#[test]
fn creations_begin_by_checking_the_run() {
    let mut run = finished_run();
    let begin = |run: &RunProjection| begin_create("run-1", true, Ok(run), false, &origin());
    assert_eq!(begin(&run), CreateNext::CheckGithub);
    assert!(may_record_request(&run));

    run.pull_request_creation = Some(creation(true));
    let CreateNext::Reply(Ok(accepted)) = begin(&run) else {
        panic!("a pending creation is accepted again");
    };
    assert_eq!(accepted.creation, creation(true));
    assert_eq!(accepted.location, "/api/v1/runs/run-1/pull_request/creation");
    assert_eq!(accepted.retry_after, 1);
    assert!(!may_record_request(&run));

    run.pull_request_creation = Some(creation(false));
    assert_eq!(begin(&run), CreateNext::CheckGithub);

    let CreateNext::Reply(Err(missing)) = begin_create("run-1", false, Ok(&run), false, &origin())
    else {
        panic!("a run that is not there is refused");
    };
    assert_error(&missing, 404, "Run not found.", None);
    assert_eq!(
        begin_create("run-1", true, Err(store_error()), false, &origin()),
        CreateNext::Reply(Err(store_error()))
    );
}

#[test]
fn creations_are_recorded_with_a_model() {
    assert_eq!(
        creation_requested(1, Some("mine".to_string()), "default".to_string(), true).model,
        "mine"
    );
    let event = creation_requested(1, None, "default".to_string(), false);
    assert_eq!(event.model, "default");
    assert_eq!(event.creation_id, 1);
    assert!(!event.force);
    assert_eq!(
        after_github_check::<(), ()>(Err(store_error()), Ok(())),
        Err(store_error())
    );
    assert_eq!(after_github_check(Ok(1), Ok(2)).unwrap(), (1, 2));
}

#[test]
fn creations_end_by_what_the_store_recorded() {
    let mut run = finished_run();
    let finish = |appended, run: &RunProjection| finish_create("run-1", appended, Ok(run));
    let (reply, wake) = finish(Err("disk full".to_string()), &run);
    assert_error(&reply.unwrap_err(), 500, "disk full", None);
    assert!(!wake);

    let (reply, wake) = finish(Ok(true), &run);
    assert_error(
        &reply.unwrap_err(),
        500,
        "Pull request creation was accepted but its status is unavailable.",
        None,
    );
    assert!(!wake);

    let (reply, wake) = finish(Ok(false), &run);
    assert_error(
        &reply.unwrap_err(),
        409,
        "Pull request creation state changed. Retry the request.",
        None,
    );
    assert!(!wake);

    run.pull_request = Some(link());
    let (reply, _) = finish(Ok(false), &run);
    assert_eq!(reply.unwrap_err().code.as_deref(), Some("pull_request_exists"));

    run.pull_request_creation = Some(creation(true));
    let (reply, wake) = finish(Ok(true), &run);
    assert_eq!(reply.unwrap().creation, creation(true));
    assert!(wake);
    let (reply, wake) = finish(Ok(false), &run);
    assert_eq!(reply.unwrap().creation, creation(true));
    assert!(!wake);
    assert_eq!(
        finish_create("run-1", Ok(true), Err(store_error())),
        (Err(store_error()), false)
    );
}

#[test]
fn requested_creations_can_be_asked_for() {
    let mut run = finished_run();
    assert_error(
        &get_run_pull_request_creation(Ok(&run)).unwrap_err(),
        404,
        "No explicit pull request creation was requested for this run.",
        Some("no_pull_request_creation"),
    );
    run.pull_request_creation = Some(creation(false));
    assert_eq!(get_run_pull_request_creation(Ok(&run)), Ok(creation(false)));
}

// ---- Linking, reading, merging, closing ----

#[test]
fn pull_requests_are_linked_and_unlinked() {
    assert_eq!(begin_link(Ok(link()), true), Ok(link()));
    assert_error(&begin_link(Ok(link()), false).unwrap_err(), 404, "Run not found.", None);
    assert_eq!(begin_link(Err(store_error()), false), Err(store_error()));

    let mut run = finished_run();
    assert_eq!(
        begin_unlink("run-1", true, Ok(&run)).unwrap_err().code.as_deref(),
        Some("no_stored_record")
    );
    run.pull_request = Some(link());
    assert_eq!(begin_unlink("run-1", true, Ok(&run)), Ok(link()));
    assert_error(
        &begin_unlink("run-1", false, Ok(&run)).unwrap_err(),
        404,
        "Run not found.",
        None,
    );
    assert_eq!(after_append(link(), Ok(())), Ok(link()));
    assert_error(
        &after_append(link(), Err("disk full".to_string())).unwrap_err(),
        500,
        "disk full",
        None,
    );
}

#[test]
fn stored_pull_requests_are_shown_without_details_too() {
    let shown = |details| get_run_pull_request(Ok(link()), details).unwrap();
    let found = shown(DetailsLookup::Found("details"));
    assert_eq!(found.details, Some("details"));
    assert_eq!(found.unavailable_reason, None);
    for (details, reason) in [
        (DetailsLookup::NoIntegration, DetailsUnavailableReason::IntegrationUnavailable),
        (
            DetailsLookup::Missing(GithubFault::NotFound),
            DetailsUnavailableReason::NotFound,
        ),
        (
            DetailsLookup::Missing(GithubFault::Other("timeout".to_string())),
            DetailsUnavailableReason::FetchFailed,
        ),
    ] {
        let response = shown(details);
        assert_eq!(response.link, link());
        assert_eq!(response.details, None);
        assert_eq!(response.unavailable_reason, Some(reason));
    }
    assert_eq!(
        get_run_pull_request::<()>(Err(store_error()), DetailsLookup::NoIntegration),
        Err(store_error())
    );
}

fn context() -> PullRequestGithubContext<()> {
    load_pull_request_github_context(Ok(link()), Ok(())).unwrap()
}

#[test]
fn pull_requests_are_merged_and_closed_by_number() {
    let merged = merge_run_pull_request(context(), MergeStrategy::Squash, Ok(())).unwrap();
    assert_eq!(merged.number, 7);
    assert_eq!(merged.html_url, "https://github.com/owner/repo/pull/7");
    assert_eq!(merged.method, MergeStrategy::Squash);
    let closed = close_run_pull_request(context(), Ok(())).unwrap();
    assert_eq!(closed.number, 7);
    assert_error(
        &merge_run_pull_request(context(), MergeStrategy::Merge, Err(GithubFault::NotFound))
            .unwrap_err(),
        502,
        "Pull request #7 was deleted on GitHub.",
        Some("github_not_found"),
    );
    assert_error(
        &close_run_pull_request(context(), Err(GithubFault::Other("conflict".to_string())))
            .unwrap_err(),
        502,
        "conflict",
        None,
    );
}

#[test]
fn every_endpoint_has_a_route() {
    let routes = routes();
    let find = |method, path: &str| {
        routes
            .iter()
            .find(|route| route.method == method && route.path == path)
            .map(|route| route.endpoint)
    };
    let base = "/runs/{id}/pull_request";
    assert_eq!(routes.len(), 7);
    assert_eq!(find(Method::Get, base), Some(Endpoint::GetPullRequest));
    assert_eq!(find(Method::Post, base), Some(Endpoint::CreatePullRequest));
    assert_eq!(find(Method::Put, base), Some(Endpoint::LinkPullRequest));
    assert_eq!(find(Method::Delete, base), Some(Endpoint::UnlinkPullRequest));
    assert_eq!(
        find(Method::Post, "/runs/{id}/pull_request/merge"),
        Some(Endpoint::MergePullRequest)
    );
    assert_eq!(
        find(Method::Get, "/runs/{id}/pull_request/creation"),
        Some(Endpoint::GetPullRequestCreation)
    );
    assert_eq!(
        find(Method::Post, "/runs/{id}/pull_request/close"),
        Some(Endpoint::ClosePullRequest)
    );
}

// ---- Queued creations ----

#[test]
fn queued_creations_are_carried_out_once() {
    let mut run = finished_run();
    assert_eq!(begin_process(&run, &origin()), ProcessNext::Stop);
    run.pull_request_creation = Some(creation(false));
    assert_eq!(begin_process(&run, &origin()), ProcessNext::Stop);
    assert!(!may_record_failure(&run, 42));

    run.pull_request_creation = Some(creation(true));
    assert!(may_record_failure(&run, 42));
    assert!(may_record_created(&run, 42));
    assert!(!may_record_created(&run, 43));
    let ProcessNext::PrepareGithub { creation, inputs } = begin_process(&run, &origin()) else {
        panic!("a pending creation is carried out");
    };
    let OpenNext::Open(request) = after_prepare(&creation, &inputs, Ok(()), Ok(())) else {
        panic!("the pull request is opened");
    };
    assert!(request.draft);
    assert_eq!(request.auto_merge, None);
    assert_eq!(request.expected_head_sha, "abc123");
    assert_eq!(request.model, "gpt-5.4");
    assert_eq!(
        after_prepare(&creation, &inputs, Err(store_error()), Ok(())),
        OpenNext::RecordFailure {
            creation_id: 42,
            error: "store down".to_string()
        }
    );

    let created = CreatedPullRequest {
        html_url: link().html_url,
        base_branch: "main".to_string(),
        head_branch: "fabro/run-1".to_string(),
        head_sha: "other".to_string(),
        title: "Ship it".to_string(),
    };
    let ProcessEnd::RecordCreated { head_sha, draft, .. } =
        after_open(&creation, &inputs, OpenEnd::Created(created))
    else {
        panic!("the pull request is recorded");
    };
    assert_eq!(head_sha, "abc123");
    assert!(draft);
    assert_eq!(
        after_open(&creation, &inputs, OpenEnd::TimedOut),
        ProcessEnd::RecordFailure {
            creation_id: 42,
            error: "Pull request creation timed out after 10 minutes.".to_string()
        }
    );
    assert_eq!(
        after_open(&creation, &inputs, OpenEnd::Failed("api".to_string())),
        ProcessEnd::RecordFailure {
            creation_id: 42,
            error: "api".to_string()
        }
    );
    assert_eq!(after_open(&creation, &inputs, OpenEnd::ShutDown), ProcessEnd::Nothing);

    run.pull_request = Some(link());
    assert_eq!(begin_process(&run, &origin()), ProcessNext::Stop);
    assert!(may_record_failure(&run, 42));
    assert!(!may_record_created(&run, 42));
}

#[test]
fn creations_that_cannot_be_carried_out_fail() {
    let mut run = finished_run();
    run.base_branch = None;
    run.pull_request_creation = Some(creation(true));
    assert_eq!(
        begin_process(&run, &origin()),
        ProcessNext::RecordFailure {
            creation_id: 42,
            error: "Run has no base branch — pull request creation requires git metadata."
                .to_string()
        }
    );
}

fn queued(run_id: u128, requested_at: i128) -> CachedRun {
    let mut projection = finished_run();
    projection.pull_request_creation = Some(PullRequestCreation {
        requested_at,
        ..creation(true)
    });
    CachedRun { run_id, projection }
}

#[test]
fn the_queue_goes_by_time_then_by_run() {
    let mut linked = queued(9, 0);
    linked.projection.pull_request = Some(link());
    let mut settled = queued(8, 0);
    settled.projection.pull_request_creation = Some(creation(false));
    let runs = vec![queued(3, 20), queued(2, 10), linked, queued(1, 20), settled, queued(4, -5)];
    assert_eq!(pending_pull_request_creation_run_ids(&runs), vec![4, 2, 1, 3]);
    assert!(pending_pull_request_creation_run_ids(&vec![]).is_empty());
}

#[test]
fn supervisors_start_no_more_workers_than_allowed() {
    let mut supervisor = Supervisor::new();
    assert!(supervisor.scan_requested());
    assert_eq!(supervisor.scanned(&vec![1, 2, 3, 4, 5, 6]), vec![1, 2, 3, 4]);
    assert!(!supervisor.scan_requested());
    for run_id in 1..=4u128 {
        supervisor.spawned(run_id as u64 + 100, run_id);
    }
    supervisor.request_scan();
    assert!(supervisor.scanned(&vec![1, 2, 5]).is_empty());

    supervisor.joined(WorkerEnd::Finished {
        task: 102,
        run_id: 2,
        succeeded: true,
    });
    assert!(supervisor.scan_requested());
    assert_eq!(supervisor.scanned(&vec![1, 5, 6]), vec![5]);

    // A worker that failed is not replaced before the next scan.
    supervisor.joined(WorkerEnd::Finished {
        task: 101,
        run_id: 1,
        succeeded: false,
    });
    assert!(!supervisor.scan_requested());
    // One that stopped is known by its task.
    supervisor.joined(WorkerEnd::Stopped { task: 103 });
    supervisor.joined(WorkerEnd::Stopped { task: 999 });
    supervisor.request_scan();
    supervisor.scan_failed();
    assert!(!supervisor.scan_requested());
    assert_eq!(supervisor.scanned(&vec![4, 5, 3, 1, 7]), vec![3, 1]);
}

#[test]
fn supervisors_start_no_worker_after_the_shutdown() {
    let mut supervisor = Supervisor::new();
    assert!(!supervisor.finished());
    assert_eq!(supervisor.scanned(&vec![1, 2]), vec![1, 2]);
    supervisor.spawned(7, 1);
    supervisor.spawned(8, 2);
    supervisor.shut_down();
    supervisor.request_scan();
    assert!(supervisor.scanned(&vec![3, 4]).is_empty());
    assert!(!supervisor.finished());
    supervisor.joined(WorkerEnd::Finished {
        task: 7,
        run_id: 1,
        succeeded: true,
    });
    assert!(supervisor.scanned(&vec![3, 4]).is_empty());
    assert!(!supervisor.finished());
    supervisor.joined(WorkerEnd::Stopped { task: 8 });
    assert!(supervisor.finished());
    assert!(supervisor.scanned(&vec![3, 4]).is_empty());
    assert!(supervisor.finished());
}

#[test]
fn scans_take_up_the_oldest_waiting_runs() {
    let runs = vec![
        queued(6, 50),
        queued(5, 10),
        queued(4, 30),
        queued(3, 30),
        queued(2, 40),
        queued(1, 20),
    ];
    let mut supervisor = Supervisor::new();
    let pending = pending_pull_request_creation_run_ids(&runs);
    assert_eq!(supervisor.scanned(&pending), vec![5, 1, 3, 4]);
    supervisor.joined(WorkerEnd::Finished {
        task: 0,
        run_id: 1,
        succeeded: true,
    });
    assert_eq!(supervisor.scanned(&vec![5, 3, 4, 2, 6]), vec![2]);
}
