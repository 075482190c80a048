//! The answers of the pull-request endpoints.

use vstd::prelude::*;
use vstd::string::*;

use crate::outcome::StageOutcome;
use crate::publish::MergeStrategy;
use crate::pull_requests::{
    github_pull_request_not_found_error, has_all_for_a_pull_request, lemma_stored,
    load_pull_request_record, lacks_record, refuses, reports, can_open, ApiError, OriginFacts, PullRequestCreation, PullRequestGithubContext, PullRequestLink,
    RunPrInputs, RunProjection, BAD_GATEWAY, CONFLICT, INTERNAL_SERVER_ERROR, NOT_FOUND,
    RETRY_AFTER_SECONDS,
};
use crate::text::decimal;

verus! {

/// Why the details of a pull request are missing.
#[derive(Debug, Clone, Copy, PartialEq, Eq, Structural)]
pub enum DetailsUnavailableReason {
    IntegrationUnavailable,
    NotFound,
    FetchFailed,
}

/// A stored pull request with its details on GitHub, or the reason they are missing.
#[derive(Debug, PartialEq, Eq)]
pub struct PullRequestResponse<D> {
    pub link: PullRequestLink,
    pub details: Option<D>,
    pub unavailable_reason: Option<DetailsUnavailableReason>,
}

/// The answer for a pull request whose details are missing.
pub fn unavailable_pull_request_response<D>(
    record: PullRequestLink,
    reason: DetailsUnavailableReason,
) -> (r: PullRequestResponse<D>)
    ensures
        r.link == record,
        r.details is None,
        r.unavailable_reason == Some(reason),
{
    PullRequestResponse { link: record, details: None, unavailable_reason: Some(reason) }
}

/// The answer for a pull request whose details are at hand.
pub fn available_pull_request_response<D>(
    record: PullRequestLink,
    details: D,
) -> (r: PullRequestResponse<D>)
    ensures
        r.link == record,
        r.details == Some(details),
        r.unavailable_reason is None,
{
    PullRequestResponse { link: record, details: Some(details), unavailable_reason: None }
}

/// The answer that a creation is accepted.
#[derive(Debug, PartialEq, Eq)]
pub struct AcceptedCreation {
    pub creation: PullRequestCreation,
    pub location: String,
    pub retry_after: u64,
}

/// The answer accepts `creation` for the run `run_id`.
pub open spec fn accepts(
    answer: AcceptedCreation,
    run_id: Seq<char>,
    creation: PullRequestCreation,
) -> bool {
    &&& answer.creation == creation
    &&& answer.location@ == "/api/v1/runs/"@ + run_id + "/pull_request/creation"@
    &&& answer.retry_after == RETRY_AFTER_SECONDS
}

/// The answer that a creation is accepted.
pub fn accepted_pull_request_creation_response(
    run_id: &str,
    creation: PullRequestCreation,
) -> (r: AcceptedCreation)
    ensures
        accepts(r, run_id@, creation),
{
    let mut location = "/api/v1/runs/".to_owned();
    location.append(run_id);
    location.append("/pull_request/creation");
    AcceptedCreation { creation, location, retry_after: RETRY_AFTER_SECONDS }
}

/// What comes next in a request to create a pull request.
#[derive(Debug, PartialEq, Eq)]
pub enum CreateNext {
    Reply(Result<AcceptedCreation, ApiError>),
    CheckGithub,
}

/// A request to create a pull request may go on: the run is known, no creation is
/// pending and a pull request can be made.
pub open spec fn may_create(
    run_found: bool,
    cached: Result<&RunProjection, ApiError>,
    force: bool,
    origin: OriginFacts,
) -> bool {
    run_found && (cached matches Ok(run) && run.pending_creation() is None && can_open(
        *run,
        force,
        origin,
    ))
}

/// The error for a run that the store does not have.
pub open spec fn run_not_found(error: ApiError) -> bool {
    reports(error, NOT_FOUND, "Run not found."@, None)
}

fn missing_run() -> (error: ApiError)
    ensures
        run_not_found(error),
{
    ApiError::new(NOT_FOUND, "Run not found.".to_owned())
}

/// Takes up a request to create a pull request: `run_found` says whether the store
/// has the run, `cached` is what it knows of it.
pub fn begin_create(
    run_id: &str,
    run_found: bool,
    cached: Result<&RunProjection, ApiError>,
    force: bool,
    origin: &OriginFacts,
) -> (r: CreateNext)
    ensures
        r is CheckGithub <==> may_create(run_found, cached, force, *origin),
        r matches CreateNext::Reply(answer) ==> (if !run_found {
            answer matches Err(error) && run_not_found(error)
        } else {
            match cached {
                Err(error) => answer == Err::<AcceptedCreation, ApiError>(error),
                Ok(run) => match run.pending_creation() {
                    Some(creation) => answer matches Ok(accepted) && accepts(
                        accepted,
                        run_id@,
                        creation,
                    ),
                    None => answer matches Err(error) && refuses(*run, force, *origin, error),
                },
            }
        }),
{
    if !run_found {
        return CreateNext::Reply(Err(missing_run()));
    }
    let run = match cached {
        Err(error) => {
            return CreateNext::Reply(Err(error));
        },
        Ok(run) => run,
    };
    if let Some(creation) = &run.pull_request_creation {
        if creation.pending {
            return CreateNext::Reply(
                Ok(accepted_pull_request_creation_response(run_id, creation.clone())),
            );
        }
    }
    match RunPrInputs::extract(run, force, origin) {
        Err(error) => CreateNext::Reply(Err(error)),
        Ok(_) => CreateNext::CheckGithub,
    }
}

/// The request to create a pull request, as it is recorded.
#[derive(Debug, PartialEq, Eq)]
pub struct CreationRequested {
    pub creation_id: u128,
    pub model: String,
    pub force: bool,
}

/// The event that records the request: with the model that was asked for, else with
/// the default one.
pub fn creation_requested(
    creation_id: u128,
    requested_model: Option<String>,
    default_model: String,
    force: bool,
) -> (r: CreationRequested)
    ensures
        r.creation_id == creation_id,
        r.force == force,
        r.model == (match requested_model {
            Some(model) => model,
            None => default_model,
        }),
{
    let model = match requested_model {
        Some(model) => model,
        None => default_model,
    };
    CreationRequested { creation_id, model, force }
}

/// Goes on once GitHub is known to be reachable: the error of the credentials comes
/// before that of the client; without either the request may be recorded.
pub fn after_github_check<C, H>(
    credentials: Result<C, ApiError>,
    context: Result<H, ApiError>,
) -> (r: Result<(C, H), ApiError>)
    ensures
        match (credentials, context) {
            (Err(error), _) => r == Err::<(C, H), ApiError>(error),
            (Ok(_), Err(error)) => r == Err::<(C, H), ApiError>(error),
            (Ok(c), Ok(h)) => r == Ok::<(C, H), ApiError>((c, h)),
        },
{
    match credentials {
        Err(error) => Err(error),
        Ok(c) => match context {
            Err(error) => Err(error),
            Ok(h) => Ok((c, h)),
        },
    }
}

/// Whether the store may record a request for a creation: the run has no pull
/// request and no creation that is pending.
pub fn may_record_request(run: &RunProjection) -> (b: bool)
    ensures
        b == (run.pull_request is None && run.pending_creation() is None),
{
    run.pull_request.is_none() && match &run.pull_request_creation {
        Some(creation) => !creation.pending,
        None => true,
    }
}

/// Ends a request to create a pull request. `appended` is what recording the request
/// gave, `cached` what the store knows of the run afterwards. The flag of the result
/// says whether the scheduler is to be woken.
pub fn finish_create(
    run_id: &str,
    appended: Result<bool, String>,
    cached: Result<&RunProjection, ApiError>,
) -> (r: (Result<AcceptedCreation, ApiError>, bool))
    ensures
        r.1 <==> (appended == Ok::<bool, String>(true) && (cached matches Ok(run)
            && run.pull_request_creation is Some)),
        match appended {
            Err(message) => r.0 matches Err(error) && reports(
                error,
                INTERNAL_SERVER_ERROR,
                message@,
                None,
            ),
            Ok(recorded) => match cached {
                Err(error) => r.0 == Err::<AcceptedCreation, ApiError>(error),
                Ok(run) => if recorded {
                    match run.pull_request_creation {
                        Some(creation) => r.0 matches Ok(accepted) && accepts(
                            accepted,
                            run_id@,
                            creation,
                        ),
                        None => r.0 matches Err(error) && reports(
                            error,
                            INTERNAL_SERVER_ERROR,
                            "Pull request creation was accepted but its status is unavailable."@,
                            None,
                        ),
                    }
                } else {
                    match (run.pending_creation(), run.pull_request) {
                        (Some(creation), _) => r.0 matches Ok(accepted) && accepts(
                            accepted,
                            run_id@,
                            creation,
                        ),
                        (None, Some(link)) => r.0 matches Err(error) && reports(
                            error,
                            CONFLICT,
                            "Pull request already exists at "@ + link.html_url@,
                            Some("pull_request_exists"@),
                        ),
                        (None, None) => r.0 matches Err(error) && reports(
                            error,
                            CONFLICT,
                            "Pull request creation state changed. Retry the request."@,
                            None,
                        ),
                    }
                },
            },
        },
{
    let recorded = match appended {
        Err(message) => {
            return (Err(ApiError::new(INTERNAL_SERVER_ERROR, message)), false);
        },
        Ok(recorded) => recorded,
    };
    let run = match cached {
        Err(error) => {
            return (Err(error), false);
        },
        Ok(run) => run,
    };
    if !recorded {
        if let Some(creation) = &run.pull_request_creation {
            if creation.pending {
                return (
                    Ok(accepted_pull_request_creation_response(run_id, creation.clone())),
                    false,
                );
            }
        }
        if let Some(link) = &run.pull_request {
            let mut detail = "Pull request already exists at ".to_owned();
            detail.append(link.html_url.as_str());
            return (
                Err(ApiError::with_code(CONFLICT, detail.as_str(), "pull_request_exists")),
                false,
            );
        }
        return (
            Err(
                ApiError::new(
                    CONFLICT,
                    "Pull request creation state changed. Retry the request.".to_owned(),
                ),
            ),
            false,
        );
    }
    match &run.pull_request_creation {
        Some(creation) => (
            Ok(accepted_pull_request_creation_response(run_id, creation.clone())),
            true,
        ),
        None => (
            Err(
                ApiError::new(
                    INTERNAL_SERVER_ERROR,
                    "Pull request creation was accepted but its status is unavailable.".to_owned(),
                ),
            ),
            false,
        ),
    }
}

/// The creation that was requested for a run.
pub fn get_run_pull_request_creation(cached: Result<&RunProjection, ApiError>) -> (r: Result<
    PullRequestCreation,
    ApiError,
>)
    ensures
        match cached {
            Err(error) => r == Err::<PullRequestCreation, ApiError>(error),
            Ok(run) => match run.pull_request_creation {
                Some(creation) => r == Ok::<PullRequestCreation, ApiError>(creation),
                None => r matches Err(error) && reports(
                    error,
                    NOT_FOUND,
                    "No explicit pull request creation was requested for this run."@,
                    Some("no_pull_request_creation"@),
                ),
            },
        },
{
    match cached {
        Err(error) => Err(error),
        Ok(run) => match &run.pull_request_creation {
            Some(creation) => Ok(creation.clone()),
            None => Err(
                ApiError::with_code(
                    NOT_FOUND,
                    "No explicit pull request creation was requested for this run.",
                    "no_pull_request_creation",
                ),
            ),
        },
    }
}

/// The pull request to record as linked: the fault of the request comes before a run
/// that the store does not have.
pub fn begin_link(record: Result<PullRequestLink, ApiError>, run_found: bool) -> (r: Result<
    PullRequestLink,
    ApiError,
>)
    ensures
        match record {
            Err(error) => r == Err::<PullRequestLink, ApiError>(error),
            Ok(link) => if run_found {
                r == Ok::<PullRequestLink, ApiError>(link)
            } else {
                r matches Err(error) && run_not_found(error)
            },
        },
{
    match record {
        Err(error) => Err(error),
        Ok(link) => {
            if run_found {
                Ok(link)
            } else {
                Err(missing_run())
            }
        },
    }
}

/// The pull request to record as unlinked: the stored one.
pub fn begin_unlink(
    run_id: &str,
    run_found: bool,
    cached: Result<&RunProjection, ApiError>,
) -> (r: Result<PullRequestLink, ApiError>)
    ensures
        if !run_found {
            r matches Err(error) && run_not_found(error)
        } else {
            match cached {
                Err(error) => r == Err::<PullRequestLink, ApiError>(error),
                Ok(run) => match run.pull_request {
                    Some(link) => r == Ok::<PullRequestLink, ApiError>(link),
                    None => r matches Err(error) && lacks_record(error, run_id@),
                },
            }
        },
{
    if !run_found {
        return Err(missing_run());
    }
    load_pull_request_record(cached, run_id)
}

/// The answer once the event has been recorded, or why it could not be.
pub fn after_append(link: PullRequestLink, appended: Result<(), String>) -> (r: Result<
    PullRequestLink,
    ApiError,
>)
    ensures
        match appended {
            Ok(_) => r == Ok::<PullRequestLink, ApiError>(link),
            Err(message) => r matches Err(error) && reports(
                error,
                INTERNAL_SERVER_ERROR,
                message@,
                None,
            ),
        },
{
    match appended {
        Ok(_) => Ok(link),
        Err(message) => Err(ApiError::new(INTERNAL_SERVER_ERROR, message)),
    }
}

/// Why GitHub could not do what it was asked to.
#[derive(Debug, PartialEq, Eq)]
pub enum GithubFault {
    NotFound,
    Other(String),
}

/// What GitHub gave when it was asked for the details of a pull request.
#[derive(Debug, PartialEq, Eq)]
pub enum DetailsLookup<D> {
    NoIntegration,
    Found(D),
    Missing(GithubFault),
}

/// The stored pull request with its details, as far as they are at hand.
pub fn get_run_pull_request<D>(
    record: Result<PullRequestLink, ApiError>,
    details: DetailsLookup<D>,
) -> (r: Result<PullRequestResponse<D>, ApiError>)
    ensures
        match record {
            Err(error) => r == Err::<PullRequestResponse<D>, ApiError>(error),
            Ok(link) => r matches Ok(response) && {
                &&& response.link == link
                &&& match details {
                    DetailsLookup::Found(d) => response.details == Some(d)
                        && response.unavailable_reason is None,
                    DetailsLookup::NoIntegration => response.details is None
                        && response.unavailable_reason == Some(
                        DetailsUnavailableReason::IntegrationUnavailable,
                    ),
                    DetailsLookup::Missing(GithubFault::NotFound) => response.details is None
                        && response.unavailable_reason == Some(DetailsUnavailableReason::NotFound),
                    DetailsLookup::Missing(GithubFault::Other(_)) => response.details is None
                        && response.unavailable_reason == Some(
                        DetailsUnavailableReason::FetchFailed,
                    ),
                }
            },
        },
{
    let link = match record {
        Err(error) => {
            return Err(error);
        },
        Ok(link) => link,
    };
    Ok(
        match details {
            DetailsLookup::Found(d) => available_pull_request_response(link, d),
            DetailsLookup::NoIntegration => unavailable_pull_request_response(
                link,
                DetailsUnavailableReason::IntegrationUnavailable,
            ),
            DetailsLookup::Missing(GithubFault::NotFound) => unavailable_pull_request_response(
                link,
                DetailsUnavailableReason::NotFound,
            ),
            DetailsLookup::Missing(GithubFault::Other(_)) => unavailable_pull_request_response(
                link,
                DetailsUnavailableReason::FetchFailed,
            ),
        },
    )
}

/// The error for what GitHub could not do to the pull request `number`.
pub open spec fn github_refused(error: ApiError, fault: GithubFault, number: u64) -> bool {
    match fault {
        GithubFault::NotFound => reports(
            error,
            BAD_GATEWAY,
            "Pull request #"@ + decimal(number as nat) + " was deleted on GitHub."@,
            Some("github_not_found"@),
        ),
        GithubFault::Other(message) => reports(error, BAD_GATEWAY, message@, None),
    }
}

fn github_error(fault: GithubFault, number: u64) -> (error: ApiError)
    ensures
        github_refused(error, fault, number),
{
    match fault {
        GithubFault::NotFound => github_pull_request_not_found_error(number),
        GithubFault::Other(message) => ApiError::new(BAD_GATEWAY, message),
    }
}

/// The answer for a merged pull request.
#[derive(Debug, PartialEq, Eq)]
pub struct MergeRunPullRequestResponse {
    pub number: i64,
    pub html_url: String,
    pub method: MergeStrategy,
}

/// The answer for a closed pull request.
#[derive(Debug, PartialEq, Eq)]
pub struct CloseRunPullRequestResponse {
    pub number: i64,
    pub html_url: String,
}

/// The answer to a request to merge, from what GitHub gave.
pub fn merge_run_pull_request<C>(
    context: PullRequestGithubContext<C>,
    method: MergeStrategy,
    merged: Result<(), GithubFault>,
) -> (r: Result<MergeRunPullRequestResponse, ApiError>)
    requires
        merged is Ok ==> context.number <= i64::MAX,
    ensures
        match merged {
            Ok(_) => r matches Ok(response) && {
                &&& response.number == context.number
                &&& response.html_url == context.record.html_url
                &&& response.method == method
            },
            Err(fault) => r matches Err(error) && github_refused(error, fault, context.number),
        },
{
    match merged {
        Ok(_) => Ok(
            MergeRunPullRequestResponse {
                number: context.number as i64,
                html_url: context.record.html_url,
                method,
            },
        ),
        Err(fault) => Err(github_error(fault, context.number)),
    }
}

/// The answer to a request to close, from what GitHub gave.
pub fn close_run_pull_request<C>(
    context: PullRequestGithubContext<C>,
    closed: Result<(), GithubFault>,
) -> (r: Result<CloseRunPullRequestResponse, ApiError>)
    requires
        closed is Ok ==> context.number <= i64::MAX,
    ensures
        match closed {
            Ok(_) => r matches Ok(response) && {
                &&& response.number == context.number
                &&& response.html_url == context.record.html_url
            },
            Err(fault) => r matches Err(error) && github_refused(error, fault, context.number),
        },
{
    match closed {
        Ok(_) => Ok(
            CloseRunPullRequestResponse {
                number: context.number as i64,
                html_url: context.record.html_url,
            },
        ),
        Err(fault) => Err(github_error(fault, context.number)),
    }
}

/// A request that is let through when it is taken up may be recorded, as long as the
/// run does not change in between, and an accepted or a linked run is not let through.
pub proof fn requests_that_are_let_through_may_be_recorded(
    run: &RunProjection,
    force: bool,
    origin: OriginFacts,
)
    requires
        may_create(true, Ok(run), force, origin),
    ensures
        run.pull_request is None,
        run.pending_creation() is None,
{
}

/// The method of a request.
#[derive(Debug, Clone, Copy, PartialEq, Eq, Structural)]
pub enum Method {
    Get,
    Post,
    Put,
    Delete,
}

/// What a request is answered by.
#[derive(Debug, Clone, Copy, PartialEq, Eq, Structural)]
pub enum Endpoint {
    GetPullRequest,
    CreatePullRequest,
    LinkPullRequest,
    UnlinkPullRequest,
    MergePullRequest,
    GetPullRequestCreation,
    ClosePullRequest,
}

/// Which requests an endpoint answers.
#[derive(Debug, PartialEq, Eq)]
pub struct Route {
    pub method: Method,
    pub path: String,
    pub endpoint: Endpoint,
}

impl Route {
    /// The route is this one.
    pub open spec fn is_route(self, method: Method, path: Seq<char>, endpoint: Endpoint) -> bool {
        self.method == method && self.path@ == path && self.endpoint == endpoint
    }
}

fn route(method: Method, path: &str, endpoint: Endpoint) -> (r: Route)
    ensures
        r.is_route(method, path@, endpoint),
{
    Route { method, path: path.to_owned(), endpoint }
}

/// The routes of the pull-request endpoints.
pub fn routes() -> (r: Vec<Route>)
    ensures
        r@.len() == 7,
        r@[0].is_route(Method::Get, "/runs/{id}/pull_request"@, Endpoint::GetPullRequest),
        r@[1].is_route(Method::Post, "/runs/{id}/pull_request"@, Endpoint::CreatePullRequest),
        r@[2].is_route(Method::Put, "/runs/{id}/pull_request"@, Endpoint::LinkPullRequest),
        r@[3].is_route(Method::Delete, "/runs/{id}/pull_request"@, Endpoint::UnlinkPullRequest),
        r@[4].is_route(Method::Post, "/runs/{id}/pull_request/merge"@, Endpoint::MergePullRequest),
        r@[5].is_route(
            Method::Get,
            "/runs/{id}/pull_request/creation"@,
            Endpoint::GetPullRequestCreation,
        ),
        r@[6].is_route(Method::Post, "/runs/{id}/pull_request/close"@, Endpoint::ClosePullRequest),
{
    let pull_request = "/runs/{id}/pull_request";
    let mut r: Vec<Route> = Vec::new();
    r.push(route(Method::Get, pull_request, Endpoint::GetPullRequest));
    r.push(route(Method::Post, pull_request, Endpoint::CreatePullRequest));
    r.push(route(Method::Put, pull_request, Endpoint::LinkPullRequest));
    r.push(route(Method::Delete, pull_request, Endpoint::UnlinkPullRequest));
    r.push(route(Method::Post, "/runs/{id}/pull_request/merge", Endpoint::MergePullRequest));
    r.push(
        route(
            Method::Get,
            "/runs/{id}/pull_request/creation",
            Endpoint::GetPullRequestCreation,
        ),
    );
    r.push(route(Method::Post, "/runs/{id}/pull_request/close", Endpoint::ClosePullRequest));
    r
}

// ---- What the endpoints answer ----

/// A request to create a pull request goes on to GitHub exactly if the run is known, has
/// neither a pull request nor a pending creation, has everything that one is made from
/// and is on github.com, and succeeded, wholly or in part, or is forced.
pub proof fn creation_goes_on_where_a_pull_request_can_be_made(
    run_id: &str,
    run_found: bool,
    run: &RunProjection,
    force: bool,
    origin: &OriginFacts,
    r: CreateNext,
)
    requires
        call_ensures(begin_create, (run_id, run_found, Ok(run), force, origin), r),
    ensures
        r is CheckGithub <==> {
            &&& run_found
            &&& !(run.pull_request_creation matches Some(creation) && creation.pending)
            &&& has_all_for_a_pull_request(*run)
            &&& force || run.conclusion->0.status == StageOutcome::Succeeded
                || run.conclusion->0.status == StageOutcome::PartiallySucceeded
            &&& origin.url.host matches Ok(Some(host)) && host@ == "github.com"@
            &&& origin.url.owner_repo is Ok
        },
        !run_found ==> (r matches CreateNext::Reply(Err(error)) && error.status == 404),
        run_found && (run.pull_request_creation matches Some(creation) && creation.pending) ==> (
        r matches CreateNext::Reply(Ok(accepted)) && Some(accepted.creation)
            == run.pull_request_creation && accepted.retry_after == 1 && accepted.location@
            == "/api/v1/runs/"@ + run_id@ + "/pull_request/creation"@),
{
    lemma_stored(*run);
}

/// The request is recorded as it was made: with the model that was asked for, else the
/// default one, and with its force.
pub proof fn creations_are_recorded_as_requested(
    creation_id: u128,
    requested: Option<String>,
    default_model: String,
    force: bool,
    r: CreationRequested,
)
    requires
        call_ensures(creation_requested, (creation_id, requested, default_model, force), r),
    ensures
        r.creation_id == creation_id,
        r.force == force,
        requested matches Some(model) ==> r.model == model,
        requested is None ==> r.model == default_model,
{
}

/// A creation is recorded only where none is pending and no pull request is there. What
/// was recorded is accepted and wakes the scheduler; what was not recorded wakes nobody:
/// the pending creation is accepted in its place, or the request is in conflict with the
/// pull request that is there, or with whatever else changed.
pub proof fn a_recorded_creation_wakes_the_scheduler(
    run_id: &str,
    run: &RunProjection,
    recorded: bool,
    r: (Result<AcceptedCreation, ApiError>, bool),
    free: bool,
)
    requires
        call_ensures(finish_create, (run_id, Ok(recorded), Ok(run)), r),
        call_ensures(may_record_request, (run,), free),
    ensures
        free <==> run.pull_request is None && !(run.pull_request_creation matches Some(creation)
            && creation.pending),
        r.1 ==> recorded && (r.0 matches Ok(accepted) && run.pull_request_creation == Some(
            accepted.creation,
        )),
        recorded && run.pull_request_creation is Some ==> r.1,
        recorded && run.pull_request_creation is None ==> (r.0 matches Err(error) && error.status
            == 500),
        !recorded ==> !r.1,
        !recorded && (run.pull_request_creation matches Some(creation) && creation.pending) ==> (
        r.0 matches Ok(accepted) && run.pull_request_creation == Some(accepted.creation)),
        !recorded && !(run.pull_request_creation matches Some(creation) && creation.pending) ==> (
        r.0 matches Err(error) && error.status == 409 && (run.pull_request is Some <==> error.code
            is Some)),
        r.0 matches Ok(accepted) ==> accepted.retry_after == 1 && accepted.location@
            == "/api/v1/runs/"@ + run_id@ + "/pull_request/creation"@,
{
}

/// Where recording a creation fails, or the run cannot be read back, the request fails
/// with that fault and nobody is woken.
pub proof fn unrecorded_creations_fail(
    run_id: &str,
    appended: Result<bool, String>,
    cached: Result<&RunProjection, ApiError>,
    r: (Result<AcceptedCreation, ApiError>, bool),
)
    requires
        call_ensures(finish_create, (run_id, appended, cached), r),
    ensures
        appended matches Err(message) ==> !r.1 && (r.0 matches Err(error) && error.status == 500
            && error.detail@ == message@),
        appended is Ok ==> (cached matches Err(error) ==> !r.1 && r.0 == Err::<
            AcceptedCreation,
            ApiError,
        >(error)),
        appended == Ok::<bool, String>(false) ==> (cached matches Ok(run) ==> {
            &&& !r.1
            &&& run.pull_request is None && !(run.pull_request_creation matches Some(creation)
                && creation.pending) ==> (r.0 matches Err(error) && error.status == 409
                && error.code is None && error.detail@
                == "Pull request creation state changed. Retry the request."@)
        }),
        appended == Ok::<bool, String>(true) ==> (cached matches Ok(run) ==> (
        run.pull_request_creation is None ==> !r.1 && (r.0 matches Err(error) && error.status == 500
            && error.detail@
            == "Pull request creation was accepted but its status is unavailable."@))),
{
}

/// Linking and unlinking: a link that was refused comes first, then a run that is not
/// there; the pull request that is unlinked is the stored one, and what is answered is
/// the link, unless it could not be recorded.
pub proof fn links_are_answered_once_they_are_recorded(
    run_id: &str,
    record: Result<PullRequestLink, ApiError>,
    run_found: bool,
    run: &RunProjection,
    linked: Result<PullRequestLink, ApiError>,
    unlinked: Result<PullRequestLink, ApiError>,
    link: PullRequestLink,
    appended: Result<(), String>,
    answer: Result<PullRequestLink, ApiError>,
)
    requires
        call_ensures(begin_link, (record, run_found), linked),
        call_ensures(begin_unlink, (run_id, run_found, Ok(run)), unlinked),
        call_ensures(after_append, (link, appended), answer),
    ensures
        record matches Err(error) ==> linked == Err::<PullRequestLink, ApiError>(error),
        record is Ok && run_found ==> linked == record,
        record is Ok && !run_found ==> (linked matches Err(error) && error.status == 404),
        unlinked is Ok <==> run_found && run.pull_request is Some,
        unlinked matches Ok(stored) ==> run.pull_request == Some(stored),
        unlinked matches Err(error) ==> error.status == 404,
        !run_found ==> (unlinked matches Err(error) && error.detail@ == "Run not found."@),
        appended is Ok <==> answer == Ok::<PullRequestLink, ApiError>(link),
        appended matches Err(message) ==> (answer matches Err(error) && error.status == 500
            && error.detail@ == message@),
{
}

/// The answer about a stored pull request never fails for want of GitHub: it holds the
/// link, and the details or the one reason why they are missing.
pub proof fn stored_pull_requests_are_always_answered<D>(
    link: PullRequestLink,
    details: DetailsLookup<D>,
    r: Result<PullRequestResponse<D>, ApiError>,
)
    requires
        call_ensures(get_run_pull_request::<D>, (Ok(link), details), r),
    ensures
        r matches Ok(response) && {
            &&& response.link == link
            &&& response.details is Some <==> details is Found
            &&& response.unavailable_reason is Some <==> !(details is Found)
            &&& details matches DetailsLookup::Found(d) ==> response.details == Some(d)
            &&& details is NoIntegration <==> response.unavailable_reason == Some(
                DetailsUnavailableReason::IntegrationUnavailable,
            )
            &&& (details matches DetailsLookup::Missing(fault) && fault is NotFound)
                <==> response.unavailable_reason == Some(DetailsUnavailableReason::NotFound)
        },
{
}

/// A merge or a close that went through is answered with the pull request it was asked
/// of, a merge with the method that was asked for; one that GitHub refused fails as a bad
/// gateway, with a code where the pull request is gone.
pub proof fn merges_and_closes_answer_for_their_pull_request<C>(
    context: PullRequestGithubContext<C>,
    method: MergeStrategy,
    done: Result<(), GithubFault>,
    merged: Result<MergeRunPullRequestResponse, ApiError>,
    closed: Result<CloseRunPullRequestResponse, ApiError>,
)
    requires
        call_ensures(merge_run_pull_request::<C>, (context, method, done), merged),
        call_ensures(close_run_pull_request::<C>, (context, done), closed),
    ensures
        done is Ok ==> (merged matches Ok(response) && response.number == context.number
            && response.html_url == context.record.html_url && response.method == method),
        done is Ok ==> (closed matches Ok(response) && response.number == context.number
            && response.html_url == context.record.html_url),
        done matches Err(fault) ==> (merged matches Err(error) && error.status == 502 && (
        error.code is Some <==> fault is NotFound)),
        done matches Err(fault) ==> (closed matches Err(error) && error.status == 502 && (
        error.code is Some <==> fault is NotFound)),
        done matches Err(GithubFault::Other(message)) ==> merged->Err_0.detail@ == message@
            && closed->Err_0.detail@ == message@,
        done matches Err(GithubFault::NotFound) ==> merged->Err_0.detail@ == closed->Err_0.detail@
            && merged->Err_0.detail@ == "Pull request #"@ + decimal(context.number as nat)
            + " was deleted on GitHub."@,
{
}

/// Every endpoint has one route, and no two routes answer the same requests.
pub proof fn every_endpoint_has_a_route_of_its_own(r: Vec<Route>, endpoint: Endpoint)
    requires
        call_ensures(routes, (), r),
    ensures
        exists|i: int| 0 <= i < r@.len() && (#[trigger] r@[i]).endpoint == endpoint,
        forall|i: int, j: int|
            0 <= i < j < r@.len() ==> !((#[trigger] r@[i]).method == (#[trigger] r@[j]).method
                && r@[i].path@ == r@[j].path@),
        forall|i: int, j: int|
            0 <= i < j < r@.len() ==> (#[trigger] r@[i]).endpoint != (#[trigger] r@[j]).endpoint,
        forall|i: int|
            0 <= i < r@.len() ==> ((#[trigger] r@[i]).method == Method::Get
                <==> r@[i].endpoint is GetPullRequest || r@[i].endpoint is GetPullRequestCreation),
        forall|i: int|
            0 <= i < r@.len() ==> match (#[trigger] r@[i]).endpoint {
                Endpoint::GetPullRequest => r@[i].path@ == "/runs/{id}/pull_request"@,
                Endpoint::CreatePullRequest => r@[i].path@ == "/runs/{id}/pull_request"@
                    && r@[i].method == Method::Post,
                Endpoint::LinkPullRequest => r@[i].path@ == "/runs/{id}/pull_request"@
                    && r@[i].method == Method::Put,
                Endpoint::UnlinkPullRequest => r@[i].path@ == "/runs/{id}/pull_request"@
                    && r@[i].method == Method::Delete,
                Endpoint::MergePullRequest => r@[i].path@ == "/runs/{id}/pull_request/merge"@
                    && r@[i].method == Method::Post,
                Endpoint::GetPullRequestCreation => r@[i].path@
                    == "/runs/{id}/pull_request/creation"@,
                Endpoint::ClosePullRequest => r@[i].path@ == "/runs/{id}/pull_request/close"@
                    && r@[i].method == Method::Post,
            },
{
    reveal_strlit("/runs/{id}/pull_request");
    reveal_strlit("/runs/{id}/pull_request/merge");
    reveal_strlit("/runs/{id}/pull_request/creation");
    reveal_strlit("/runs/{id}/pull_request/close");
    assert("/runs/{id}/pull_request"@.len() == 23);
    assert("/runs/{id}/pull_request/merge"@.len() == 29);
    assert("/runs/{id}/pull_request/merge"@[24] == 'm');
    assert("/runs/{id}/pull_request/creation"@.len() == 32);
    assert("/runs/{id}/pull_request/close"@[24] == 'c');
    assert("/runs/{id}/pull_request/close"@.len() == 29);
    match endpoint {
        Endpoint::GetPullRequest => {
            assert(r@[0].endpoint == endpoint);
        },
        Endpoint::CreatePullRequest => {
            assert(r@[1].endpoint == endpoint);
        },
        Endpoint::LinkPullRequest => {
            assert(r@[2].endpoint == endpoint);
        },
        Endpoint::UnlinkPullRequest => {
            assert(r@[3].endpoint == endpoint);
        },
        Endpoint::MergePullRequest => {
            assert(r@[4].endpoint == endpoint);
        },
        Endpoint::GetPullRequestCreation => {
            assert(r@[5].endpoint == endpoint);
        },
        Endpoint::ClosePullRequest => {
            assert(r@[6].endpoint == endpoint);
        },
    }
}

/// The creation that is answered is the one that was requested for the run; where none was,
/// that is said with a code of its own.
pub proof fn requested_creations_are_answered(
    cached: Result<&RunProjection, ApiError>,
    r: Result<PullRequestCreation, ApiError>,
)
    requires
        call_ensures(get_run_pull_request_creation, (cached,), r),
    ensures
        cached matches Err(error) ==> r == Err::<PullRequestCreation, ApiError>(error),
        cached matches Ok(run) ==> (run.pull_request_creation matches Some(creation) ==> r == Ok::<
            PullRequestCreation,
            ApiError,
        >(creation)),
        cached matches Ok(run) ==> (run.pull_request_creation is None ==> (r matches Err(error)
            && reports(
            error,
            404,
            "No explicit pull request creation was requested for this run."@,
            Some("no_pull_request_creation"@),
        ))),
{
}

/// GitHub is spoken to only with credentials and a client, and a fault of the credentials is
/// told first.
pub proof fn github_needs_credentials_and_a_client<C, H>(
    credentials: Result<C, ApiError>,
    context: Result<H, ApiError>,
    r: Result<(C, H), ApiError>,
)
    requires
        call_ensures(after_github_check::<C, H>, (credentials, context), r),
    ensures
        r is Ok <==> credentials is Ok && context is Ok,
        r matches Ok(both) ==> credentials == Ok::<C, ApiError>(both.0) && context == Ok::<
            H,
            ApiError,
        >(both.1),
        credentials matches Err(error) ==> r == Err::<(C, H), ApiError>(error),
        credentials is Ok ==> (context matches Err(error) ==> r == Err::<(C, H), ApiError>(error)),
{
}

/// An accepted creation is answered with itself and where to ask for it, and when to ask
/// again: after one second.
pub proof fn accepted_creations_can_be_asked_for(
    run_id: &str,
    creation: PullRequestCreation,
    r: AcceptedCreation,
)
    requires
        call_ensures(accepted_pull_request_creation_response, (run_id, creation), r),
    ensures
        r.creation == creation,
        r.location@ == "/api/v1/runs/"@ + run_id@ + "/pull_request/creation"@,
        r.retry_after == 1,
{
}

/// An answer without details says why, and one with them says nothing more.
pub proof fn answers_hold_details_or_the_reason<D>(
    record: PullRequestLink,
    reason: DetailsUnavailableReason,
    details: D,
    without: PullRequestResponse<D>,
    with: PullRequestResponse<D>,
    cached_error: ApiError,
    run_id: &str,
    unlinked: Result<PullRequestLink, ApiError>,
)
    requires
        call_ensures(unavailable_pull_request_response::<D>, (record, reason), without),
        call_ensures(available_pull_request_response::<D>, (record, details), with),
        call_ensures(begin_unlink, (run_id, true, Err(cached_error)), unlinked),
    ensures
        without.link == record,
        without.details is None,
        without.unavailable_reason == Some(reason),
        with.link == record,
        with.details == Some(details),
        with.unavailable_reason is None,
        unlinked == Err::<PullRequestLink, ApiError>(cached_error),
{
}

/// A request for a run that is not there, or of which the store could not tell, is answered
/// with that before anything else.
pub proof fn unknown_runs_come_first(
    run_id: &str,
    cached: Result<&RunProjection, ApiError>,
    force: bool,
    origin: &OriginFacts,
    missing: CreateNext,
    r: CreateNext,
)
    requires
        call_ensures(begin_create, (run_id, false, cached, force, origin), missing),
        call_ensures(begin_create, (run_id, true, cached, force, origin), r),
    ensures
        missing matches CreateNext::Reply(Err(error)) && error.status == 404 && error.code is None
            && error.detail@ == "Run not found."@,
        cached matches Err(error) ==> r == CreateNext::Reply(
            Err::<AcceptedCreation, ApiError>(error),
        ),
{
}

} // verus!
