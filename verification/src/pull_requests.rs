//! Pull requests of finished runs: what the server answers to requests about them,
//! and how queued creations are worked off.
//!
//! Reading the store, talking to GitHub and running workers is work for the caller.
//! Each request is a few steps here: a step takes what the last piece of outside
//! work gave and says what to do next.

use vstd::prelude::*;
use vstd::string::*;

use crate::outcome::StageOutcome;
use crate::text::{
    blank, contains, decimal, decimal_text, only_blank_text_is_trimmed_away, same_text, text_has, trim,
    trimmed,
};

verus! {

pub const BAD_REQUEST: u16 = 400;

pub const NOT_FOUND: u16 = 404;

pub const CONFLICT: u16 = 409;

pub const INTERNAL_SERVER_ERROR: u16 = 500;

pub const BAD_GATEWAY: u16 = 502;

pub const SERVICE_UNAVAILABLE: u16 = 503;

/// How many seconds a client is told to wait before it asks for a creation again.
pub const RETRY_AFTER_SECONDS: u64 = 1;

/// How many seconds one creation may take.
pub const PULL_REQUEST_CREATION_TIMEOUT_SECONDS: u64 = 600;

/// How many seconds lie between two scans for queued creations.
pub const PULL_REQUEST_CREATION_SCAN_INTERVAL_SECONDS: u64 = 5;

/// An error as the API reports it.
#[derive(Debug, PartialEq, Eq)]
pub struct ApiError {
    pub status: u16,
    pub detail: String,
    pub code: Option<String>,
}

/// The error has this status, this detail and this code.
pub open spec fn reports(
    error: ApiError,
    status: u16,
    detail: Seq<char>,
    code: Option<Seq<char>>,
) -> bool {
    &&& error.status == status
    &&& error.detail@ == detail
    &&& match code {
        Some(text) => error.code matches Some(c) && c@ == text,
        None => error.code is None,
    }
}

impl ApiError {
    /// An error without a code.
    pub fn new(status: u16, detail: String) -> (r: Self)
        ensures
            r.status == status,
            r.detail == detail,
            r.code is None,
    {
        ApiError { status, detail, code: None }
    }

    /// An error with a code.
    pub fn with_code(status: u16, detail: &str, code: &str) -> (r: Self)
        ensures
            reports(r, status, detail@, Some(code@)),
    {
        ApiError { status, detail: detail.to_owned(), code: Some(code.to_owned()) }
    }
}

/// A pull request as the store keeps it.
#[derive(Debug, PartialEq, Eq)]
pub struct PullRequestLink {
    pub owner: String,
    pub repo: String,
    pub number: u64,
    pub html_url: String,
}

impl Clone for PullRequestLink {
    fn clone(&self) -> (r: Self)
        ensures
            r == *self,
    {
        PullRequestLink {
            owner: self.owner.clone(),
            repo: self.repo.clone(),
            number: self.number,
            html_url: self.html_url.clone(),
        }
    }
}

/// The explicit creation of a pull request, requested for a run.
#[derive(Debug, PartialEq, Eq)]
pub struct PullRequestCreation {
    pub id: u128,
    pub model: String,
    pub force: bool,
    pub requested_at: i128,
    pub pending: bool,
}

impl Clone for PullRequestCreation {
    fn clone(&self) -> (r: Self)
        ensures
            r == *self,
    {
        PullRequestCreation {
            id: self.id,
            model: self.model.clone(),
            force: self.force,
            requested_at: self.requested_at,
            pending: self.pending,
        }
    }
}

/// How a run ended.
#[derive(Debug, PartialEq, Eq)]
pub struct Conclusion {
    pub status: StageOutcome,
    pub patch: Option<String>,
    pub final_git_commit_sha: Option<String>,
}

/// What the store knows of a run.
#[derive(Debug, PartialEq, Eq)]
pub struct RunProjection {
    pub goal: String,
    pub repo_origin_url: Option<String>,
    pub base_branch: Option<String>,
    pub run_branch: Option<String>,
    pub conclusion: Option<Conclusion>,
    pub pull_request: Option<PullRequestLink>,
    pub pull_request_creation: Option<PullRequestCreation>,
}

impl RunProjection {
    /// The creation that is still to be worked off.
    pub open spec fn pending_creation(self) -> Option<PullRequestCreation> {
        match self.pull_request_creation {
            Some(creation) => if creation.pending {
                Some(creation)
            } else {
                None
            },
            None => None,
        }
    }
}

/// What parsing a URL gave: its host if it has one, and the repository it names;
/// or why it cannot be parsed.
#[derive(Debug, PartialEq, Eq)]
pub struct UrlFacts {
    pub host: Result<Option<String>, String>,
    pub owner_repo: Result<(String, String), String>,
}

/// The error for a repository URL, if there is one.
pub open spec fn url_fault(facts: UrlFacts, kind: Seq<char>, error: ApiError) -> bool {
    match facts.host {
        Err(message) => reports(
            error,
            BAD_REQUEST,
            "Invalid "@ + kind + ": "@ + message@,
            None,
        ),
        Ok(None) => reports(error, BAD_REQUEST, "Invalid "@ + kind + ": missing host"@, None),
        Ok(Some(host)) => if host@ != "github.com"@ {
            reports(
                error,
                BAD_REQUEST,
                "Pull request operations support github.com only (got "@ + host@ + ")."@,
                Some("unsupported_host"@),
            )
        } else {
            facts.owner_repo matches Err(message) && reports(error, BAD_REQUEST, message@, None)
        },
    }
}

/// The URL names a repository on github.com.
pub open spec fn names_github_repo(facts: UrlFacts) -> bool {
    &&& facts.host matches Ok(Some(host)) && host@ == "github.com"@
    &&& facts.owner_repo is Ok
}

/// The owner and the name of the repository that a github.com URL names. `kind`
/// says in error messages what the URL is.
pub fn parse_github_owner_repo_from_url(facts: &UrlFacts, kind: &str) -> (r: Result<
    (String, String),
    ApiError,
>)
    ensures
        match r {
            Ok(pair) => names_github_repo(*facts) && facts.owner_repo == Ok::<
                (String, String),
                String,
            >(pair),
            Err(error) => !names_github_repo(*facts) && url_fault(*facts, kind@, error),
        },
{
    match &facts.host {
        Err(message) => {
            let mut detail = "Invalid ".to_owned();
            detail.append(kind);
            detail.append(": ");
            detail.append(message.as_str());
            Err(ApiError::new(BAD_REQUEST, detail))
        },
        Ok(None) => {
            let mut detail = "Invalid ".to_owned();
            detail.append(kind);
            detail.append(": missing host");
            Err(ApiError::new(BAD_REQUEST, detail))
        },
        Ok(Some(host)) => {
            if !same_text(host.as_str(), "github.com") {
                let mut detail = "Pull request operations support github.com only (got ".to_owned();
                detail.append(host.as_str());
                detail.append(").");
                Err(ApiError::with_code(BAD_REQUEST, detail.as_str(), "unsupported_host"))
            } else {
                match &facts.owner_repo {
                    Ok(pair) => Ok((pair.0.clone(), pair.1.clone())),
                    Err(message) => Err(ApiError::new(BAD_REQUEST, message.clone())),
                }
            }
        },
    }
}

/// The text that a request to link a pull request offers as its URL.
pub fn link_url(html_url: &str) -> (r: &str)
    ensures
        r@ == trimmed(html_url@),
{
    trim(html_url)
}

/// The code for a URL that is no pull request: one that the message blames on the
/// provider, or one for any other fault.
pub open spec fn link_fault_code(message: Seq<char>) -> Seq<char> {
    if text_has(message, "GitHub pull request URL"@) {
        "unsupported_pull_request_provider"@
    } else {
        "invalid_pull_request_url"@
    }
}

/// The pull request to link, from what parsing [`link_url`] gave.
pub fn pull_request_record_from_link_request(parsed: Result<PullRequestLink, String>) -> (r: Result<
    PullRequestLink,
    ApiError,
>)
    ensures
        match (parsed, r) {
            (Ok(link), Ok(record)) => record == link,
            (Err(message), Err(error)) => reports(
                error,
                BAD_REQUEST,
                message@,
                Some(link_fault_code(message@)),
            ),
            _ => false,
        },
{
    match parsed {
        Ok(link) => Ok(link),
        Err(message) => {
            let code = if contains(message.as_str(), "GitHub pull request URL") {
                "unsupported_pull_request_provider"
            } else {
                "invalid_pull_request_url"
            };
            Err(ApiError::with_code(BAD_REQUEST, message.as_str(), code))
        },
    }
}

/// The GitHub credentials of the server, from what looking them up gave.
pub fn load_server_github_credentials<C>(found: Result<Option<C>, String>) -> (r: Result<
    C,
    ApiError,
>)
    ensures
        match r {
            Ok(credentials) => found == Ok::<Option<C>, String>(Some(credentials)),
            Err(error) => !(found matches Ok(Some(_))) && reports(
                error,
                SERVICE_UNAVAILABLE,
                "GitHub integration unavailable on server."@,
                Some("integration_unavailable"@),
            ),
        },
{
    match found {
        Ok(Some(credentials)) => Ok(credentials),
        _ => Err(
            ApiError::with_code(
                SERVICE_UNAVAILABLE,
                "GitHub integration unavailable on server.",
                "integration_unavailable",
            ),
        ),
    }
}

/// The HTTP client for GitHub, from what building it gave.
pub fn server_github_context<H>(client: Result<H, String>) -> (r: Result<H, ApiError>)
    ensures
        match (client, r) {
            (Ok(http), Ok(context)) => context == http,
            (Err(message), Err(error)) => reports(
                error,
                SERVICE_UNAVAILABLE,
                "GitHub integration unavailable on server: "@ + message@,
                Some("integration_unavailable"@),
            ),
            _ => false,
        },
{
    match client {
        Ok(http) => Ok(http),
        Err(message) => {
            let mut detail = "GitHub integration unavailable on server: ".to_owned();
            detail.append(message.as_str());
            Err(ApiError::with_code(SERVICE_UNAVAILABLE, detail.as_str(), "integration_unavailable"))
        },
    }
}

/// The error for a pull request that GitHub no longer has.
pub fn github_pull_request_not_found_error(number: u64) -> (error: ApiError)
    ensures
        reports(
            error,
            BAD_GATEWAY,
            "Pull request #"@ + decimal(number as nat) + " was deleted on GitHub."@,
            Some("github_not_found"@),
        ),
{
    let mut detail = "Pull request #".to_owned();
    detail.append(decimal_text(number).as_str());
    detail.append(" was deleted on GitHub.");
    ApiError::with_code(BAD_GATEWAY, detail.as_str(), "github_not_found")
}

/// The error for a run of the id `run_id` without a stored pull request.
pub open spec fn lacks_record(error: ApiError, run_id: Seq<char>) -> bool {
    reports(
        error,
        NOT_FOUND,
        "No pull request found in store. Create one first with: fabro pr create "@ + run_id,
        Some("no_stored_record"@),
    )
}

fn no_stored_record(run_id: &str) -> (error: ApiError)
    ensures
        lacks_record(error, run_id@),
{
    let mut detail = "No pull request found in store. Create one first with: fabro pr create ".to_owned();
    detail.append(run_id);
    ApiError::with_code(NOT_FOUND, detail.as_str(), "no_stored_record")
}

/// The stored pull request of a run.
pub fn load_pull_request_record(
    cached: Result<&RunProjection, ApiError>,
    run_id: &str,
) -> (r: Result<PullRequestLink, ApiError>)
    ensures
        match cached {
            Err(error) => r == Err::<PullRequestLink, ApiError>(error),
            Ok(run) => match run.pull_request {
                Some(link) => r == Ok::<PullRequestLink, ApiError>(link),
                None => r matches Err(error) && lacks_record(error, run_id@),
            },
        },
{
    match cached {
        Err(error) => Err(error),
        Ok(run) => match &run.pull_request {
            Some(link) => Ok(link.clone()),
            None => Err(no_stored_record(run_id)),
        },
    }
}

/// Where a stored pull request lives on GitHub: owner, repository, number.
pub fn github_coordinates_for_record(record: &PullRequestLink) -> (r: (String, String, u64))
    ensures
        r == (record.owner, record.repo, record.number),
{
    (record.owner.clone(), record.repo.clone(), record.number)
}

/// A stored pull request together with the credentials to work on it.
#[derive(Debug, PartialEq, Eq)]
pub struct PullRequestGithubContext<C> {
    pub record: PullRequestLink,
    pub owner: String,
    pub repo: String,
    pub number: u64,
    pub creds: C,
}

/// The stored pull request of a run with the server's credentials; the store's
/// error comes before that of the credentials.
pub fn load_pull_request_github_context<C>(
    record: Result<PullRequestLink, ApiError>,
    credentials: Result<C, ApiError>,
) -> (r: Result<PullRequestGithubContext<C>, ApiError>)
    ensures
        match (record, credentials) {
            (Err(error), _) => r == Err::<PullRequestGithubContext<C>, ApiError>(error),
            (Ok(_), Err(error)) => r == Err::<PullRequestGithubContext<C>, ApiError>(error),
            (Ok(link), Ok(creds)) => r matches Ok(context) && {
                &&& context.record == link
                &&& context.owner == link.owner
                &&& context.repo == link.repo
                &&& context.number == link.number
                &&& context.creds == creds
            },
        },
{
    match record {
        Err(error) => Err(error),
        Ok(link) => match credentials {
            Err(error) => Err(error),
            Ok(creds) => {
                let (owner, repo, number) = github_coordinates_for_record(&link);
                Ok(PullRequestGithubContext { record: link, owner, repo, number, creds })
            },
        },
    }
}

/// What a pull request is made from.
#[derive(Debug, PartialEq, Eq)]
pub struct RunPrInputs {
    pub goal: String,
    pub base_branch: String,
    pub run_branch: String,
    pub final_git_sha: String,
    pub diff: String,
    pub status: StageOutcome,
    pub normalized_origin: String,
}

/// The origin of a repository in its normal form, and what parsing that gave.
#[derive(Debug, PartialEq, Eq)]
pub struct OriginFacts {
    pub normalized: String,
    pub url: UrlFacts,
}

/// The text, unless it is blank.
pub open spec fn unless_blank(text: Option<String>) -> Option<String> {
    match text {
        Some(t) => if trimmed(t@).len() == 0 {
            None
        } else {
            Some(t)
        },
        None => None,
    }
}

/// The diff that the store keeps of a run.
pub open spec fn stored_diff(run: RunProjection) -> Option<String> {
    match run.conclusion {
        Some(conclusion) => unless_blank(conclusion.patch),
        None => None,
    }
}

/// The commit that a finished run ended with.
pub open spec fn stored_sha(run: RunProjection) -> Option<String> {
    match run.conclusion {
        Some(conclusion) => unless_blank(conclusion.final_git_commit_sha),
        None => None,
    }
}

/// The run ended in success, whole or partial.
pub open spec fn ended_well(run: RunProjection) -> bool {
    run.conclusion matches Some(conclusion) && (conclusion.status is Succeeded
        || conclusion.status is PartiallySucceeded)
}

/// A pull request can be made for the run.
pub open spec fn can_open(run: RunProjection, force: bool, origin: OriginFacts) -> bool {
    &&& run.pull_request is None
    &&& run.repo_origin_url is Some
    &&& run.base_branch is Some
    &&& run.run_branch is Some
    &&& stored_diff(run) is Some
    &&& stored_sha(run) is Some
    &&& force || ended_well(run)
    &&& names_github_repo(origin.url)
}

/// Why no pull request can be made for the run: the first obstacle found.
pub open spec fn refuses(
    run: RunProjection,
    force: bool,
    origin: OriginFacts,
    error: ApiError,
) -> bool {
    if let Some(link) = run.pull_request {
        reports(
            error,
            CONFLICT,
            "Pull request already exists at "@ + link.html_url@,
            Some("pull_request_exists"@),
        )
    } else if run.repo_origin_url is None {
        reports(
            error,
            BAD_REQUEST,
            "Run has no repo origin URL — pull request creation requires git metadata."@,
            Some("missing_repo_origin"@),
        )
    } else if run.base_branch is None {
        reports(
            error,
            BAD_REQUEST,
            "Run has no base branch — pull request creation requires git metadata."@,
            Some("missing_base_branch"@),
        )
    } else if run.run_branch is None {
        reports(
            error,
            BAD_REQUEST,
            "Run has no run_branch — was it run with git push enabled?"@,
            Some("missing_run_branch"@),
        )
    } else if stored_diff(run) is None {
        reports(
            error,
            BAD_REQUEST,
            "Stored diff is empty — nothing to create a PR for"@,
            Some("empty_diff"@),
        )
    } else if stored_sha(run) is None {
        reports(
            error,
            BAD_REQUEST,
            "Run has no final git commit SHA — the remote branch cannot be verified."@,
            Some("missing_final_git_commit"@),
        )
    } else if !force && !ended_well(run) {
        reports(
            error,
            BAD_REQUEST,
            "Run status is '"@ + run.conclusion->0.status.word()
                + "', expected succeeded or partially_succeeded"@,
            Some("run_not_successful"@),
        )
    } else {
        url_fault(origin.url, "repo origin URL"@, error)
    }
}

/// The inputs are those of the run.
pub open spec fn taken_from(inputs: RunPrInputs, run: RunProjection, origin: OriginFacts) -> bool {
    &&& inputs.goal == run.goal
    &&& Some(inputs.base_branch) == run.base_branch
    &&& Some(inputs.run_branch) == run.run_branch
    &&& Some(inputs.diff) == stored_diff(run)
    &&& Some(inputs.final_git_sha) == stored_sha(run)
    &&& run.conclusion matches Some(conclusion) && inputs.status == conclusion.status
    &&& inputs.normalized_origin == origin.normalized
}

fn nonblank(text: &Option<String>) -> (r: Option<String>)
    ensures
        r == unless_blank(*text),
{
    match text {
        Some(t) => {
            if trim(t.as_str()).unicode_len() == 0 {
                None
            } else {
                Some(t.clone())
            }
        },
        None => None,
    }
}

fn already_exists(link: &PullRequestLink) -> (error: ApiError)
    ensures
        reports(
            error,
            CONFLICT,
            "Pull request already exists at "@ + link.html_url@,
            Some("pull_request_exists"@),
        ),
{
    let mut detail = "Pull request already exists at ".to_owned();
    detail.append(link.html_url.as_str());
    ApiError::with_code(CONFLICT, detail.as_str(), "pull_request_exists")
}

impl RunPrInputs {
    /// What a pull request for the run is made from, or the first obstacle to it.
    /// `force` lets a run pass that did not succeed.
    pub fn extract(run: &RunProjection, force: bool, origin: &OriginFacts) -> (r: Result<
        Self,
        ApiError,
    >)
        ensures
            match r {
                Ok(inputs) => can_open(*run, force, *origin) && taken_from(inputs, *run, *origin),
                Err(error) => !can_open(*run, force, *origin) && refuses(
                    *run,
                    force,
                    *origin,
                    error,
                ),
            },
    {
        if let Some(link) = &run.pull_request {
            return Err(already_exists(link));
        }
        if run.repo_origin_url.is_none() {
            return Err(
                ApiError::with_code(
                    BAD_REQUEST,
                    "Run has no repo origin URL — pull request creation requires git metadata.",
                    "missing_repo_origin",
                ),
            );
        }
        let base_branch = match &run.base_branch {
            Some(branch) => branch.clone(),
            None => {
                return Err(
                    ApiError::with_code(
                        BAD_REQUEST,
                        "Run has no base branch — pull request creation requires git metadata.",
                        "missing_base_branch",
                    ),
                );
            },
        };
        let run_branch = match &run.run_branch {
            Some(branch) => branch.clone(),
            None => {
                return Err(
                    ApiError::with_code(
                        BAD_REQUEST,
                        "Run has no run_branch — was it run with git push enabled?",
                        "missing_run_branch",
                    ),
                );
            },
        };
        let (conclusion, diff) = match &run.conclusion {
            Some(conclusion) => match nonblank(&conclusion.patch) {
                Some(diff) => (conclusion, diff),
                None => {
                    return Err(empty_diff());
                },
            },
            None => {
                return Err(empty_diff());
            },
        };
        let final_git_sha = match nonblank(&conclusion.final_git_commit_sha) {
            Some(sha) => sha,
            None => {
                return Err(
                    ApiError::with_code(
                        BAD_REQUEST,
                        "Run has no final git commit SHA — the remote branch cannot be verified.",
                        "missing_final_git_commit",
                    ),
                );
            },
        };
        if !force && !conclusion.status.is_successful() {
            let mut detail = "Run status is '".to_owned();
            detail.append(conclusion.status.as_str());
            detail.append("', expected succeeded or partially_succeeded");
            return Err(ApiError::with_code(BAD_REQUEST, detail.as_str(), "run_not_successful"));
        }
        match parse_github_owner_repo_from_url(&origin.url, "repo origin URL") {
            Err(error) => Err(error),
            Ok(_) => Ok(
                RunPrInputs {
                    goal: run.goal.clone(),
                    base_branch,
                    run_branch,
                    final_git_sha,
                    diff,
                    status: conclusion.status,
                    normalized_origin: origin.normalized.clone(),
                },
            ),
        }
    }
}

fn empty_diff() -> (error: ApiError)
    ensures
        reports(
            error,
            BAD_REQUEST,
            "Stored diff is empty — nothing to create a PR for"@,
            Some("empty_diff"@),
        ),
{
    ApiError::with_code(
        BAD_REQUEST,
        "Stored diff is empty — nothing to create a PR for",
        "empty_diff",
    )
}

// ---- Which runs get a pull request ----

/// The error has this code.
pub open spec fn coded(error: ApiError, code: Seq<char>) -> bool {
    error.code matches Some(text) && text@ == code
}

/// The optional text is there and is not blank.
pub open spec fn has_text(text: Option<String>) -> bool {
    text matches Some(t) && !blank(t@)
}

/// The run has no pull request yet and everything that one is made from: an origin, a
/// base branch, a branch of its own, a diff and a final commit.
pub open spec fn has_all_for_a_pull_request(run: RunProjection) -> bool {
    &&& run.pull_request is None
    &&& run.repo_origin_url is Some
    &&& run.base_branch is Some
    &&& run.run_branch is Some
    &&& run.conclusion matches Some(conclusion) && has_text(conclusion.patch) && has_text(
        conclusion.final_git_commit_sha,
    )
}

/// What is stored of a run is what it concluded with, unless that is blank.
pub proof fn lemma_stored(run: RunProjection)
    ensures
        stored_diff(run) is Some <==> (run.conclusion matches Some(c) && has_text(c.patch)),
        stored_sha(run) is Some <==> (run.conclusion matches Some(c) && has_text(
            c.final_git_commit_sha,
        )),
        stored_diff(run) is Some ==> stored_diff(run) == run.conclusion->0.patch,
        stored_sha(run) is Some ==> stored_sha(run) == run.conclusion->0.final_git_commit_sha,
{
    if let Some(conclusion) = run.conclusion {
        if let Some(patch) = conclusion.patch {
            only_blank_text_is_trimmed_away(patch@);
        }
        if let Some(sha) = conclusion.final_git_commit_sha {
            only_blank_text_is_trimmed_away(sha@);
        }
    }
}

/// A run that has everything a pull request needs, on a repository of github.com, gets
/// one if it succeeded or succeeded in part; a run that failed or was skipped gets one
/// only by force. Nothing else is accepted, by force or without.
pub proof fn whole_and_partial_successes_get_a_pull_request(
    run: &RunProjection,
    force: bool,
    origin: &OriginFacts,
    host: String,
    r: Result<RunPrInputs, ApiError>,
)
    requires
        call_ensures(RunPrInputs::extract, (run, force, origin), r),
        origin.url.host == Ok::<Option<String>, String>(Some(host)),
        origin.url.owner_repo is Ok,
        host@ == "github.com"@,
    ensures
        has_all_for_a_pull_request(*run) && run.conclusion->0.status == StageOutcome::Succeeded
            ==> r is Ok,
        has_all_for_a_pull_request(*run) && run.conclusion->0.status
            == StageOutcome::PartiallySucceeded ==> r is Ok,
        has_all_for_a_pull_request(*run) && run.conclusion->0.status is Failed ==> (r is Ok
            <==> force),
        has_all_for_a_pull_request(*run) && run.conclusion->0.status is Skipped ==> (r is Ok
            <==> force),
        !has_all_for_a_pull_request(*run) ==> r is Err,
{
    lemma_stored(*run);
}

/// No pull request is made for a repository that is not on github.com, or whose URL
/// cannot be parsed.
pub proof fn only_github_repositories_get_a_pull_request(
    run: &RunProjection,
    force: bool,
    origin: &OriginFacts,
    r: Result<RunPrInputs, ApiError>,
)
    requires
        call_ensures(RunPrInputs::extract, (run, force, origin), r),
        r is Ok,
    ensures
        origin.url.host matches Ok(Some(host)) && host@ == "github.com"@,
        origin.url.owner_repo is Ok,
{
}

/// A pull request is made from the run alone: its goal, its branches, the diff and the
/// commit as they are stored, and the origin in its normal form.
pub proof fn a_pull_request_is_made_from_its_run(
    run: &RunProjection,
    force: bool,
    origin: &OriginFacts,
    inputs: RunPrInputs,
)
    requires
        call_ensures(RunPrInputs::extract, (run, force, origin), Ok(inputs)),
    ensures
        inputs.goal == run.goal,
        run.base_branch == Some(inputs.base_branch),
        run.run_branch == Some(inputs.run_branch),
        run.conclusion matches Some(conclusion) && {
            &&& conclusion.patch == Some(inputs.diff)
            &&& conclusion.final_git_commit_sha == Some(inputs.final_git_sha)
            &&& conclusion.status == inputs.status
        },
        inputs.normalized_origin == origin.normalized,
{
    lemma_stored(*run);
}

/// Each obstacle to a pull request has a code of its own, and the first one counts, in
/// the order: a pull request that exists, the origin, the base branch, the branch of the
/// run, the diff, the final commit, the success of the run. One that exists is a
/// conflict, everything else a fault of the request.
pub proof fn the_first_obstacle_is_reported(
    run: &RunProjection,
    force: bool,
    origin: &OriginFacts,
    error: ApiError,
)
    requires
        call_ensures(RunPrInputs::extract, (run, force, origin), Err(error)),
    ensures
        error.status == (if run.pull_request is Some {
            409
        } else {
            400u16
        }),
        run.pull_request matches Some(link) ==> coded(error, "pull_request_exists"@)
            && error.detail@ == "Pull request already exists at "@ + link.html_url@,
        run.pull_request is None && run.repo_origin_url is None ==> coded(
            error,
            "missing_repo_origin"@,
        ) && error.detail@
            == "Run has no repo origin URL — pull request creation requires git metadata."@,
        run.pull_request is None && run.repo_origin_url is Some && run.base_branch is None
            ==> coded(error, "missing_base_branch"@) && error.detail@
            == "Run has no base branch — pull request creation requires git metadata."@,
        run.pull_request is None && run.repo_origin_url is Some && run.base_branch is Some
            && run.run_branch is None ==> coded(error, "missing_run_branch"@) && error.detail@
            == "Run has no run_branch — was it run with git push enabled?"@,
        run.pull_request is None && run.repo_origin_url is Some && run.base_branch is Some
            && run.run_branch is Some && !(run.conclusion matches Some(c) && has_text(c.patch))
            ==> coded(error, "empty_diff"@) && error.detail@
            == "Stored diff is empty — nothing to create a PR for"@,
        run.pull_request is None && run.repo_origin_url is Some && run.base_branch is Some
            && run.run_branch is Some && (run.conclusion matches Some(c) && has_text(c.patch)
            && !has_text(c.final_git_commit_sha)) ==> coded(error, "missing_final_git_commit"@)
            && error.detail@
            == "Run has no final git commit SHA — the remote branch cannot be verified."@,
        has_all_for_a_pull_request(*run) && !force && run.conclusion->0.status
            != StageOutcome::Succeeded && run.conclusion->0.status
            != StageOutcome::PartiallySucceeded ==> coded(error, "run_not_successful"@)
            && error.detail@ == "Run status is '"@ + run.conclusion->0.status.word()
            + "', expected succeeded or partially_succeeded"@,
        has_all_for_a_pull_request(*run) && (force || run.conclusion->0.status
            == StageOutcome::Succeeded || run.conclusion->0.status
            == StageOutcome::PartiallySucceeded) ==> (error.code matches Some(code) ==> code@
            == "unsupported_host"@),
{
    lemma_stored(*run);
}

/// A repository is taken from a URL on github.com, and from no other: any other host is
/// refused by name, a URL without a host or that cannot be parsed as invalid.
pub proof fn repositories_are_taken_from_github_urls(
    facts: &UrlFacts,
    kind: &str,
    r: Result<(String, String), ApiError>,
)
    requires
        call_ensures(parse_github_owner_repo_from_url, (facts, kind), r),
    ensures
        r matches Ok(pair) ==> facts.owner_repo == Ok::<(String, String), String>(pair) && (
        facts.host matches Ok(Some(host)) && host@ == "github.com"@),
        (facts.host matches Ok(Some(host)) && host@ == "github.com"@) && facts.owner_repo is Ok
            ==> r is Ok,
        (facts.host matches Ok(Some(host)) && host@ != "github.com"@) ==> (r matches Err(error)
            && error.status == 400 && (error.code matches Some(code) && code@
            == "unsupported_host"@)),
        r matches Err(error) ==> error.status == 400,
{
}

/// A stored pull request is what a request about it works on, with the credentials of
/// the server; without one, the answer says how to create it.
pub proof fn requests_work_on_the_stored_pull_request<C>(
    cached: Result<&RunProjection, ApiError>,
    run_id: &str,
    record: Result<PullRequestLink, ApiError>,
    credentials: Result<C, ApiError>,
    r: Result<PullRequestGithubContext<C>, ApiError>,
)
    requires
        call_ensures(load_pull_request_record, (cached, run_id), record),
        call_ensures(load_pull_request_github_context::<C>, (record, credentials), r),
    ensures
        r matches Ok(context) ==> {
            &&& cached matches Ok(run) && run.pull_request == Some(context.record)
            &&& context.owner == context.record.owner
            &&& context.repo == context.record.repo
            &&& context.number == context.record.number
            &&& credentials == Ok::<C, ApiError>(context.creds)
        },
        (cached matches Ok(run) && run.pull_request is Some) && credentials is Ok ==> r is Ok,
        (cached matches Ok(run) && run.pull_request is None) ==> (r matches Err(error)
            && error.status == 404 && (error.code matches Some(code) && code@
            == "no_stored_record"@)),
        cached matches Err(error) ==> r == Err::<PullRequestGithubContext<C>, ApiError>(error),
        (cached matches Ok(run) && run.pull_request is Some) ==> (credentials matches Err(error)
            ==> r == Err::<PullRequestGithubContext<C>, ApiError>(error)),
{
}

/// Without credentials, or without a client, GitHub is unavailable: the server says so,
/// and never makes up either.
pub proof fn github_is_unavailable_without_credentials_or_client<C, H>(
    found: Result<Option<C>, String>,
    client: Result<H, String>,
    credentials: Result<C, ApiError>,
    context: Result<H, ApiError>,
)
    requires
        call_ensures(load_server_github_credentials::<C>, (found,), credentials),
        call_ensures(server_github_context::<H>, (client,), context),
    ensures
        found matches Ok(Some(c)) ==> credentials == Ok::<C, ApiError>(c),
        !(found matches Ok(Some(_))) ==> (credentials matches Err(error) && error.status == 503 && (
        error.code matches Some(code) && code@ == "integration_unavailable"@)),
        client matches Ok(h) ==> context == Ok::<H, ApiError>(h),
        client is Err ==> (context matches Err(error) && error.status == 503 && (
        error.code matches Some(code) && code@ == "integration_unavailable"@)),
{
}

/// A URL that is no pull request is refused, by a code of its own where the provider is
/// to blame; any other is linked as it was parsed. Blanks around it do not matter.
pub proof fn links_are_taken_as_they_were_parsed(
    parsed: Result<PullRequestLink, String>,
    r: Result<PullRequestLink, ApiError>,
    before: Seq<char>,
    after: Seq<char>,
)
    requires
        call_ensures(pull_request_record_from_link_request, (parsed,), r),
    ensures
        parsed matches Ok(link) ==> r == Ok::<PullRequestLink, ApiError>(link),
        parsed matches Err(message) ==> (r matches Err(error) && {
            &&& error.status == 400
            &&& error.detail@ == message@
            &&& error.code is Some
            &&& message@ == before + "GitHub pull request URL"@ + after ==> error.code->0@
                == "unsupported_pull_request_provider"@
        }),
{
    if let Err(message) = parsed {
        if message@ == before + "GitHub pull request URL"@ + after {
            let at = before.len() as int;
            let needle = "GitHub pull request URL"@;
            assert(message@.subrange(at, at + needle.len()) =~= needle);
            assert(crate::text::occurs_at(message@, needle, at));
        }
    }
}

/// An error says what it was made with, and has a code only where it was given one. A pull
/// request that GitHub no longer has is a fault of the gateway, told by its number.
pub proof fn errors_say_what_they_were_made_with(
    status: u16,
    detail: String,
    text: &str,
    code: &str,
    number: u64,
    plain: ApiError,
    with: ApiError,
    gone: ApiError,
)
    requires
        call_ensures(ApiError::new, (status, detail), plain),
        call_ensures(ApiError::with_code, (status, text, code), with),
        call_ensures(github_pull_request_not_found_error, (number,), gone),
    ensures
        plain.status == status,
        plain.detail == detail,
        plain.code is None,
        with.status == status,
        with.detail@ == text@,
        coded(with, code@),
        gone.status == 502,
        gone.detail@ == "Pull request #"@ + decimal(number as nat) + " was deleted on GitHub."@,
        coded(gone, "github_not_found"@),
{
}

} // verus!
