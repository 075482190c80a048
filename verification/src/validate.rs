//! Validating a workflow: which workflow is resolved, and what preprocessing is asked
//! to do with it.

use vstd::prelude::*;

use crate::json::Json;
use crate::text::views;
use crate::text_map::TextMap;
use crate::text_set::TextSet;

verus! {

/// What is validated. `T` stands for the transforms that the caller adds.
#[derive(Debug, PartialEq, Eq)]
pub struct ValidateInput<T> {
    pub workflow: Json,
    pub settings: Json,
    /// Run-scoped variables available to prompts and goals. Empty for validation without
    /// a run.
    pub vars: TextMap<String>,
    pub cwd: String,
    pub custom_transforms: Vec<T>,
}

/// What a workflow is resolved from.
#[derive(Debug, PartialEq, Eq)]
pub struct ResolveWorkflowInput {
    pub workflow: Json,
    pub settings: Json,
    pub cwd: String,
}

/// A workflow that has been resolved. `R` stands for what finds the files it refers to.
#[derive(Debug, PartialEq, Eq)]
pub struct ResolvedWorkflow<R> {
    pub raw_source: String,
    pub goal_override: Option<String>,
    pub current_dir: Option<String>,
    pub file_resolver: R,
    pub dot_path: Option<String>,
    pub settings: Json,
    /// The provider that the settings name as the default.
    pub default_provider: Option<String>,
}

/// Why a workflow could not be validated.
#[derive(Debug, PartialEq, Eq)]
pub enum Error {
    Parse(String),
}

/// How templates are rendered.
#[derive(Debug, Clone, Copy, PartialEq, Eq, Structural)]
pub enum RenderMode {
    /// For the structure of the workflow alone.
    Skeleton,
}

/// How models are resolved.
#[derive(Debug, PartialEq, Eq)]
pub struct ModelResolutionOptions {
    pub default_provider: Option<String>,
    pub eligible_providers: TextSet,
    /// Fall back to the full catalog when the eligible providers cannot supply a
    /// requested model.
    pub catalog_fallback: bool,
}

/// What preprocessing is asked to do.
#[derive(Debug, PartialEq, Eq)]
pub struct PreprocessRequest<T, R> {
    pub raw_source: String,
    pub goal_override: Option<String>,
    pub current_dir: Option<String>,
    pub file_resolver: R,
    pub settings: Json,
    pub vars: TextMap<String>,
    pub source_name: Option<String>,
    pub render_mode: RenderMode,
    pub custom_transforms: Vec<T>,
    pub model_resolution: Option<ModelResolutionOptions>,
}

/// Which providers models may be resolved to.
#[derive(Debug, PartialEq, Eq)]
pub struct CatalogScope {
    pub eligible_providers: TextSet,
    pub catalog_fallback: bool,
}

impl<T> ValidateInput<T> {
    /// What the workflow is resolved from.
    pub fn resolve_request(&self) -> (r: ResolveWorkflowInput)
        ensures
            r.workflow.tree() == self.workflow.tree(),
            r.settings.tree() == self.settings.tree(),
            r.cwd == self.cwd,
    {
        ResolveWorkflowInput {
            workflow: self.workflow.clone(),
            settings: self.settings.clone(),
            cwd: self.cwd.clone(),
        }
    }
}

/// The request hands on the resolved workflow with the variables and transforms of the
/// input.
pub open spec fn asks_to_preprocess<T, R>(
    input: ValidateInput<T>,
    resolved: ResolvedWorkflow<R>,
    request: PreprocessRequest<T, R>,
) -> bool {
    &&& request.raw_source == resolved.raw_source
    &&& request.goal_override == resolved.goal_override
    &&& request.current_dir == resolved.current_dir
    &&& request.file_resolver == resolved.file_resolver
    &&& request.settings == resolved.settings
    &&& request.vars == input.vars
    &&& request.source_name == resolved.dot_path
    &&& request.render_mode == RenderMode::Skeleton
    &&& request.custom_transforms == input.custom_transforms
}

fn validate_in_scope<T, R>(
    input: ValidateInput<T>,
    resolved: Result<ResolvedWorkflow<R>, String>,
    scope: Option<CatalogScope>,
) -> (r: Result<PreprocessRequest<T, R>, Error>)
    ensures
        match (resolved, r) {
            (Err(message), Err(error)) => error == Error::Parse(message),
            (Ok(workflow), Ok(request)) => {
                &&& asks_to_preprocess(input, workflow, request)
                &&& match scope {
                    Some(s) => request.model_resolution == Some(
                        ModelResolutionOptions {
                            default_provider: workflow.default_provider,
                            eligible_providers: s.eligible_providers,
                            catalog_fallback: s.catalog_fallback,
                        },
                    ),
                    None => request.model_resolution is None,
                }
            },
            _ => false,
        },
{
    let workflow = match resolved {
        Ok(workflow) => workflow,
        Err(message) => {
            return Err(Error::Parse(message));
        },
    };
    let model_resolution = match scope {
        Some(s) => Some(
            ModelResolutionOptions {
                default_provider: workflow.default_provider,
                eligible_providers: s.eligible_providers,
                catalog_fallback: s.catalog_fallback,
            },
        ),
        None => None,
    };
    Ok(
        PreprocessRequest {
            raw_source: workflow.raw_source,
            goal_override: workflow.goal_override,
            current_dir: workflow.current_dir,
            file_resolver: workflow.file_resolver,
            settings: workflow.settings,
            vars: input.vars,
            source_name: workflow.dot_path,
            render_mode: RenderMode::Skeleton,
            custom_transforms: input.custom_transforms,
            model_resolution,
        },
    )
}

/// What preprocessing is asked to do for a validation without a model catalog: whether
/// models and providers are available is left to a caller that has one. `resolved` is
/// what resolving the workflow gave.
pub fn validate<T, R>(
    input: ValidateInput<T>,
    resolved: Result<ResolvedWorkflow<R>, String>,
) -> (r: Result<PreprocessRequest<T, R>, Error>)
    ensures
        match (resolved, r) {
            (Err(message), Err(error)) => error == Error::Parse(message),
            (Ok(workflow), Ok(request)) => asks_to_preprocess(input, workflow, request)
                && request.model_resolution is None,
            _ => false,
        },
{
    validate_in_scope(input, resolved, None)
}

/// What preprocessing is asked to do for a validation against a catalog with these
/// providers: models are resolved to any of them.
pub fn validate_with_catalog<T, R>(
    input: ValidateInput<T>,
    resolved: Result<ResolvedWorkflow<R>, String>,
    all_providers: &Vec<String>,
) -> (r: Result<PreprocessRequest<T, R>, Error>)
    ensures
        match (resolved, r) {
            (Err(message), Err(error)) => error == Error::Parse(message),
            (Ok(workflow), Ok(request)) => asks_to_preprocess(input, workflow, request) && (
            request.model_resolution matches Some(options) && options.default_provider
                == workflow.default_provider && options.eligible_providers@ == views(
                all_providers@,
            ).to_set() && !options.catalog_fallback),
            _ => false,
        },
{
    let scope = CatalogScope {
        eligible_providers: TextSet::of(all_providers),
        catalog_fallback: false,
    };
    validate_in_scope(input, resolved, Some(scope))
}

/// What preprocessing is asked to do for a validation against the providers that are
/// ready: they come first, and the full catalog is fallen back to.
pub fn validate_with_ready_providers<T, R>(
    input: ValidateInput<T>,
    resolved: Result<ResolvedWorkflow<R>, String>,
    ready_providers: &Vec<String>,
) -> (r: Result<PreprocessRequest<T, R>, Error>)
    ensures
        match (resolved, r) {
            (Err(message), Err(error)) => error == Error::Parse(message),
            (Ok(workflow), Ok(request)) => asks_to_preprocess(input, workflow, request) && (
            request.model_resolution matches Some(options) && options.default_provider
                == workflow.default_provider && options.eligible_providers@ == views(
                ready_providers@,
            ).to_set() && options.catalog_fallback),
            _ => false,
        },
{
    let scope = CatalogScope {
        eligible_providers: TextSet::of(ready_providers),
        catalog_fallback: true,
    };
    validate_in_scope(input, resolved, Some(scope))
}

/// The request is that of the workflow and of the input, each with its own part.
pub open spec fn hands_on<T, R>(
    input: ValidateInput<T>,
    workflow: ResolvedWorkflow<R>,
    request: PreprocessRequest<T, R>,
) -> bool {
    &&& request.raw_source == workflow.raw_source
    &&& request.goal_override == workflow.goal_override
    &&& request.current_dir == workflow.current_dir
    &&& request.file_resolver == workflow.file_resolver
    &&& request.settings == workflow.settings
    &&& request.source_name == workflow.dot_path
    &&& request.vars == input.vars
    &&& request.custom_transforms == input.custom_transforms
    &&& request.render_mode == RenderMode::Skeleton
}

/// The three validations of a workflow differ in one thing: which providers models may be
/// resolved to. Without a catalog no model is resolved; with one, its providers are all
/// there are; with ready providers, those come first and the catalog is fallen back to.
pub proof fn validations_differ_in_their_providers<T, R>(
    input: ValidateInput<T>,
    workflow: ResolvedWorkflow<R>,
    providers: &Vec<String>,
    plain: Result<PreprocessRequest<T, R>, Error>,
    with_catalog: Result<PreprocessRequest<T, R>, Error>,
    with_ready: Result<PreprocessRequest<T, R>, Error>,
    provider: Seq<char>,
)
    requires
        call_ensures(validate::<T, R>, (input, Ok::<ResolvedWorkflow<R>, String>(workflow)), plain),
        call_ensures(
            validate_with_catalog::<T, R>,
            (input, Ok::<ResolvedWorkflow<R>, String>(workflow), providers),
            with_catalog,
        ),
        call_ensures(
            validate_with_ready_providers::<T, R>,
            (input, Ok::<ResolvedWorkflow<R>, String>(workflow), providers),
            with_ready,
        ),
    ensures
        plain matches Ok(request) && hands_on(input, workflow, request)
            && request.model_resolution is None,
        with_catalog matches Ok(request) && hands_on(input, workflow, request) && (
        request.model_resolution matches Some(options) && !options.catalog_fallback
            && options.default_provider == workflow.default_provider && (
        options.eligible_providers@.contains(provider) <==> exists|i: int|
            0 <= i < providers@.len() && #[trigger] providers@[i]@ == provider)),
        with_ready matches Ok(request) && hands_on(input, workflow, request) && (
        request.model_resolution matches Some(options) && options.catalog_fallback
            && options.default_provider == workflow.default_provider && (
        options.eligible_providers@.contains(provider) <==> exists|i: int|
            0 <= i < providers@.len() && #[trigger] providers@[i]@ == provider)),
{
    let names = views(providers@);
    assert(names.to_set().contains(provider) <==> exists|i: int|
        0 <= i < providers@.len() && #[trigger] providers@[i]@ == provider) by {
        if names.to_set().contains(provider) {
            let i = choose|i: int| 0 <= i < names.len() && names[i] == provider;
            assert(providers@[i]@ == provider);
        }
        if exists|i: int| 0 <= i < providers@.len() && #[trigger] providers@[i]@ == provider {
            let i = choose|i: int| 0 <= i < providers@.len() && #[trigger] providers@[i]@
                == provider;
            assert(names[i] == provider);
        }
    }
}

/// A workflow that cannot be resolved is not validated: what is reported is why.
pub proof fn unresolved_workflows_are_not_validated<T, R>(
    input: ValidateInput<T>,
    message: String,
    providers: &Vec<String>,
    plain: Result<PreprocessRequest<T, R>, Error>,
    with_catalog: Result<PreprocessRequest<T, R>, Error>,
    with_ready: Result<PreprocessRequest<T, R>, Error>,
)
    requires
        call_ensures(validate::<T, R>, (input, Err::<ResolvedWorkflow<R>, String>(message)), plain),
        call_ensures(
            validate_with_catalog::<T, R>,
            (input, Err::<ResolvedWorkflow<R>, String>(message), providers),
            with_catalog,
        ),
        call_ensures(
            validate_with_ready_providers::<T, R>,
            (input, Err::<ResolvedWorkflow<R>, String>(message), providers),
            with_ready,
        ),
    ensures
        plain == Err::<PreprocessRequest<T, R>, Error>(Error::Parse(message)),
        with_catalog == plain,
        with_ready == plain,
{
}

/// A workflow is resolved from what was given to be validated.
pub proof fn workflows_are_resolved_from_the_input<T>(
    input: ValidateInput<T>,
    r: ResolveWorkflowInput,
)
    requires
        call_ensures(ValidateInput::<T>::resolve_request, (&input,), r),
    ensures
        r.workflow.tree() == input.workflow.tree(),
        r.settings.tree() == input.settings.tree(),
        r.cwd == input.cwd,
{
}

} // verus!
