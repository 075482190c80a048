//! The later stages of compiling a run: layering its settings, applying its
//! variables, compiling and materializing its graph, and putting together the input
//! for persistence.

use vstd::prelude::*;
use vstd::string::*;

use crate::json::Json;
use crate::run_compiler::{
    normalizes, AutomationRef, BundledWorkflow, InvalidSettingsError, NormalizedRun,
    RawRunCompilerInput, RunCompilerError, RunId, RunMetadata, SettingsLayer,
    VariableInterpolationError, WorkflowError,
};
use crate::text_map::TextMap;

verus! {

// ---- Stage two: the settings ----

/// One source of settings, handed to the builder of the settings.
#[derive(Debug, PartialEq, Eq)]
pub enum LayerStep {
    ServerDefaults { run: Json, environments: Json },
    McpCatalog(Json),
    RunOverrides(Json),
    CliOverrides(Json),
    Workflow(SettingsLayer),
    Project(SettingsLayer),
    User(String),
}

/// The sources of the settings of a run, in the order in which the builder gets them.
pub open spec fn layer_steps(run: NormalizedRun) -> Seq<LayerStep> {
    seq![
        LayerStep::ServerDefaults {
            run: run.server_run_defaults,
            environments: run.server_environment_defaults,
        },
        LayerStep::McpCatalog(run.server_mcp_catalog),
    ] + (match run.run_overrides {
        Some(layer) => seq![LayerStep::RunOverrides(layer)],
        None => Seq::empty(),
    }) + (match run.cli_overrides {
        Some(layer) => seq![LayerStep::CliOverrides(layer)],
        None => Seq::empty(),
    }) + (match run.workflow_layer {
        Some(layer) => seq![LayerStep::Workflow(layer)],
        None => Seq::empty(),
    }) + run.project_layers@.map_values(|layer: SettingsLayer| LayerStep::Project(layer))
        + run.user_toml@.map_values(|source: String| LayerStep::User(source))
}

/// How a goal is given.
#[derive(Debug, PartialEq, Eq)]
pub enum RunGoal {
    Inline(String),
    Other(Json),
}

/// A pattern for artifacts, and what is wrong with it as a glob, if anything is.
#[derive(Debug, PartialEq, Eq)]
pub struct ArtifactPattern {
    pub pattern: String,
    pub fault: Option<String>,
}

/// The settings of a run.
#[derive(Debug, PartialEq, Eq)]
pub struct WorkflowSettings {
    pub inputs: TextMap<Json>,
    pub goal: Option<RunGoal>,
    pub artifacts_include: Vec<ArtifactPattern>,
    pub body: Json,
}

/// A run whose settings are being built.
#[derive(Debug, PartialEq, Eq)]
pub struct LayeringRun {
    pub workflow_bundle: TextMap<BundledWorkflow>,
    pub entrypoint: String,
    pub workflow: BundledWorkflow,
    pub cwd: String,
    pub input_overrides: TextMap<Json>,
    pub inline_goal_override: Option<String>,
    pub vars: TextMap<String>,
    pub configured_providers: Vec<String>,
    pub metadata: RunMetadata,
}

/// A run with its settings.
#[derive(Debug, PartialEq, Eq)]
pub struct LayeredRun {
    pub workflow_bundle: TextMap<BundledWorkflow>,
    pub entrypoint: String,
    pub workflow: BundledWorkflow,
    pub settings: WorkflowSettings,
    pub cwd: String,
    pub vars: TextMap<String>,
    pub configured_providers: Vec<String>,
    pub metadata: RunMetadata,
}

/// Why the settings could not be built.
#[derive(Debug, PartialEq, Eq)]
pub enum LayeringFault {
    /// A user settings source could not be parsed.
    User(String),
    /// The layers could not be resolved.
    Resolve(String),
}

/// What the layering of a run keeps of it.
pub open spec fn set_aside(run: NormalizedRun, pending: LayeringRun) -> bool {
    &&& pending.workflow_bundle == run.workflow_bundle
    &&& pending.entrypoint == run.entrypoint
    &&& pending.workflow == run.workflow
    &&& pending.cwd == run.cwd
    &&& pending.input_overrides == run.input_overrides
    &&& pending.inline_goal_override == run.inline_goal_override
    &&& pending.vars == run.vars
    &&& pending.configured_providers == run.configured_providers
    &&& pending.metadata == run.metadata
}

/// Gives the sources of the settings in the order in which they are layered, and the
/// rest of the run.
pub fn layer_settings(run: NormalizedRun) -> (r: (Vec<LayerStep>, LayeringRun))
    ensures
        r.0@ == layer_steps(run),
        set_aside(run, r.1),
{
    let ghost whole = run;
    let mut steps: Vec<LayerStep> = Vec::new();
    steps.push(
        LayerStep::ServerDefaults {
            run: run.server_run_defaults,
            environments: run.server_environment_defaults,
        },
    );
    steps.push(LayerStep::McpCatalog(run.server_mcp_catalog));
    if let Some(layer) = run.run_overrides {
        steps.push(LayerStep::RunOverrides(layer));
    }
    if let Some(layer) = run.cli_overrides {
        steps.push(LayerStep::CliOverrides(layer));
    }
    if let Some(layer) = run.workflow_layer {
        steps.push(LayerStep::Workflow(layer));
    }
    let ghost fixed = steps@;
    let ghost projects = run.project_layers@;
    let ghost users = run.user_toml@;
    let ghost as_project = |layer: SettingsLayer| LayerStep::Project(layer);
    let ghost as_user = |source: String| LayerStep::User(source);
    let mut layers = run.project_layers;
    let ghost mut done: int = 0;
    proof {
        assert(projects.take(0).map_values(as_project) =~= Seq::<LayerStep>::empty());
    }
    while layers.len() > 0
        invariant
            0 <= done <= projects.len(),
            layers@ == projects.skip(done),
            steps@ == fixed + projects.take(done).map_values(as_project),
            as_project == (|layer: SettingsLayer| LayerStep::Project(layer)),
        decreases layers@.len(),
    {
        let layer = layers.remove(0);
        proof {
            assert(layer == projects[done]);
            assert(projects.take(done + 1).map_values(as_project) =~= projects.take(
                done,
            ).map_values(as_project).push(LayerStep::Project(layer)));
            assert(layers@ =~= projects.skip(done + 1));
            done = done + 1;
        }
        steps.push(LayerStep::Project(layer));
    }
    proof {
        assert(projects.take(done) =~= projects);
    }
    let ghost so_far = steps@;
    let mut sources = run.user_toml;
    let ghost mut read: int = 0;
    proof {
        assert(users.take(0).map_values(as_user) =~= Seq::<LayerStep>::empty());
    }
    while sources.len() > 0
        invariant
            0 <= read <= users.len(),
            sources@ == users.skip(read),
            steps@ == so_far + users.take(read).map_values(as_user),
            as_user == (|source: String| LayerStep::User(source)),
        decreases sources@.len(),
    {
        let source = sources.remove(0);
        proof {
            assert(source == users[read]);
            assert(users.take(read + 1).map_values(as_user) =~= users.take(read).map_values(
                as_user,
            ).push(LayerStep::User(source)));
            assert(sources@ =~= users.skip(read + 1));
            read = read + 1;
        }
        steps.push(LayerStep::User(source));
    }
    proof {
        assert(users.take(read) =~= users);
        assert(steps@ =~= layer_steps(whole));
    }
    (
        steps,
        LayeringRun {
            workflow_bundle: run.workflow_bundle,
            entrypoint: run.entrypoint,
            workflow: run.workflow,
            cwd: run.cwd,
            input_overrides: run.input_overrides,
            inline_goal_override: run.inline_goal_override,
            vars: run.vars,
            configured_providers: run.configured_providers,
            metadata: run.metadata,
        },
    )
}

/// `layered` is `pending` with the settings that were built: the submitted inputs take
/// the place of those of the same name, and the submitted goal that of the goal.
pub open spec fn layers(
    pending: LayeringRun,
    built: WorkflowSettings,
    layered: LayeredRun,
) -> bool {
    &&& layered.workflow_bundle == pending.workflow_bundle
    &&& layered.entrypoint == pending.entrypoint
    &&& layered.workflow == pending.workflow
    &&& layered.cwd == pending.cwd
    &&& layered.vars == pending.vars
    &&& layered.configured_providers == pending.configured_providers
    &&& layered.metadata == pending.metadata
    &&& layered.settings.inputs@ == built.inputs@.union_prefer_right(pending.input_overrides@)
    &&& layered.settings.goal == (match pending.inline_goal_override {
        Some(goal) => Some(RunGoal::Inline(goal)),
        None => built.goal,
    })
    &&& layered.settings.artifacts_include == built.artifacts_include
    &&& layered.settings.body == built.body
}

/// Takes the settings that were built and applies the submitted inputs and goal.
pub fn finish_layering(
    pending: LayeringRun,
    built: Result<WorkflowSettings, LayeringFault>,
) -> (r: Result<LayeredRun, RunCompilerError>)
    ensures
        match (built, r) {
            (Ok(settings), Ok(layered)) => layers(pending, settings, layered),
            (Err(LayeringFault::User(source)), Err(error)) => error
                == (RunCompilerError::InvalidSettings {
                source: InvalidSettingsError::User { source },
            }),
            (Err(LayeringFault::Resolve(source)), Err(error)) => error
                == (RunCompilerError::InvalidSettings {
                source: InvalidSettingsError::Resolve { source },
            }),
            _ => false,
        },
{
    let settings = match built {
        Ok(settings) => settings,
        Err(LayeringFault::User(source)) => {
            return Err(
                RunCompilerError::InvalidSettings { source: InvalidSettingsError::User { source } },
            );
        },
        Err(LayeringFault::Resolve(source)) => {
            return Err(
                RunCompilerError::InvalidSettings {
                    source: InvalidSettingsError::Resolve { source },
                },
            );
        },
    };
    let mut inputs = settings.inputs;
    inputs.extend(pending.input_overrides);
    let goal = match pending.inline_goal_override {
        Some(goal) => Some(RunGoal::Inline(goal)),
        None => settings.goal,
    };
    Ok(
        LayeredRun {
            workflow_bundle: pending.workflow_bundle,
            entrypoint: pending.entrypoint,
            workflow: pending.workflow,
            settings: WorkflowSettings {
                inputs,
                goal,
                artifacts_include: settings.artifacts_include,
                body: settings.body,
            },
            cwd: pending.cwd,
            vars: pending.vars,
            configured_providers: pending.configured_providers,
            metadata: pending.metadata,
        },
    )
}

/// A submitted input has the value it was submitted with, and an input that was not
/// submitted keeps the value of the settings.
pub proof fn submitted_inputs_win(
    pending: LayeringRun,
    built: WorkflowSettings,
    layered: LayeredRun,
    name: Seq<char>,
)
    requires
        layers(pending, built, layered),
    ensures
        pending.input_overrides@.dom().contains(name) ==> layered.settings.inputs@.dom().contains(
            name,
        ) && layered.settings.inputs@[name] == pending.input_overrides@[name],
        !pending.input_overrides@.dom().contains(name) ==> (layered.settings.inputs@.dom().contains(
            name,
        ) <==> built.inputs@.dom().contains(name)),
        !pending.input_overrides@.dom().contains(name) && built.inputs@.dom().contains(name)
            ==> layered.settings.inputs@[name] == built.inputs@[name],
{
}

impl LayeredRun {
    /// The run with other variables.
    pub fn with_vars(self, vars: TextMap<String>) -> (r: Self)
        ensures
            r == (LayeredRun { vars, ..self }),
    {
        let mut r = self;
        r.vars = vars;
        r
    }
}

/// A run that is ready to be compiled.
#[derive(Debug, PartialEq, Eq)]
pub struct PreparedRun {
    pub workflow_bundle: TextMap<BundledWorkflow>,
    pub entrypoint: String,
    pub workflow: BundledWorkflow,
    pub settings: WorkflowSettings,
    pub cwd: String,
    pub vars: TextMap<String>,
    pub configured_providers: Vec<String>,
    pub metadata: RunMetadata,
}

/// `prepared` is `layered` with the settings in which the variables were substituted.
pub open spec fn prepares(
    layered: LayeredRun,
    substituted: WorkflowSettings,
    prepared: PreparedRun,
) -> bool {
    &&& prepared.workflow_bundle == layered.workflow_bundle
    &&& prepared.entrypoint == layered.entrypoint
    &&& prepared.workflow == layered.workflow
    &&& prepared.settings == substituted
    &&& prepared.cwd == layered.cwd
    &&& prepared.vars == layered.vars
    &&& prepared.configured_providers == layered.configured_providers
    &&& prepared.metadata == layered.metadata
}

/// Every pattern before `n` is a glob.
pub open spec fn globs_valid(patterns: Seq<ArtifactPattern>, n: int) -> bool {
    forall|i: int| 0 <= i < n ==> (#[trigger] patterns[i]).fault is None
}

/// Applies the variables of a run. `substituted` is what substituting them in its
/// settings gave. The patterns for artifacts are checked after that.
pub fn apply_run_variables(
    layered: LayeredRun,
    substituted: Result<WorkflowSettings, String>,
) -> (r: Result<PreparedRun, RunCompilerError>)
    ensures
        match (substituted, r) {
            (Err(source), Err(error)) => error == (RunCompilerError::VariableInterpolation {
                source: VariableInterpolationError::Interpolation(source),
            }),
            (Ok(settings), Ok(prepared)) => {
                &&& globs_valid(
                    settings.artifacts_include@,
                    settings.artifacts_include@.len() as int,
                )
                &&& prepares(layered, settings, prepared)
            },
            (
                Ok(settings),
                Err(
                    RunCompilerError::VariableInterpolation {
                        source: VariableInterpolationError::ArtifactGlob { index, source },
                    },
                ),
            ) => {
                &&& index < settings.artifacts_include@.len()
                &&& settings.artifacts_include@[index as int].fault == Some(source)
                &&& globs_valid(settings.artifacts_include@, index as int)
            },
            _ => false,
        },
{
    let settings = match substituted {
        Ok(settings) => settings,
        Err(source) => {
            return Err(
                RunCompilerError::VariableInterpolation {
                    source: VariableInterpolationError::Interpolation(source),
                },
            );
        },
    };
    let mut index: usize = 0;
    while index < settings.artifacts_include.len()
        invariant
            substituted == Ok::<WorkflowSettings, String>(settings),
            index <= settings.artifacts_include@.len(),
            globs_valid(settings.artifacts_include@, index as int),
        decreases settings.artifacts_include@.len() - index,
    {
        if let Some(source) = &settings.artifacts_include[index].fault {
            return Err(
                RunCompilerError::VariableInterpolation {
                    source: VariableInterpolationError::ArtifactGlob {
                        index,
                        source: source.clone(),
                    },
                },
            );
        }
        index += 1;
    }
    Ok(
        PreparedRun {
            workflow_bundle: layered.workflow_bundle,
            entrypoint: layered.entrypoint,
            workflow: layered.workflow,
            settings,
            cwd: layered.cwd,
            vars: layered.vars,
            configured_providers: layered.configured_providers,
            metadata: layered.metadata,
        },
    )
}

/// The id of a run: the one it has, else a fresh one.
pub open spec fn run_id_or(metadata: RunMetadata, fresh: RunId) -> RunId {
    match metadata.run_id {
        Some(id) => id,
        None => fresh,
    }
}

impl PreparedRun {
    /// Gives the run an id, `fresh` where it has none.
    pub fn resolve_run_id(self, fresh: RunId) -> (r: (Self, RunId))
        ensures
            r.1 == run_id_or(self.metadata, fresh),
            r.0 == (PreparedRun {
                metadata: RunMetadata { run_id: Some(r.1), ..self.metadata },
                ..self
            }),
    {
        let mut run = self;
        let run_id: RunId = match run.metadata.run_id {
            Some(id) => id,
            None => fresh,
        };
        run.metadata.run_id = Some(run_id);
        (run, run_id)
    }

    /// The run with another web address.
    pub fn with_web_url(self, web_url: Option<String>) -> (r: Self)
        ensures
            r == (PreparedRun { metadata: RunMetadata { web_url, ..self.metadata }, ..self }),
    {
        let mut r = self;
        r.metadata.web_url = web_url;
        r
    }

    /// The run with other providers.
    pub fn with_configured_providers(self, configured_providers: Vec<String>) -> (r: Self)
        ensures
            r == (PreparedRun { configured_providers, ..self }),
    {
        let mut r = self;
        r.configured_providers = configured_providers;
        r
    }

    /// The settings of the run.
    pub fn settings(&self) -> (r: &WorkflowSettings)
        ensures
            *r == self.settings,
    {
        &self.settings
    }

    /// The run that this one came from.
    pub fn parent_id(&self) -> (r: Option<RunId>)
        ensures
            r == self.metadata.parent_id,
    {
        self.metadata.parent_id
    }
}

// ---- Stage three: the graph ----

/// What the compiler of the graph is given.
#[derive(Debug, PartialEq, Eq)]
pub struct CreateRunCompileInput {
    pub workflow: BundledWorkflow,
    pub settings: WorkflowSettings,
    pub vars: TextMap<String>,
    pub cwd: String,
    pub workflow_path: Option<String>,
    pub workflow_bundle: Option<TextMap<BundledWorkflow>>,
    pub configured_providers: Vec<String>,
}

/// A run whose graph is at some stage: compiled or materialized.
#[derive(Debug, PartialEq, Eq)]
pub struct StagedRun<T> {
    pub stage: T,
    pub entrypoint: String,
    pub metadata: RunMetadata,
}

/// A run whose graph has been compiled.
pub type GraphCompiledRun<T> = StagedRun<T>;

/// A run that has been materialized.
pub type PersistenceReadyRun<T> = StagedRun<T>;

impl<T> StagedRun<T> {
    /// What the stage gave.
    pub fn compiled(&self) -> (r: &T)
        ensures
            *r == self.stage,
    {
        &self.stage
    }
}

/// Parts a prepared run into what the compiler of the graph is given and what waits
/// for its result.
pub fn compile_graph(prepared: PreparedRun) -> (r: StagedRun<CreateRunCompileInput>)
    ensures
        r.entrypoint == prepared.entrypoint,
        r.metadata == prepared.metadata,
        r.stage.workflow == prepared.workflow,
        r.stage.settings == prepared.settings,
        r.stage.vars == prepared.vars,
        r.stage.cwd == prepared.cwd,
        r.stage.workflow_path == Some(prepared.entrypoint),
        r.stage.workflow_bundle == Some(prepared.workflow_bundle),
        r.stage.configured_providers == prepared.configured_providers,
{
    let workflow_path = Some(prepared.entrypoint.clone());
    StagedRun {
        stage: CreateRunCompileInput {
            workflow: prepared.workflow,
            settings: prepared.settings,
            vars: prepared.vars,
            cwd: prepared.cwd,
            workflow_path,
            workflow_bundle: Some(prepared.workflow_bundle),
            configured_providers: prepared.configured_providers,
        },
        entrypoint: prepared.entrypoint,
        metadata: prepared.metadata,
    }
}

/// How an error of the workflow engine is reported: by its kind where the submitter
/// can do something about it, else as an internal one.
pub open spec fn classified(error: WorkflowError, r: RunCompilerError) -> bool {
    match error {
        WorkflowError::ModelSelection(source) => r == (RunCompilerError::ModelSelection { source }),
        WorkflowError::ModelReference(source) => r == (RunCompilerError::ModelReference { source }),
        WorkflowError::Parse(_) => r == (RunCompilerError::ValidationOrParse { source: error }),
        WorkflowError::ValidationFailed(_) => r == (RunCompilerError::ValidationOrParse {
            source: error,
        }),
        WorkflowError::Engine { .. } => internal_failure(error, r),
        WorkflowError::Other(_) => internal_failure(error, r),
    }
}

/// The error is internal, with this cause.
pub open spec fn internal_failure(cause: WorkflowError, r: RunCompilerError) -> bool {
    r matches RunCompilerError::Internal { context, source } && context@
        == "workflow compilation failed"@ && source == cause
}

/// Reports an error of the workflow engine.
pub fn classify_workflow_error(error: WorkflowError) -> (r: RunCompilerError)
    ensures
        classified(error, r),
{
    match error {
        WorkflowError::ModelSelection(source) => RunCompilerError::ModelSelection { source },
        WorkflowError::ModelReference(source) => RunCompilerError::ModelReference { source },
        WorkflowError::Parse(text) => RunCompilerError::ValidationOrParse {
            source: WorkflowError::Parse(text),
        },
        WorkflowError::ValidationFailed(text) => RunCompilerError::ValidationOrParse {
            source: WorkflowError::ValidationFailed(text),
        },
        other => RunCompilerError::Internal {
            context: "workflow compilation failed".to_owned(),
            source: other,
        },
    }
}

/// How the task ended that compiled or materialized a graph.
#[derive(Debug, PartialEq, Eq)]
pub enum TaskEnd<T> {
    Done(T),
    Refused(WorkflowError),
    /// The task itself failed, with this message.
    Crashed(String),
}

/// Takes the result of a stage of the graph back into the run that waits for it.
pub fn after_graph_stage<S, T>(waiting: StagedRun<S>, end: TaskEnd<T>) -> (r: Result<
    StagedRun<T>,
    RunCompilerError,
>)
    ensures
        match (end, r) {
            (TaskEnd::Done(stage), Ok(run)) => {
                &&& run.stage == stage
                &&& run.entrypoint == waiting.entrypoint
                &&& run.metadata == waiting.metadata
            },
            (TaskEnd::Refused(cause), Err(error)) => classified(cause, error),
            (TaskEnd::Crashed(message), Err(error)) => {
                error matches RunCompilerError::Internal { context, source } && context@
                    == "workflow compilation failed"@ && (source matches WorkflowError::Engine { message: text, source: reason }
                    && text@ == "workflow create task failed"@ && reason == message)
            },
            _ => false,
        },
{
    match end {
        TaskEnd::Done(stage) => Ok(
            StagedRun { stage, entrypoint: waiting.entrypoint, metadata: waiting.metadata },
        ),
        TaskEnd::Refused(cause) => Err(classify_workflow_error(cause)),
        TaskEnd::Crashed(message) => Err(
            RunCompilerError::Internal {
                context: "workflow compilation failed".to_owned(),
                source: WorkflowError::Engine {
                    message: "workflow create task failed".to_owned(),
                    source: message,
                },
            },
        ),
    }
}

// ---- Stage four: the input for persistence ----

/// What is persisted of a run.
#[derive(Debug, PartialEq, Eq)]
pub struct CreateRunPersistenceInput<T> {
    pub materialized: T,
    pub run_id: RunId,
    pub storage_root: String,
    pub workflow_slug: Option<String>,
    pub submitted_manifest_bytes: Option<Vec<u8>>,
    pub title: Option<String>,
    pub automation: Option<AutomationRef>,
    pub git: Option<Json>,
    pub fork_source_ref: Option<String>,
    pub parent_id: Option<RunId>,
    pub provenance: Json,
    pub web_url: Option<String>,
}

/// What compiling a run gives in the end.
#[derive(Debug, PartialEq, Eq)]
pub struct RunCompilerOutput<T> {
    persistence_input: CreateRunPersistenceInput<T>,
    entrypoint: String,
}

impl<T> RunCompilerOutput<T> {
    /// The input for persistence.
    pub closed spec fn input(self) -> CreateRunPersistenceInput<T> {
        self.persistence_input
    }

    /// The path of the workflow that the run starts from.
    pub closed spec fn start(self) -> String {
        self.entrypoint
    }

    /// The input for persistence.
    pub fn persistence_input(&self) -> (r: &CreateRunPersistenceInput<T>)
        ensures
            *r == self.input(),
    {
        &self.persistence_input
    }

    /// The path of the workflow that the run starts from.
    pub fn entrypoint(&self) -> (r: &String)
        ensures
            *r == self.start(),
    {
        &self.entrypoint
    }

    /// The input for persistence and the path of the workflow.
    pub fn into_parts(self) -> (r: (CreateRunPersistenceInput<T>, String))
        ensures
            r == (self.input(), self.start()),
    {
        (self.persistence_input, self.entrypoint)
    }
}

/// The output holds the run with all its metadata.
pub open spec fn assembles<T>(
    ready: PersistenceReadyRun<T>,
    fresh: RunId,
    output: RunCompilerOutput<T>,
) -> bool {
    &&& output.start() == ready.entrypoint
    &&& output.input().materialized == ready.stage
    &&& output.input().run_id == run_id_or(ready.metadata, fresh)
    &&& output.input().storage_root == ready.metadata.storage_root
    &&& output.input().workflow_slug == ready.metadata.workflow_slug
    &&& output.input().submitted_manifest_bytes == ready.metadata.submitted_manifest_bytes
    &&& output.input().title == ready.metadata.title
    &&& output.input().automation == ready.metadata.automation
    &&& output.input().git == ready.metadata.git
    &&& output.input().fork_source_ref is None
    &&& output.input().parent_id == ready.metadata.parent_id
    &&& output.input().provenance == ready.metadata.provenance
    &&& output.input().web_url == ready.metadata.web_url
}

/// Puts together the input for persistence; a run without an id gets `fresh`.
pub fn assemble_run<T>(ready: PersistenceReadyRun<T>, fresh: RunId) -> (r: RunCompilerOutput<T>)
    ensures
        assembles(ready, fresh, r),
{
    let metadata = ready.metadata;
    let run_id: RunId = match metadata.run_id {
        Some(id) => id,
        None => fresh,
    };
    RunCompilerOutput {
        persistence_input: CreateRunPersistenceInput {
            materialized: ready.stage,
            run_id,
            storage_root: metadata.storage_root,
            workflow_slug: metadata.workflow_slug,
            submitted_manifest_bytes: metadata.submitted_manifest_bytes,
            title: metadata.title,
            automation: metadata.automation,
            git: metadata.git,
            fork_source_ref: None,
            parent_id: metadata.parent_id,
            provenance: metadata.provenance,
            web_url: metadata.web_url,
        },
        entrypoint: ready.entrypoint,
    }
}

/// From the submitted run to the prepared one, the entrypoint, the working directory,
/// the variables, the providers and all metadata stay as they were submitted.
pub proof fn preparing_keeps_what_was_submitted(
    input: RawRunCompilerInput,
    workflow_settings: Result<SettingsLayer, String>,
    normalized: NormalizedRun,
    pending: LayeringRun,
    built: WorkflowSettings,
    layered: LayeredRun,
    substituted: WorkflowSettings,
    prepared: PreparedRun,
)
    requires
        normalizes(input, workflow_settings, normalized),
        set_aside(normalized, pending),
        layers(pending, built, layered),
        prepares(layered, substituted, prepared),
    ensures
        prepared.entrypoint == input.entrypoint,
        prepared.workflow.path == input.entrypoint,
        prepared.cwd == input.cwd,
        prepared.vars == input.vars,
        prepared.workflow_bundle == input.workflow_bundle,
        prepared.configured_providers == input.configured_providers,
        prepared.metadata == input.metadata,
{
}

/// The id that was resolved for a run is the one that is persisted, whatever fresh ids
/// were at hand, and a submitted id is kept.
pub proof fn the_resolved_run_id_is_persisted<T>(
    metadata: RunMetadata,
    fresh: RunId,
    other: RunId,
    ready: PersistenceReadyRun<T>,
    output: RunCompilerOutput<T>,
)
    requires
        ready.metadata == (RunMetadata { run_id: Some(run_id_or(metadata, fresh)), ..metadata }),
        assembles(ready, other, output),
    ensures
        output.input().run_id == run_id_or(metadata, fresh),
        metadata.run_id matches Some(id) ==> output.input().run_id == id,
{
}

// ---- What reaches the settings ----

/// The one value of an option, or none.
pub open spec fn at_most_one<T>(value: Option<T>) -> Seq<T> {
    match value {
        Some(v) => seq![v],
        None => Seq::empty(),
    }
}

/// How late a source of settings comes: the defaults of the server first, those of the
/// user last.
pub open spec fn turn(step: LayerStep) -> int {
    match step {
        LayerStep::ServerDefaults { .. } => 0,
        LayerStep::McpCatalog(_) => 1,
        LayerStep::RunOverrides(_) => 2,
        LayerStep::CliOverrides(_) => 3,
        LayerStep::Workflow(_) => 4,
        LayerStep::Project(_) => 5,
        LayerStep::User(_) => 6,
    }
}

/// The steps of one turn, in order.
pub open spec fn of_turn(steps: Seq<LayerStep>, n: int) -> Seq<LayerStep> {
    steps.filter(|step: LayerStep| turn(step) == n)
}

proof fn lemma_of_turn_all(steps: Seq<LayerStep>, n: int)
    requires
        forall|i: int| 0 <= i < steps.len() ==> turn(#[trigger] steps[i]) == n,
    ensures
        of_turn(steps, n) == steps,
    decreases steps.len(),
{
    reveal(Seq::filter);
    if steps.len() > 0 {
        lemma_of_turn_all(steps.drop_last(), n);
        assert(turn(steps[steps.len() - 1]) == n);
        assert(steps.drop_last().push(steps.last()) =~= steps);
    } else {
        assert(of_turn(steps, n) =~= steps);
    }
}

proof fn lemma_of_turn_none(steps: Seq<LayerStep>, n: int)
    requires
        forall|i: int| 0 <= i < steps.len() ==> turn(#[trigger] steps[i]) != n,
    ensures
        of_turn(steps, n) == Seq::<LayerStep>::empty(),
    decreases steps.len(),
{
    reveal(Seq::filter);
    if steps.len() > 0 {
        lemma_of_turn_none(steps.drop_last(), n);
        assert(turn(steps[steps.len() - 1]) != n);
    } else {
        assert(of_turn(steps, n) =~= Seq::<LayerStep>::empty());
    }
}

/// Steps of one turn among all: those steps where the turn is theirs, none else.
proof fn lemma_of_turn(steps: Seq<LayerStep>, m: int, n: int)
    requires
        forall|i: int| 0 <= i < steps.len() ==> turn(#[trigger] steps[i]) == m,
    ensures
        of_turn(steps, n) == (if m == n {
            steps
        } else {
            Seq::<LayerStep>::empty()
        }),
{
    if m == n {
        lemma_of_turn_all(steps, n);
    } else {
        lemma_of_turn_none(steps, n);
    }
}

/// All the steps are of one turn.
spec fn all_of_turn(steps: Seq<LayerStep>, n: int) -> bool {
    forall|i: int| 0 <= i < steps.len() ==> turn(#[trigger] steps[i]) == n
}

/// Behind steps of earlier turns, the steps of a turn are found, and the earlier ones as
/// before.
proof fn lemma_one_more_turn(steps: Seq<LayerStep>, group: Seq<LayerStep>, m: int, n: int)
    requires
        all_of_turn(group, m),
        forall|i: int| 0 <= i < steps.len() ==> turn(#[trigger] steps[i]) < m,
    ensures
        of_turn(steps + group, n) == (if n == m {
            group
        } else {
            of_turn(steps, n)
        }),
        forall|i: int| 0 <= i < (steps + group).len() ==> turn(#[trigger] (steps + group)[i]) <= m,
{
    let p = |step: LayerStep| turn(step) == n;
    Seq::filter_distributes_over_add(steps, group, p);
    lemma_of_turn(group, m, n);
    if n == m {
        lemma_of_turn_none(steps, n);
        assert(Seq::<LayerStep>::empty() + group =~= group);
    } else {
        assert(of_turn(steps, n) + Seq::<LayerStep>::empty() =~= of_turn(steps, n));
    }
    assert forall|i: int| 0 <= i < (steps + group).len() implies turn(
        #[trigger] (steps + group)[i],
    ) <= m by {
        if i >= steps.len() {
            assert((steps + group)[i] == group[i - steps.len()]);
        }
    }
}

/// The steps stand in the order of their turns.
pub open spec fn in_turn(steps: Seq<LayerStep>) -> bool {
    forall|i: int, j: int|
        0 <= i < j < steps.len() ==> turn(#[trigger] steps[i]) <= turn(#[trigger] steps[j])
}

proof fn lemma_in_turn(steps: Seq<LayerStep>, group: Seq<LayerStep>, m: int)
    requires
        all_of_turn(group, m),
        in_turn(steps),
        forall|i: int| 0 <= i < steps.len() ==> turn(#[trigger] steps[i]) < m,
    ensures
        in_turn(steps + group),
{
    let all = steps + group;
    assert forall|i: int, j: int| 0 <= i < j < all.len() implies turn(#[trigger] all[i]) <= turn(
        #[trigger] all[j],
    ) by {
        if j >= steps.len() {
            assert(all[j] == group[j - steps.len()]);
            if i >= steps.len() {
                assert(all[i] == group[i - steps.len()]);
            }
        }
    }
}

/// Of steps that stand turn by turn, those of each turn are found as they are.
proof fn lemma_turn_by_turn(
    g0: Seq<LayerStep>,
    g1: Seq<LayerStep>,
    g2: Seq<LayerStep>,
    g3: Seq<LayerStep>,
    g4: Seq<LayerStep>,
    g5: Seq<LayerStep>,
    g6: Seq<LayerStep>,
)
    requires
        all_of_turn(g0, 0),
        all_of_turn(g1, 1),
        all_of_turn(g2, 2),
        all_of_turn(g3, 3),
        all_of_turn(g4, 4),
        all_of_turn(g5, 5),
        all_of_turn(g6, 6),
    ensures
        of_turn(g0 + g1 + g2 + g3 + g4 + g5 + g6, 0) == g0,
        of_turn(g0 + g1 + g2 + g3 + g4 + g5 + g6, 1) == g1,
        of_turn(g0 + g1 + g2 + g3 + g4 + g5 + g6, 2) == g2,
        of_turn(g0 + g1 + g2 + g3 + g4 + g5 + g6, 3) == g3,
        of_turn(g0 + g1 + g2 + g3 + g4 + g5 + g6, 4) == g4,
        of_turn(g0 + g1 + g2 + g3 + g4 + g5 + g6, 5) == g5,
        of_turn(g0 + g1 + g2 + g3 + g4 + g5 + g6, 6) == g6,
        in_turn(g0 + g1 + g2 + g3 + g4 + g5 + g6),
{
    lemma_turn(g0, g1, g2, g3, g4, g5, g6, 0);
    lemma_turn(g0, g1, g2, g3, g4, g5, g6, 1);
    lemma_turn(g0, g1, g2, g3, g4, g5, g6, 2);
    lemma_turn(g0, g1, g2, g3, g4, g5, g6, 3);
    lemma_turn(g0, g1, g2, g3, g4, g5, g6, 4);
    lemma_turn(g0, g1, g2, g3, g4, g5, g6, 5);
    lemma_turn(g0, g1, g2, g3, g4, g5, g6, 6);
}

proof fn lemma_turn(
    g0: Seq<LayerStep>,
    g1: Seq<LayerStep>,
    g2: Seq<LayerStep>,
    g3: Seq<LayerStep>,
    g4: Seq<LayerStep>,
    g5: Seq<LayerStep>,
    g6: Seq<LayerStep>,
    n: int,
)
    requires
        all_of_turn(g0, 0),
        all_of_turn(g1, 1),
        all_of_turn(g2, 2),
        all_of_turn(g3, 3),
        all_of_turn(g4, 4),
        all_of_turn(g5, 5),
        all_of_turn(g6, 6),
        0 <= n <= 6,
    ensures
        of_turn(g0 + g1 + g2 + g3 + g4 + g5 + g6, n) == (if n == 0 {
            g0
        } else if n == 1 {
            g1
        } else if n == 2 {
            g2
        } else if n == 3 {
            g3
        } else if n == 4 {
            g4
        } else if n == 5 {
            g5
        } else {
            g6
        }),
        in_turn(g0 + g1 + g2 + g3 + g4 + g5 + g6),
{
    let a = g0 + g1;
    let b = a + g2;
    let c = b + g3;
    let d = c + g4;
    let e = d + g5;
    lemma_of_turn(g0, 0, n);
    lemma_in_turn(g0, g1, 1);
    lemma_one_more_turn(g0, g1, 1, n);
    lemma_in_turn(a, g2, 2);
    lemma_one_more_turn(a, g2, 2, n);
    lemma_in_turn(b, g3, 3);
    lemma_one_more_turn(b, g3, 3, n);
    lemma_in_turn(c, g4, 4);
    lemma_one_more_turn(c, g4, 4, n);
    lemma_in_turn(d, g5, 5);
    lemma_one_more_turn(d, g5, 5, n);
    lemma_in_turn(e, g6, 6);
    lemma_one_more_turn(e, g6, 6, n);
}

/// Every source of settings of a run reaches the builder, each exactly once and as it
/// is: the defaults of the server, its MCP catalog, the run overrides, the overrides of
/// the command line, the settings of the workflow, those of the projects and those of
/// the user, the last two in the order in which they were given. There is no other step,
/// and no source comes before one that is to come earlier.
pub proof fn every_source_of_settings_reaches_the_builder(run: NormalizedRun)
    ensures
        of_turn(layer_steps(run), 0) == seq![
            LayerStep::ServerDefaults {
                run: run.server_run_defaults,
                environments: run.server_environment_defaults,
            },
        ],
        of_turn(layer_steps(run), 1) == seq![LayerStep::McpCatalog(run.server_mcp_catalog)],
        of_turn(layer_steps(run), 2) == at_most_one(run.run_overrides).map_values(
            |layer: Json| LayerStep::RunOverrides(layer),
        ),
        of_turn(layer_steps(run), 3) == at_most_one(run.cli_overrides).map_values(
            |layer: Json| LayerStep::CliOverrides(layer),
        ),
        of_turn(layer_steps(run), 4) == at_most_one(run.workflow_layer).map_values(
            |layer: SettingsLayer| LayerStep::Workflow(layer),
        ),
        of_turn(layer_steps(run), 5) == run.project_layers@.map_values(
            |layer: SettingsLayer| LayerStep::Project(layer),
        ),
        of_turn(layer_steps(run), 6) == run.user_toml@.map_values(
            |source: String| LayerStep::User(source),
        ),
        in_turn(layer_steps(run)),
{
    let first = seq![
        LayerStep::ServerDefaults {
            run: run.server_run_defaults,
            environments: run.server_environment_defaults,
        },
    ];
    let catalog = seq![LayerStep::McpCatalog(run.server_mcp_catalog)];
    let overrides = at_most_one(run.run_overrides).map_values(
        |layer: Json| LayerStep::RunOverrides(layer),
    );
    let command_line = at_most_one(run.cli_overrides).map_values(
        |layer: Json| LayerStep::CliOverrides(layer),
    );
    let workflow = at_most_one(run.workflow_layer).map_values(
        |layer: SettingsLayer| LayerStep::Workflow(layer),
    );
    let projects = run.project_layers@.map_values(|layer: SettingsLayer| LayerStep::Project(layer));
    let users = run.user_toml@.map_values(|source: String| LayerStep::User(source));
    assert(first + catalog =~= seq![first[0], catalog[0]]);
    assert(overrides =~= (match run.run_overrides {
        Some(layer) => seq![LayerStep::RunOverrides(layer)],
        None => Seq::empty(),
    }));
    assert(command_line =~= (match run.cli_overrides {
        Some(layer) => seq![LayerStep::CliOverrides(layer)],
        None => Seq::empty(),
    }));
    assert(workflow =~= (match run.workflow_layer {
        Some(layer) => seq![LayerStep::Workflow(layer)],
        None => Seq::empty(),
    }));
    assert(layer_steps(run) == first + catalog + overrides + command_line + workflow + projects
        + users);
    lemma_turn_by_turn(first, catalog, overrides, command_line, workflow, projects, users);
}

/// The command line reaches the settings: a run with overrides from there has one more
/// step than the same run without them, and that step holds them. The same is true of
/// the run overrides and of the settings of the workflow.
pub proof fn overrides_make_a_difference(run: NormalizedRun, layer: Json, settings: SettingsLayer)
    ensures
        layer_steps(NormalizedRun { cli_overrides: Some(layer), ..run }).contains(
            LayerStep::CliOverrides(layer),
        ),
        layer_steps(NormalizedRun { cli_overrides: Some(layer), ..run }).len() == layer_steps(
            NormalizedRun { cli_overrides: None, ..run },
        ).len() + 1,
        layer_steps(NormalizedRun { run_overrides: Some(layer), ..run }).contains(
            LayerStep::RunOverrides(layer),
        ),
        layer_steps(NormalizedRun { run_overrides: Some(layer), ..run }).len() == layer_steps(
            NormalizedRun { run_overrides: None, ..run },
        ).len() + 1,
        layer_steps(NormalizedRun { workflow_layer: Some(settings), ..run }).contains(
            LayerStep::Workflow(settings),
        ),
        layer_steps(NormalizedRun { workflow_layer: Some(settings), ..run }).len() == layer_steps(
            NormalizedRun { workflow_layer: None, ..run },
        ).len() + 1,
{
    let before = if run.run_overrides is Some {
        3int
    } else {
        2int
    };
    let later = before + (if run.cli_overrides is Some {
        1int
    } else {
        0int
    });
    assert(layer_steps(NormalizedRun { cli_overrides: Some(layer), ..run })[before]
        == LayerStep::CliOverrides(layer));
    assert(layer_steps(NormalizedRun { run_overrides: Some(layer), ..run })[2]
        == LayerStep::RunOverrides(layer));
    assert(layer_steps(NormalizedRun { workflow_layer: Some(settings), ..run })[later]
        == LayerStep::Workflow(settings));
}

/// What was submitted with a run outlives the layering of its settings: the goal that
/// was submitted is the goal, and without one the goal of the settings stays; nothing
/// else of the settings is touched but the inputs.
pub proof fn a_submitted_goal_wins(
    run: NormalizedRun,
    pending: LayeringRun,
    built: WorkflowSettings,
    layered: LayeredRun,
)
    requires
        set_aside(run, pending),
        layers(pending, built, layered),
    ensures
        run.inline_goal_override matches Some(goal) ==> layered.settings.goal == Some(
            RunGoal::Inline(goal),
        ),
        run.inline_goal_override is None ==> layered.settings.goal == built.goal,
        forall|name: Seq<char>|
            run.input_overrides@.dom().contains(name) ==> #[trigger] layered.settings.inputs@[name]
                == run.input_overrides@[name],
        forall|name: Seq<char>|
            run.input_overrides@.dom().contains(name) || built.inputs@.dom().contains(name)
                <==> #[trigger] layered.settings.inputs@.dom().contains(name),
        layered.settings.artifacts_include == built.artifacts_include,
        layered.settings.body == built.body,
        layered.workflow_bundle == run.workflow_bundle,
        layered.entrypoint == run.entrypoint,
        layered.workflow == run.workflow,
        layered.cwd == run.cwd,
        layered.vars == run.vars,
        layered.configured_providers == run.configured_providers,
        layered.metadata == run.metadata,
{
}

/// What is persisted is what was submitted: the whole metadata of the run is there, and
/// nothing says that the run was forked.
pub proof fn the_metadata_is_persisted_whole<T>(
    ready: PersistenceReadyRun<T>,
    fresh: RunId,
    output: RunCompilerOutput<T>,
)
    requires
        assembles(ready, fresh, output),
    ensures
        output.start() == ready.entrypoint,
        output.input().materialized == ready.stage,
        output.input().storage_root == ready.metadata.storage_root,
        output.input().workflow_slug == ready.metadata.workflow_slug,
        output.input().submitted_manifest_bytes == ready.metadata.submitted_manifest_bytes,
        output.input().title == ready.metadata.title,
        output.input().automation == ready.metadata.automation,
        output.input().git == ready.metadata.git,
        output.input().fork_source_ref is None,
        output.input().parent_id == ready.metadata.parent_id,
        output.input().provenance == ready.metadata.provenance,
        output.input().web_url == ready.metadata.web_url,
        ready.metadata.run_id matches Some(id) ==> output.input().run_id == id,
        ready.metadata.run_id is None ==> output.input().run_id == fresh,
{
}

/// An error that the submitter can do something about keeps its kind and its cause, and
/// every other error is an internal one with its cause.
pub proof fn workflow_errors_keep_their_kind(error: WorkflowError, r: RunCompilerError)
    requires
        classified(error, r),
    ensures
        r is ModelSelection <==> error is ModelSelection,
        r is ModelReference <==> error is ModelReference,
        r is ValidationOrParse <==> error is Parse || error is ValidationFailed,
        r is Internal <==> error is Engine || error is Other,
        error matches WorkflowError::ModelSelection(cause) ==> r
            == (RunCompilerError::ModelSelection { source: cause }),
        error matches WorkflowError::ModelReference(cause) ==> r
            == (RunCompilerError::ModelReference { source: cause }),
        r matches RunCompilerError::ValidationOrParse { source } ==> source == error,
        r matches RunCompilerError::Internal { source, .. } ==> source == error,
{
}

// ---- The stages one after the other ----

/// A run goes through all stages with what was submitted for it: the compiler of the graph
/// gets the workflow, the settings, the variables, the directory and the providers, and
/// what is persisted is what was materialized, under the id that was resolved, with every
/// piece of metadata.
pub proof fn runs_reach_persistence_whole<G, M>(
    run: NormalizedRun,
    steps: (Vec<LayerStep>, LayeringRun),
    built: WorkflowSettings,
    layered: LayeredRun,
    substituted: WorkflowSettings,
    prepared: PreparedRun,
    fresh: RunId,
    resolved: (PreparedRun, RunId),
    waiting: StagedRun<CreateRunCompileInput>,
    graph: G,
    compiled: StagedRun<G>,
    materialized: M,
    ready: StagedRun<M>,
    later: RunId,
    output: RunCompilerOutput<M>,
    parts: (CreateRunPersistenceInput<M>, String),
)
    requires
        call_ensures(layer_settings, (run,), steps),
        call_ensures(
            finish_layering,
            (steps.1, Ok::<WorkflowSettings, LayeringFault>(built)),
            Ok::<LayeredRun, RunCompilerError>(layered),
        ),
        call_ensures(
            apply_run_variables,
            (layered, Ok::<WorkflowSettings, String>(substituted)),
            Ok::<PreparedRun, RunCompilerError>(prepared),
        ),
        call_ensures(PreparedRun::resolve_run_id, (prepared, fresh), resolved),
        call_ensures(compile_graph, (resolved.0,), waiting),
        call_ensures(
            after_graph_stage::<CreateRunCompileInput, G>,
            (waiting, TaskEnd::Done(graph)),
            Ok::<StagedRun<G>, RunCompilerError>(compiled),
        ),
        call_ensures(
            after_graph_stage::<G, M>,
            (compiled, TaskEnd::Done(materialized)),
            Ok::<StagedRun<M>, RunCompilerError>(ready),
        ),
        call_ensures(assemble_run::<M>, (ready, later), output),
        call_ensures(RunCompilerOutput::<M>::into_parts, (output,), parts),
    ensures
        waiting.stage.workflow == run.workflow,
        waiting.stage.settings == substituted,
        waiting.stage.vars == run.vars,
        waiting.stage.cwd == run.cwd,
        waiting.stage.workflow_path == Some(run.entrypoint),
        waiting.stage.workflow_bundle == Some(run.workflow_bundle),
        waiting.stage.configured_providers == run.configured_providers,
        run.metadata.run_id matches Some(id) ==> resolved.1 == id,
        run.metadata.run_id is None ==> resolved.1 == fresh,
        parts.1 == run.entrypoint,
        parts.0.materialized == materialized,
        parts.0.run_id == resolved.1,
        parts.0.storage_root == run.metadata.storage_root,
        parts.0.workflow_slug == run.metadata.workflow_slug,
        parts.0.submitted_manifest_bytes == run.metadata.submitted_manifest_bytes,
        parts.0.title == run.metadata.title,
        parts.0.automation == run.metadata.automation,
        parts.0.git == run.metadata.git,
        parts.0.fork_source_ref is None,
        parts.0.parent_id == run.metadata.parent_id,
        parts.0.provenance == run.metadata.provenance,
        parts.0.web_url == run.metadata.web_url,
{
}

/// The settings of a run are what was built, with the submitted inputs and the submitted
/// goal in place of those that were there; what could not be built is reported by who was
/// at fault.
pub proof fn built_settings_are_completed(
    pending: LayeringRun,
    built: Result<WorkflowSettings, LayeringFault>,
    r: Result<LayeredRun, RunCompilerError>,
    name: Seq<char>,
)
    requires
        call_ensures(finish_layering, (pending, built), r),
    ensures
        built is Ok <==> r is Ok,
        built matches Ok(settings) ==> {
            let after = r->Ok_0.settings;
            &&& after.body == settings.body
            &&& after.artifacts_include == settings.artifacts_include
            &&& pending.inline_goal_override matches Some(goal) ==> after.goal == Some(
                RunGoal::Inline(goal),
            )
            &&& pending.inline_goal_override is None ==> after.goal == settings.goal
            &&& pending.input_overrides@.dom().contains(name) ==> after.inputs@.dom().contains(name)
                && after.inputs@[name] == pending.input_overrides@[name]
            &&& !pending.input_overrides@.dom().contains(name) ==> {
                &&& after.inputs@.dom().contains(name) <==> settings.inputs@.dom().contains(name)
                &&& settings.inputs@.dom().contains(name) ==> after.inputs@[name]
                    == settings.inputs@[name]
            }
        },
        built matches Err(LayeringFault::User(fault)) ==> r == Err::<LayeredRun, RunCompilerError>(
            RunCompilerError::InvalidSettings {
                source: InvalidSettingsError::User { source: fault },
            },
        ),
        built matches Err(LayeringFault::Resolve(fault)) ==> r == Err::<
            LayeredRun,
            RunCompilerError,
        >(
            RunCompilerError::InvalidSettings {
                source: InvalidSettingsError::Resolve { source: fault },
            },
        ),
{
}

/// A run is prepared exactly if its variables could be substituted and every pattern for
/// its artifacts is a glob; the first pattern that is none is reported with its place.
pub proof fn every_pattern_must_be_a_glob(
    layered: LayeredRun,
    substituted: Result<WorkflowSettings, String>,
    r: Result<PreparedRun, RunCompilerError>,
    i: int,
)
    requires
        call_ensures(apply_run_variables, (layered, substituted), r),
    ensures
        substituted matches Err(fault) ==> r == Err::<PreparedRun, RunCompilerError>(
            RunCompilerError::VariableInterpolation {
                source: VariableInterpolationError::Interpolation(fault),
            },
        ),
        substituted matches Ok(settings) ==> {
            let patterns = settings.artifacts_include@;
            &&& (forall|j: int| 0 <= j < patterns.len() ==> (#[trigger] patterns[j]).fault is None)
                ==> (r matches Ok(prepared) && prepared.settings == settings && prepared.vars
                == layered.vars && prepared.metadata == layered.metadata && prepared.workflow
                == layered.workflow)
            &&& 0 <= i < patterns.len() && patterns[i].fault is Some && (forall|j: int|
                0 <= j < i ==> (#[trigger] patterns[j]).fault is None) ==> (r matches Err(
                RunCompilerError::VariableInterpolation {
                    source: VariableInterpolationError::ArtifactGlob { index, source: fault },
                },
            ) && index == i && patterns[i].fault == Some(fault))
        },
{
    if let Ok(settings) = substituted {
        let patterns = settings.artifacts_include@;
        if let Err(
            RunCompilerError::VariableInterpolation {
                source: VariableInterpolationError::ArtifactGlob { index, source },
            },
        ) = r {
            if 0 <= i < index {
                assert(patterns[i].fault is None);
            }
            assert(patterns[index as int].fault is Some);
        }
    }
}

/// A stage of the graph that went wrong ends the compilation: a refusal is reported by its
/// kind, and a task that crashed as an internal failure with its message.
pub proof fn failed_stages_end_the_compilation<S, T>(
    waiting: StagedRun<S>,
    end: TaskEnd<T>,
    r: Result<StagedRun<T>, RunCompilerError>,
)
    requires
        call_ensures(after_graph_stage::<S, T>, (waiting, end), r),
    ensures
        end is Done <==> r is Ok,
        end matches TaskEnd::Done(stage) ==> r->Ok_0.stage == stage && r->Ok_0.entrypoint
            == waiting.entrypoint && r->Ok_0.metadata == waiting.metadata,
        end matches TaskEnd::Crashed(message) ==> (r->Err_0 matches RunCompilerError::Internal {
            context,
            source,
        } && context@ == "workflow compilation failed"@ && (source matches WorkflowError::Engine {
            message: text,
            source: reason,
        } && text@ == "workflow create task failed"@ && reason == message)),
        end matches TaskEnd::Refused(WorkflowError::ModelSelection(text)) ==> r->Err_0 == (
        RunCompilerError::ModelSelection { source: text }),
        end matches TaskEnd::Refused(WorkflowError::ModelReference(ambiguity)) ==> r->Err_0 == (
        RunCompilerError::ModelReference { source: ambiguity }),
        end matches TaskEnd::Refused(cause) ==> (cause is Parse || cause is ValidationFailed
            ==> r->Err_0 == (RunCompilerError::ValidationOrParse { source: cause })),
        end matches TaskEnd::Refused(cause) ==> (cause is Engine || cause is Other ==> (
        r->Err_0 matches RunCompilerError::Internal { context, source } && source == cause
            && context@ == "workflow compilation failed"@)),
{
}

/// The variables, the web address and the providers of a run can be replaced one by one,
/// and nothing else of it changes.
pub proof fn runs_change_one_thing_at_a_time(
    layered: LayeredRun,
    vars: TextMap<String>,
    with_vars: LayeredRun,
    prepared: PreparedRun,
    web_url: Option<String>,
    with_url: PreparedRun,
    providers: Vec<String>,
    with_providers: PreparedRun,
    settings: &WorkflowSettings,
    parent: Option<RunId>,
)
    requires
        call_ensures(LayeredRun::with_vars, (layered, vars), with_vars),
        call_ensures(PreparedRun::with_web_url, (prepared, web_url), with_url),
        call_ensures(PreparedRun::with_configured_providers, (prepared, providers), with_providers),
        call_ensures(PreparedRun::settings, (&prepared,), settings),
        call_ensures(PreparedRun::parent_id, (&prepared,), parent),
    ensures
        with_vars.vars == vars,
        with_vars.settings == layered.settings,
        with_vars.metadata == layered.metadata,
        with_vars.workflow == layered.workflow,
        with_vars.configured_providers == layered.configured_providers,
        with_url.metadata.web_url == web_url,
        with_url.metadata.run_id == prepared.metadata.run_id,
        with_url.metadata.title == prepared.metadata.title,
        with_url.metadata.parent_id == prepared.metadata.parent_id,
        with_url.settings == prepared.settings,
        with_url.vars == prepared.vars,
        with_providers.configured_providers == providers,
        with_providers.metadata == prepared.metadata,
        with_providers.settings == prepared.settings,
        with_providers.vars == prepared.vars,
        *settings == prepared.settings,
        parent == prepared.metadata.parent_id,
{
}

/// What is handed to the builder of the settings is every source of them, each in its turn,
/// and what waits for it is the rest of the run.
pub proof fn the_builder_gets_every_source(
    run: NormalizedRun,
    r: (Vec<LayerStep>, LayeringRun),
    i: int,
)
    requires
        call_ensures(layer_settings, (run,), r),
    ensures
        in_turn(r.0@),
        r.0@.contains(
            LayerStep::ServerDefaults {
                run: run.server_run_defaults,
                environments: run.server_environment_defaults,
            },
        ),
        r.0@.contains(LayerStep::McpCatalog(run.server_mcp_catalog)),
        run.run_overrides matches Some(layer) ==> r.0@.contains(LayerStep::RunOverrides(layer)),
        run.cli_overrides matches Some(layer) ==> r.0@.contains(LayerStep::CliOverrides(layer)),
        run.workflow_layer matches Some(layer) ==> r.0@.contains(LayerStep::Workflow(layer)),
        0 <= i < run.project_layers@.len() ==> r.0@.contains(
            LayerStep::Project(run.project_layers@[i]),
        ),
        0 <= i < run.user_toml@.len() ==> r.0@.contains(LayerStep::User(run.user_toml@[i])),
        r.1.input_overrides == run.input_overrides,
        r.1.inline_goal_override == run.inline_goal_override,
        r.1.workflow == run.workflow,
        r.1.metadata == run.metadata,
{
    every_source_of_settings_reaches_the_builder(run);
    let steps = r.0@;
    lemma_part_of_turn(
        steps,
        0,
        LayerStep::ServerDefaults {
            run: run.server_run_defaults,
            environments: run.server_environment_defaults,
        },
        0,
    );
    lemma_part_of_turn(steps, 1, LayerStep::McpCatalog(run.server_mcp_catalog), 0);
    if let Some(layer) = run.run_overrides {
        lemma_part_of_turn(steps, 2, LayerStep::RunOverrides(layer), 0);
    }
    if let Some(layer) = run.cli_overrides {
        lemma_part_of_turn(steps, 3, LayerStep::CliOverrides(layer), 0);
    }
    if let Some(layer) = run.workflow_layer {
        lemma_part_of_turn(steps, 4, LayerStep::Workflow(layer), 0);
    }
    if 0 <= i < run.project_layers@.len() {
        lemma_part_of_turn(steps, 5, LayerStep::Project(run.project_layers@[i]), i);
    }
    if 0 <= i < run.user_toml@.len() {
        lemma_part_of_turn(steps, 6, LayerStep::User(run.user_toml@[i]), i);
    }
}

proof fn lemma_part_of_turn(steps: Seq<LayerStep>, n: int, step: LayerStep, i: int)
    requires
        0 <= i < of_turn(steps, n).len(),
        of_turn(steps, n)[i] == step,
    ensures
        steps.contains(step),
{
    assert(of_turn(steps, n).contains(step));
    steps.lemma_filter_contains_rev(|s: LayerStep| turn(s) == n, step);
}

} // verus!
