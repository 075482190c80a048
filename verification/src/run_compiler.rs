//! Compiling a submitted run: its source is normalized, its settings are layered, its
//! variables applied, its graph compiled and materialized, and the input for
//! persistence put together.
//!
//! Parsing settings, building them from their layers and compiling the graph is work
//! for the caller; each stage here takes what that work gave and decides how the
//! run goes on. Settings and metadata that no decision reads are carried as JSON.

use vstd::prelude::*;
use vstd::string::*;

use crate::json::Json;
use crate::model_ref::{ambiguity_message, AmbiguousModelRef};
use crate::text::{debug_quoted, decimal, decimal_text, quoted};
use crate::text_map::TextMap;

verus! {

/// The id of a run.
pub type RunId = u128;

// ---- Settings and sources ----

/// Where the Dockerfile of an environment comes from.
#[derive(Debug, PartialEq, Eq)]
pub enum Dockerfile {
    /// Its text.
    Inline(String),
    /// A reference, and the path in the bundle that it stands for next to the settings
    /// it was found in, if it stands for one: see `dockerfile_lookups` and
    /// `place_references`.
    Path { reference: String, resolved: Option<String> },
}

/// The settings of a named environment.
#[derive(Debug, PartialEq, Eq)]
pub struct EnvironmentLayer {
    pub name: String,
    pub dockerfile: Option<Dockerfile>,
}

/// One layer of settings.
#[derive(Debug, PartialEq, Eq)]
pub struct SettingsLayer {
    pub environments: Vec<EnvironmentLayer>,
    pub run_dockerfile: Option<Dockerfile>,
    pub body: Json,
}

/// The settings file of a bundled workflow.
#[derive(Debug, PartialEq, Eq)]
pub struct ParsedWorkflowConfig {
    pub path: String,
    pub source: String,
}

/// A workflow of a bundle with the files that came with it.
#[derive(Debug, PartialEq, Eq)]
pub struct BundledWorkflow {
    pub path: String,
    pub source: String,
    pub config: Option<ParsedWorkflowConfig>,
    pub files: TextMap<String>,
}

/// One project settings source and what parsing it gave.
#[derive(Debug, PartialEq, Eq)]
pub struct ProjectSettingsSource {
    pub path: String,
    pub toml: String,
    pub layer: Result<SettingsLayer, String>,
}

/// The automation that submitted a run.
#[derive(Debug, PartialEq, Eq)]
pub struct AutomationRef {
    pub id: String,
    pub name: Option<String>,
    pub trigger_id: Option<String>,
}

/// What is known of a run besides its workflow and its settings.
#[derive(Debug, PartialEq, Eq)]
pub struct RunMetadata {
    pub run_id: Option<RunId>,
    pub title: Option<String>,
    pub parent_id: Option<RunId>,
    pub git: Option<Json>,
    pub storage_root: String,
    pub workflow_slug: Option<String>,
    pub provenance: Json,
    pub web_url: Option<String>,
    pub submitted_manifest_bytes: Option<Vec<u8>>,
    pub automation: Option<AutomationRef>,
}

/// What compiling one submitted run starts from.
#[derive(Debug, PartialEq, Eq)]
pub struct RawRunCompilerInput {
    pub workflow_bundle: TextMap<BundledWorkflow>,
    pub entrypoint: String,
    pub cwd: String,
    pub server_run_defaults: Json,
    pub server_environment_defaults: Json,
    pub server_mcp_catalog: Json,
    pub project_settings: Vec<ProjectSettingsSource>,
    pub user_toml: Vec<String>,
    pub run_overrides: Option<Json>,
    pub cli_overrides: Option<Json>,
    pub input_overrides: TextMap<Json>,
    pub inline_goal_override: Option<String>,
    pub vars: TextMap<String>,
    pub configured_providers: Vec<String>,
    pub metadata: RunMetadata,
}

/// A run whose workflow has been selected and whose settings sources have been parsed,
/// but not layered.
#[derive(Debug, PartialEq, Eq)]
pub struct NormalizedRun {
    pub workflow_bundle: TextMap<BundledWorkflow>,
    pub entrypoint: String,
    pub workflow: BundledWorkflow,
    pub workflow_layer: Option<SettingsLayer>,
    pub project_layers: Vec<SettingsLayer>,
    pub user_toml: Vec<String>,
    pub cwd: String,
    pub server_run_defaults: Json,
    pub server_environment_defaults: Json,
    pub server_mcp_catalog: Json,
    pub run_overrides: Option<Json>,
    pub cli_overrides: Option<Json>,
    pub input_overrides: TextMap<Json>,
    pub inline_goal_override: Option<String>,
    pub vars: TextMap<String>,
    pub configured_providers: Vec<String>,
    pub metadata: RunMetadata,
}

/// What is wrong with the source of a run.
#[derive(Debug, PartialEq, Eq)]
pub enum InvalidSourceError {
    MissingEntrypoint { entrypoint: String },
    UnsupportedDockerfileReference { config_path: String, reference: String },
    MissingDockerfile { config_path: String, dockerfile_path: String },
}

/// Which of the settings sources a layer comes from.
#[derive(Debug, Clone, Copy, PartialEq, Eq, Structural)]
pub enum SettingsKind {
    Workflow,
    Project,
}

/// What is wrong with the settings of a run.
#[derive(Debug, PartialEq, Eq)]
pub enum InvalidSettingsError {
    Parse { kind: SettingsKind, path: String, source: String },
    User { source: String },
    Resolve { source: String },
}

/// What is wrong with the variables of a run.
#[derive(Debug, PartialEq, Eq)]
pub enum VariableInterpolationError {
    Interpolation(String),
    ArtifactGlob { index: usize, source: String },
}

/// Why the workflow engine refused a run.
#[derive(Debug, PartialEq, Eq)]
pub enum WorkflowError {
    ModelSelection(String),
    ModelReference(AmbiguousModelRef),
    Parse(String),
    ValidationFailed(String),
    /// The engine failed, for the reason `source`.
    Engine { message: String, source: String },
    Other(String),
}

/// Why a run could not be compiled.
#[allow(inconsistent_fields)]
#[derive(Debug, PartialEq, Eq)]
pub enum RunCompilerError {
    InvalidSource { source: InvalidSourceError },
    InvalidSettings { source: InvalidSettingsError },
    VariableInterpolation { source: VariableInterpolationError },
    ValidationOrParse { source: WorkflowError },
    ModelSelection { source: String },
    ModelReference { source: AmbiguousModelRef },
    Internal { context: String, source: WorkflowError },
}

// ---- Messages ----

impl InvalidSourceError {
    /// The message of the error.
    pub open spec fn message(self) -> Seq<char> {
        match self {
            InvalidSourceError::MissingEntrypoint { entrypoint } => "bundle entrypoint "@
                + entrypoint@ + " is missing from the workflow bundle"@,
            InvalidSourceError::UnsupportedDockerfileReference { config_path, reference } =>
            "unsupported dockerfile reference "@ + debug_quoted(reference@) + " in "@
                + config_path@,
            InvalidSourceError::MissingDockerfile { config_path, dockerfile_path } =>
            "bundled dockerfile "@ + dockerfile_path@ + " referenced by "@ + config_path@
                + " is missing"@,
        }
    }

    /// The message of the error.
    pub fn to_string(&self) -> (r: String)
        ensures
            r@ == self.message(),
    {
        match self {
            InvalidSourceError::MissingEntrypoint { entrypoint } => {
                let mut r = "bundle entrypoint ".to_owned();
                r.append(entrypoint.as_str());
                r.append(" is missing from the workflow bundle");
                r
            },
            InvalidSourceError::UnsupportedDockerfileReference { config_path, reference } => {
                let mut r = "unsupported dockerfile reference ".to_owned();
                r.append(quoted(reference.as_str()).as_str());
                r.append(" in ");
                r.append(config_path.as_str());
                r
            },
            InvalidSourceError::MissingDockerfile { config_path, dockerfile_path } => {
                let mut r = "bundled dockerfile ".to_owned();
                r.append(dockerfile_path.as_str());
                r.append(" referenced by ");
                r.append(config_path.as_str());
                r.append(" is missing");
                r
            },
        }
    }
}

impl SettingsKind {
    /// The word for the source.
    pub open spec fn word(self) -> Seq<char> {
        match self {
            SettingsKind::Workflow => "workflow"@,
            SettingsKind::Project => "project"@,
        }
    }

    /// The word for the source.
    pub fn as_str(&self) -> (r: &'static str)
        ensures
            r@ == self.word(),
    {
        match self {
            SettingsKind::Workflow => "workflow",
            SettingsKind::Project => "project",
        }
    }
}

impl InvalidSettingsError {
    /// The message of the error.
    pub open spec fn message(self) -> Seq<char> {
        match self {
            InvalidSettingsError::Parse { kind, path, source } => "failed to parse "@ + kind.word()
                + " settings at "@ + path@,
            InvalidSettingsError::User { source } => "failed to parse user settings: "@ + source@,
            InvalidSettingsError::Resolve { source } =>
            "failed to resolve layered workflow settings: "@ + source@,
        }
    }

    /// The message of the error.
    pub fn to_string(&self) -> (r: String)
        ensures
            r@ == self.message(),
    {
        match self {
            InvalidSettingsError::Parse { kind, path, source } => {
                let mut r = "failed to parse ".to_owned();
                r.append(kind.as_str());
                r.append(" settings at ");
                r.append(path.as_str());
                r
            },
            InvalidSettingsError::User { source } => {
                let mut r = "failed to parse user settings: ".to_owned();
                r.append(source.as_str());
                r
            },
            InvalidSettingsError::Resolve { source } => {
                let mut r = "failed to resolve layered workflow settings: ".to_owned();
                r.append(source.as_str());
                r
            },
        }
    }
}

impl VariableInterpolationError {
    /// The message of the error.
    pub open spec fn message(self) -> Seq<char> {
        match self {
            VariableInterpolationError::Interpolation(source) => source@,
            VariableInterpolationError::ArtifactGlob { index, source } =>
            "run.artifacts.include["@ + decimal(index as nat) + "]: "@ + source@,
        }
    }

    /// The message of the error.
    pub fn to_string(&self) -> (r: String)
        ensures
            r@ == self.message(),
    {
        match self {
            VariableInterpolationError::Interpolation(source) => source.clone(),
            VariableInterpolationError::ArtifactGlob { index, source } => {
                let mut r = "run.artifacts.include[".to_owned();
                r.append(decimal_text(*index as u64).as_str());
                r.append("]: ");
                r.append(source.as_str());
                r
            },
        }
    }
}

impl WorkflowError {
    /// The message of the error.
    pub open spec fn message(self) -> Seq<char> {
        match self {
            WorkflowError::ModelSelection(text) => text@,
            WorkflowError::ModelReference(ambiguity) => ambiguity_message(ambiguity),
            WorkflowError::Parse(text) => text@,
            WorkflowError::ValidationFailed(text) => text@,
            WorkflowError::Engine { message, source } => message@,
            WorkflowError::Other(text) => text@,
        }
    }

    /// The message of the error.
    pub fn to_string(&self) -> (r: String)
        ensures
            r@ == self.message(),
    {
        match self {
            WorkflowError::ModelSelection(text) => text.clone(),
            WorkflowError::ModelReference(ambiguity) => ambiguity.to_string(),
            WorkflowError::Parse(text) => text.clone(),
            WorkflowError::ValidationFailed(text) => text.clone(),
            WorkflowError::Engine { message, source } => message.clone(),
            WorkflowError::Other(text) => text.clone(),
        }
    }
}

impl RunCompilerError {
    /// The message of the error that caused this one.
    pub open spec fn cause(self) -> Seq<char> {
        match self {
            RunCompilerError::InvalidSource { source } => source.message(),
            RunCompilerError::InvalidSettings { source } => source.message(),
            RunCompilerError::VariableInterpolation { source } => source.message(),
            RunCompilerError::ValidationOrParse { source } => source.message(),
            RunCompilerError::ModelSelection { source } => source@,
            RunCompilerError::ModelReference { source } => ambiguity_message(source),
            RunCompilerError::Internal { context, source } => source.message(),
        }
    }

    /// The message of the error: it ends in that of its cause, unless the error is
    /// internal.
    pub open spec fn message(self) -> Seq<char> {
        match self {
            RunCompilerError::InvalidSource { .. } => "invalid run source: "@ + self.cause(),
            RunCompilerError::InvalidSettings { .. } => "invalid run settings: "@ + self.cause(),
            RunCompilerError::VariableInterpolation { .. } =>
            "run config variable interpolation failed: "@ + self.cause(),
            RunCompilerError::ValidationOrParse { .. } => "workflow validation or parse failed: "@
                + self.cause(),
            RunCompilerError::ModelSelection { .. } => "model selection failed: "@ + self.cause(),
            RunCompilerError::ModelReference { .. } => "model reference failed: "@ + self.cause(),
            RunCompilerError::Internal { context, source } => context@,
        }
    }

    /// The message of the error that caused this one.
    pub fn source_message(&self) -> (r: String)
        ensures
            r@ == self.cause(),
    {
        match self {
            RunCompilerError::InvalidSource { source } => source.to_string(),
            RunCompilerError::InvalidSettings { source } => source.to_string(),
            RunCompilerError::VariableInterpolation { source } => source.to_string(),
            RunCompilerError::ValidationOrParse { source } => source.to_string(),
            RunCompilerError::ModelSelection { source } => source.clone(),
            RunCompilerError::ModelReference { source } => source.to_string(),
            RunCompilerError::Internal { context, source } => source.to_string(),
        }
    }

    /// The message of the error.
    pub fn to_string(&self) -> (r: String)
        ensures
            r@ == self.message(),
    {
        let opening = match self {
            RunCompilerError::InvalidSource { .. } => "invalid run source: ",
            RunCompilerError::InvalidSettings { .. } => "invalid run settings: ",
            RunCompilerError::VariableInterpolation { .. } =>
            "run config variable interpolation failed: ",
            RunCompilerError::ValidationOrParse { .. } => "workflow validation or parse failed: ",
            RunCompilerError::ModelSelection { .. } => "model selection failed: ",
            RunCompilerError::ModelReference { .. } => "model reference failed: ",
            RunCompilerError::Internal { context, source } => {
                return context.clone();
            },
        };
        let mut r = opening.to_owned();
        r.append(self.source_message().as_str());
        r
    }
}

// ---- Stage one: the source ----

/// A reference to be resolved from the directory of the settings that it stands in, and
/// the path of those settings.
#[derive(Debug, PartialEq, Eq)]
pub struct DockerfileLookup {
    pub config_path: String,
    pub reference: String,
}

/// `r` is what is to be resolved for a Dockerfile of the settings at `config_path`: its
/// reference next to those settings, where it is one.
pub open spec fn asks(
    dockerfile: Option<Dockerfile>,
    config_path: Seq<char>,
    r: Option<DockerfileLookup>,
) -> bool {
    match dockerfile {
        Some(Dockerfile::Path { reference, .. }) => {
            r matches Some(lookup) && lookup.config_path@ == config_path
                && lookup.reference == reference
        },
        _ => r is None,
    }
}

fn dockerfile_lookup(dockerfile: &Option<Dockerfile>, config_path: &str) -> (r: Option<
    DockerfileLookup,
>)
    ensures
        asks(*dockerfile, config_path@, r),
{
    match dockerfile {
        Some(Dockerfile::Path { reference, .. }) => Some(
            DockerfileLookup {
                config_path: config_path.to_owned(),
                reference: reference.clone(),
            },
        ),
        _ => None,
    }
}

/// What is to be resolved for the Dockerfiles of a layer, in the order in which they are
/// looked up.
pub fn dockerfile_lookups(layer: &SettingsLayer, config_path: &str) -> (r: Vec<
    Option<DockerfileLookup>,
>)
    ensures
        r@.len() == dockerfiles(*layer).len(),
        forall|i: int|
            0 <= i < r@.len() ==> asks(dockerfiles(*layer)[i], config_path@, #[trigger] r@[i]),
{
    let mut r: Vec<Option<DockerfileLookup>> = Vec::new();
    let mut i: usize = 0;
    while i < layer.environments.len()
        invariant
            i <= layer.environments@.len(),
            r@.len() == i,
            forall|j: int|
                0 <= j < i ==> asks(dockerfiles(*layer)[j], config_path@, #[trigger] r@[j]),
        decreases layer.environments@.len() - i,
    {
        r.push(dockerfile_lookup(&layer.environments[i].dockerfile, config_path));
        i += 1;
    }
    r.push(dockerfile_lookup(&layer.run_dockerfile, config_path));
    r
}

/// The Dockerfile, with its reference standing for the path.
pub open spec fn standing_for(dockerfile: Option<Dockerfile>, path: Option<String>) -> Option<
    Dockerfile,
> {
    match dockerfile {
        Some(Dockerfile::Path { reference, .. }) => Some(
            Dockerfile::Path { reference, resolved: path },
        ),
        other => other,
    }
}

/// `after` is the layer with every reference standing for the path at its place, and
/// nothing else changed.
pub open spec fn references_placed(
    before: SettingsLayer,
    paths: Seq<Option<String>>,
    after: SettingsLayer,
) -> bool {
    &&& after.body == before.body
    &&& after.environments@.len() == before.environments@.len()
    &&& forall|i: int|
        #![trigger after.environments@[i]]
        0 <= i < before.environments@.len() ==> after.environments@[i].name
            == before.environments@[i].name
    &&& forall|i: int|
        0 <= i < dockerfiles(before).len() ==> #[trigger] dockerfiles(after)[i] == standing_for(
            dockerfiles(before)[i],
            paths[i],
        )
}

fn place_reference(dockerfile: Option<Dockerfile>, path: Option<String>) -> (r: Option<Dockerfile>)
    ensures
        r == standing_for(dockerfile, path),
{
    match dockerfile {
        Some(Dockerfile::Path { reference, .. }) => Some(
            Dockerfile::Path { reference, resolved: path },
        ),
        other => other,
    }
}

/// Notes in a layer what its references were resolved to: `paths` gives, for each
/// Dockerfile in the order in which they are looked up, the path that its reference
/// stands for, if it stands for one.
pub fn place_references(layer: SettingsLayer, paths: Vec<Option<String>>) -> (r: SettingsLayer)
    requires
        paths@.len() == dockerfiles(layer).len(),
    ensures
        references_placed(layer, paths@, r),
{
    let ghost all = paths@;
    let ghost named = layer.environments@;
    let ghost before = layer;
    let mut paths = paths;
    let mut rest = layer.environments;
    let mut environments: Vec<EnvironmentLayer> = Vec::new();
    while rest.len() > 0
        invariant
            before.environments@ == named,
            all.len() == named.len() + 1,
            environments@.len() + rest@.len() == named.len(),
            rest@ == named.skip(environments@.len() as int),
            paths@ == all.skip(environments@.len() as int),
            forall|i: int|
                #![trigger environments@[i]]
                0 <= i < environments@.len() ==> {
                    &&& environments@[i].name == named[i].name
                    &&& environments@[i].dockerfile == standing_for(named[i].dockerfile, all[i])
                },
        decreases rest@.len(),
    {
        let ghost at = environments@.len() as int;
        let environment = rest.remove(0);
        let path = paths.remove(0);
        proof {
            assert(environment == named[at]);
            assert(path == all[at]);
            assert(rest@ =~= named.skip(at + 1));
            assert(paths@ =~= all.skip(at + 1));
        }
        environments.push(
            EnvironmentLayer {
                name: environment.name,
                dockerfile: place_reference(environment.dockerfile, path),
            },
        );
    }
    let path = paths.remove(0);
    let r = SettingsLayer {
        environments,
        run_dockerfile: place_reference(layer.run_dockerfile, path),
        body: layer.body,
    };
    proof {
        assert forall|i: int| 0 <= i < dockerfiles(before).len() implies #[trigger] dockerfiles(r)[i]
            == standing_for(dockerfiles(before)[i], all[i]) by {
            if i < named.len() {
                assert(r.environments@[i].dockerfile == standing_for(named[i].dockerfile, all[i]));
            }
        }
    }
    r
}

/// A reference of the settings at `config_path` is looked up under the path that it
/// resolves to next to those settings: it is unsupported where it resolves
/// to none, and missing where no file is bundled under that path.
pub proof fn references_are_looked_up_next_to_their_settings(
    layer: SettingsLayer,
    config_path: String,
    lookups: Seq<Option<DockerfileLookup>>,
    resolve: spec_fn(Seq<char>, String) -> Option<String>,
    paths: Seq<Option<String>>,
    placed: SettingsLayer,
    files: Map<Seq<char>, String>,
    i: int,
)
    requires
        0 <= i < dockerfiles(layer).len(),
        lookups.len() == dockerfiles(layer).len(),
        paths.len() == dockerfiles(layer).len(),
        forall|k: int|
            0 <= k < lookups.len() ==> asks(
                dockerfiles(layer)[k],
                config_path@,
                #[trigger] lookups[k],
            ),
        forall|k: int|
            0 <= k < lookups.len() ==> (#[trigger] lookups[k] matches Some(lookup) ==> paths[k]
                == resolve(lookup.config_path@, lookup.reference)),
        references_placed(layer, paths, placed),
    ensures
        resolved_dockerfile(dockerfiles(placed)[i], config_path, files) == (match dockerfiles(
            layer,
        )[i] {
            Some(Dockerfile::Path { reference, .. }) => match resolve(config_path@, reference) {
                None => Err(
                    InvalidSourceError::UnsupportedDockerfileReference { config_path, reference },
                ),
                Some(path) => if files.dom().contains(path@) {
                    Ok(Some(Dockerfile::Inline(files[path@])))
                } else {
                    Err(InvalidSourceError::MissingDockerfile { config_path, dockerfile_path: path })
                },
            },
            other => Ok(other),
        }),
{
    assert(asks(dockerfiles(layer)[i], config_path@, lookups[i]));
    assert(dockerfiles(placed)[i] == standing_for(dockerfiles(layer)[i], paths[i]));
}

/// What a Dockerfile is once its reference has been looked up among `files`.
pub open spec fn resolved_dockerfile(
    dockerfile: Option<Dockerfile>,
    config_path: String,
    files: Map<Seq<char>, String>,
) -> Result<Option<Dockerfile>, InvalidSourceError> {
    match dockerfile {
        Some(Dockerfile::Path { reference, resolved }) => match resolved {
            None => Err(
                InvalidSourceError::UnsupportedDockerfileReference { config_path, reference },
            ),
            Some(path) => if files.dom().contains(path@) {
                Ok(Some(Dockerfile::Inline(files[path@])))
            } else {
                Err(InvalidSourceError::MissingDockerfile { config_path, dockerfile_path: path })
            },
        },
        other => Ok(other),
    }
}

/// The Dockerfiles of a layer in the order in which they are looked up: those of the
/// environments, then that of the run.
pub open spec fn dockerfiles(layer: SettingsLayer) -> Seq<Option<Dockerfile>> {
    layer.environments@.map_values(|e: EnvironmentLayer| e.dockerfile).push(layer.run_dockerfile)
}

/// The Dockerfile at `i` can be looked up.
pub open spec fn resolvable(
    all: Seq<Option<Dockerfile>>,
    i: int,
    config_path: String,
    files: Map<Seq<char>, String>,
) -> bool {
    resolved_dockerfile(all[i], config_path, files) is Ok
}

/// `after` is the layer with every Dockerfile looked up, and nothing else changed.
pub open spec fn layer_resolved(
    before: SettingsLayer,
    config_path: String,
    files: Map<Seq<char>, String>,
    after: SettingsLayer,
) -> bool {
    &&& after.body == before.body
    &&& after.environments@.len() == before.environments@.len()
    &&& forall|i: int|
        #![trigger after.environments@[i]]
        0 <= i < before.environments@.len() ==> {
            &&& after.environments@[i].name == before.environments@[i].name
            &&& Ok::<Option<Dockerfile>, InvalidSourceError>(after.environments@[i].dockerfile)
                == resolved_dockerfile(before.environments@[i].dockerfile, config_path, files)
        }
    &&& Ok::<Option<Dockerfile>, InvalidSourceError>(after.run_dockerfile) == resolved_dockerfile(
        before.run_dockerfile,
        config_path,
        files,
    )
}

/// `error` is that of the first Dockerfile of the layer that cannot be looked up.
pub open spec fn first_unresolved(
    layer: SettingsLayer,
    config_path: String,
    files: Map<Seq<char>, String>,
    error: InvalidSourceError,
) -> bool {
    exists|i: int|
        #![trigger dockerfiles(layer)[i]]
        {
            &&& 0 <= i < dockerfiles(layer).len()
            &&& resolved_dockerfile(dockerfiles(layer)[i], config_path, files) == Err::<
                Option<Dockerfile>,
                InvalidSourceError,
            >(error)
            &&& forall|j: int|
                0 <= j < i ==> #[trigger] resolvable(dockerfiles(layer), j, config_path, files)
        }
}

/// The outcome of parsing one settings source and looking up its Dockerfiles.
pub open spec fn layer_read(
    parsed: Result<SettingsLayer, String>,
    kind: SettingsKind,
    config_path: String,
    files: Map<Seq<char>, String>,
    r: Result<SettingsLayer, RunCompilerError>,
) -> bool {
    match parsed {
        Err(source) => r == Err::<SettingsLayer, RunCompilerError>(
            RunCompilerError::InvalidSettings {
                source: InvalidSettingsError::Parse { kind, path: config_path, source },
            },
        ),
        Ok(layer) => match r {
            Ok(after) => layer_resolved(layer, config_path, files, after),
            Err(RunCompilerError::InvalidSource { source }) => first_unresolved(
                layer,
                config_path,
                files,
                source,
            ),
            _ => false,
        },
    }
}

fn resolve_dockerfile(
    dockerfile: Option<Dockerfile>,
    config_path: &String,
    files: &TextMap<String>,
) -> (r: Result<Option<Dockerfile>, InvalidSourceError>)
    ensures
        r == resolved_dockerfile(dockerfile, *config_path, files@),
{
    match dockerfile {
        Some(Dockerfile::Path { reference, resolved }) => match resolved {
            None => Err(
                InvalidSourceError::UnsupportedDockerfileReference {
                    config_path: config_path.clone(),
                    reference,
                },
            ),
            Some(path) => match files.get(path.as_str()) {
                Some(content) => Ok(Some(Dockerfile::Inline(content.clone()))),
                None => Err(
                    InvalidSourceError::MissingDockerfile {
                        config_path: config_path.clone(),
                        dockerfile_path: path,
                    },
                ),
            },
        },
        other => Ok(other),
    }
}

fn resolve_dockerfiles(
    layer: SettingsLayer,
    config_path: &String,
    files: &TextMap<String>,
) -> (r: Result<SettingsLayer, InvalidSourceError>)
    ensures
        match r {
            Ok(after) => layer_resolved(layer, *config_path, files@, after),
            Err(error) => first_unresolved(layer, *config_path, files@, error),
        },
{
    let ghost whole = layer;
    let ghost all = dockerfiles(layer);
    let ghost named = layer.environments@;
    let mut rest = layer.environments;
    let mut environments: Vec<EnvironmentLayer> = Vec::new();
    while rest.len() > 0
        invariant
            whole == layer,
            whole.environments@ == named,
            all == dockerfiles(whole),
            environments@.len() + rest@.len() == named.len(),
            rest@ == named.skip(environments@.len() as int),
            forall|i: int|
                #![trigger environments@[i]]
                0 <= i < environments@.len() ==> {
                    &&& environments@[i].name == named[i].name
                    &&& Ok::<Option<Dockerfile>, InvalidSourceError>(environments@[i].dockerfile)
                        == resolved_dockerfile(named[i].dockerfile, *config_path, files@)
                },
            forall|j: int|
                0 <= j < environments@.len() ==> #[trigger] resolvable(all, j, *config_path, files@),
        decreases rest@.len(),
    {
        let ghost at = environments@.len() as int;
        let environment = rest.remove(0);
        proof {
            assert(environment == named[at]);
            assert(all[at] == environment.dockerfile);
            assert(rest@ =~= named.skip(at + 1));
        }
        match resolve_dockerfile(environment.dockerfile, config_path, files) {
            Ok(dockerfile) => {
                proof {
                    assert(resolvable(all, at, *config_path, files@));
                }
                environments.push(EnvironmentLayer { name: environment.name, dockerfile });
            },
            Err(error) => {
                return Err(error);
            },
        }
    }
    proof {
        assert(all[named.len() as int] == whole.run_dockerfile);
    }
    match resolve_dockerfile(layer.run_dockerfile, config_path, files) {
        Ok(run_dockerfile) => Ok(SettingsLayer { environments, run_dockerfile, body: layer.body }),
        Err(error) => Err(error),
    }
}

fn parse_settings_layer(
    parsed: Result<SettingsLayer, String>,
    config_path: &String,
    files: &TextMap<String>,
    kind: SettingsKind,
) -> (r: Result<SettingsLayer, RunCompilerError>)
    ensures
        layer_read(parsed, kind, *config_path, files@, r),
{
    match parsed {
        Err(source) => Err(
            RunCompilerError::InvalidSettings {
                source: InvalidSettingsError::Parse { kind, path: config_path.clone(), source },
            },
        ),
        Ok(layer) => match resolve_dockerfiles(layer, config_path, files) {
            Ok(after) => Ok(after),
            Err(source) => Err(RunCompilerError::InvalidSource { source }),
        },
    }
}

/// The workflow of the bundle that the run starts from.
pub open spec fn selected(input: RawRunCompilerInput) -> Option<BundledWorkflow> {
    if input.workflow_bundle@.dom().contains(input.entrypoint@) {
        Some(input.workflow_bundle@[input.entrypoint@])
    } else {
        None
    }
}

/// The workflow settings are read with the outcome `r`, where the workflow has any.
pub open spec fn workflow_layer_read(
    workflow: BundledWorkflow,
    parsed: Result<SettingsLayer, String>,
    r: Result<Option<SettingsLayer>, RunCompilerError>,
) -> bool {
    match workflow.config {
        None => r == Ok::<Option<SettingsLayer>, RunCompilerError>(None),
        Some(config) => match r {
            Ok(Some(layer)) => layer_read(
                parsed,
                SettingsKind::Workflow,
                config.path,
                workflow.files@,
                Ok(layer),
            ),
            Ok(None) => false,
            Err(error) => layer_read(
                parsed,
                SettingsKind::Workflow,
                config.path,
                workflow.files@,
                Err(error),
            ),
        },
    }
}

/// The project settings source at `i` is read with the outcome `r`.
pub open spec fn project_layer_read(
    sources: Seq<ProjectSettingsSource>,
    i: int,
    files: Map<Seq<char>, String>,
    r: Result<SettingsLayer, RunCompilerError>,
) -> bool {
    layer_read(sources[i].layer, SettingsKind::Project, sources[i].path, files, r)
}

/// The project settings source at `i` can be read.
pub open spec fn project_layer_readable(
    sources: Seq<ProjectSettingsSource>,
    i: int,
    files: Map<Seq<char>, String>,
) -> bool {
    exists|layer: SettingsLayer| #[trigger] project_layer_read(sources, i, files, Ok(layer))
}

/// What normalizing a run keeps as it is.
pub open spec fn carried(input: RawRunCompilerInput, run: NormalizedRun) -> bool {
    &&& run.workflow_bundle == input.workflow_bundle
    &&& run.entrypoint == input.entrypoint
    &&& run.user_toml == input.user_toml
    &&& run.cwd == input.cwd
    &&& run.server_run_defaults == input.server_run_defaults
    &&& run.server_environment_defaults == input.server_environment_defaults
    &&& run.server_mcp_catalog == input.server_mcp_catalog
    &&& run.run_overrides == input.run_overrides
    &&& run.cli_overrides == input.cli_overrides
    &&& run.input_overrides == input.input_overrides
    &&& run.inline_goal_override == input.inline_goal_override
    &&& run.vars == input.vars
    &&& run.configured_providers == input.configured_providers
    &&& run.metadata == input.metadata
}

/// The workflow of a normalized run is the selected one, under the path that the run
/// starts from.
pub open spec fn workflow_of(
    workflow: BundledWorkflow,
    found: BundledWorkflow,
    entrypoint: String,
) -> bool {
    &&& workflow.path == entrypoint
    &&& workflow.source == found.source
    &&& workflow.config == found.config
    &&& workflow.files@ == found.files@
    &&& workflow.files.listed() == found.files.listed()
}

/// Normalizing gives the run: the workflow is there and every settings source is read.
pub open spec fn normalizes(
    input: RawRunCompilerInput,
    workflow_settings: Result<SettingsLayer, String>,
    run: NormalizedRun,
) -> bool {
    &&& carried(input, run)
    &&& selected(input) matches Some(found) && {
        &&& workflow_of(run.workflow, found, input.entrypoint)
        &&& workflow_layer_read(found, workflow_settings, Ok(run.workflow_layer))
        &&& run.project_layers@.len() == input.project_settings@.len()
        &&& forall|i: int|
            #![trigger run.project_layers@[i]]
            0 <= i < run.project_layers@.len() ==> project_layer_read(
                input.project_settings@,
                i,
                found.files@,
                Ok(run.project_layers@[i]),
            )
    }
}

/// Normalizing fails: the workflow is missing, or else its settings fail, or else the
/// first project settings source fails that does.
pub open spec fn fails_to_normalize(
    input: RawRunCompilerInput,
    workflow_settings: Result<SettingsLayer, String>,
    error: RunCompilerError,
) -> bool {
    match selected(input) {
        None => error == (RunCompilerError::InvalidSource {
            source: InvalidSourceError::MissingEntrypoint { entrypoint: input.entrypoint },
        }),
        Some(found) => {
            ||| workflow_layer_read(found, workflow_settings, Err(error))
            ||| {
                &&& exists|layer: Option<SettingsLayer>| #[trigger]
                    workflow_layer_read(found, workflow_settings, Ok(layer))
                &&& exists|i: int|
                    0 <= i < input.project_settings@.len() && #[trigger] project_layer_read(
                        input.project_settings@,
                        i,
                        found.files@,
                        Err(error),
                    ) && forall|j: int|
                        0 <= j < i ==> #[trigger] project_layer_readable(
                            input.project_settings@,
                            j,
                            found.files@,
                        )
            }
        },
    }
}

/// Normalizes the bundle entrypoint and the settings sources. `workflow_settings` is
/// what parsing the settings file of the entrypoint's workflow gave; it is not looked
/// at where that workflow has none.
pub fn normalize_source(
    input: RawRunCompilerInput,
    workflow_settings: Result<SettingsLayer, String>,
) -> (r: Result<NormalizedRun, RunCompilerError>)
    ensures
        match r {
            Ok(run) => normalizes(input, workflow_settings, run),
            Err(error) => fails_to_normalize(input, workflow_settings, error),
        },
{
    let ghost whole = input;
    let workflow = match input.workflow_bundle.get(input.entrypoint.as_str()) {
        None => {
            return Err(
                RunCompilerError::InvalidSource {
                    source: InvalidSourceError::MissingEntrypoint { entrypoint: input.entrypoint },
                },
            );
        },
        Some(found) => BundledWorkflow {
            path: input.entrypoint.clone(),
            source: found.source.clone(),
            config: match &found.config {
                Some(config) => Some(
                    ParsedWorkflowConfig {
                        path: config.path.clone(),
                        source: config.source.clone(),
                    },
                ),
                None => None,
            },
            files: found.files.copied(),
        },
    };
    let ghost found = selected(input)->0;
    let workflow_layer = match &workflow.config {
        None => None,
        Some(config) => match parse_settings_layer(
            workflow_settings,
            &config.path,
            &workflow.files,
            SettingsKind::Workflow,
        ) {
            Ok(layer) => Some(layer),
            Err(error) => {
                return Err(error);
            },
        },
    };
    proof {
        assert(workflow_layer_read(found, workflow_settings, Ok(workflow_layer)));
    }
    let ghost sources = input.project_settings@;
    let mut rest = input.project_settings;
    let mut project_layers: Vec<SettingsLayer> = Vec::new();
    while rest.len() > 0
        invariant
            whole == input,
            sources == whole.project_settings@,
            selected(whole) == Some(found),
            workflow_layer_read(found, workflow_settings, Ok(workflow_layer)),
            workflow.files@ == found.files@,
            project_layers@.len() + rest@.len() == sources.len(),
            rest@ == sources.skip(project_layers@.len() as int),
            forall|i: int|
                #![trigger project_layers@[i]]
                0 <= i < project_layers@.len() ==> project_layer_read(
                    sources,
                    i,
                    found.files@,
                    Ok(project_layers@[i]),
                ),
            forall|j: int|
                0 <= j < project_layers@.len() ==> #[trigger] project_layer_readable(
                    sources,
                    j,
                    found.files@,
                ),
        decreases rest@.len(),
    {
        let ghost at = project_layers@.len() as int;
        let project = rest.remove(0);
        proof {
            assert(project == sources[at]);
            assert(rest@ =~= sources.skip(at + 1));
        }
        match parse_settings_layer(
            project.layer,
            &project.path,
            &workflow.files,
            SettingsKind::Project,
        ) {
            Ok(layer) => {
                proof {
                    assert(project_layer_read(sources, at, found.files@, Ok(layer)));
                }
                project_layers.push(layer);
            },
            Err(error) => {
                proof {
                    assert(project_layer_read(sources, at, found.files@, Err(error)));
                }
                return Err(error);
            },
        }
    }
    Ok(
        NormalizedRun {
            workflow_bundle: input.workflow_bundle,
            entrypoint: input.entrypoint,
            workflow,
            workflow_layer,
            project_layers,
            user_toml: input.user_toml,
            cwd: input.cwd,
            server_run_defaults: input.server_run_defaults,
            server_environment_defaults: input.server_environment_defaults,
            server_mcp_catalog: input.server_mcp_catalog,
            run_overrides: input.run_overrides,
            cli_overrides: input.cli_overrides,
            input_overrides: input.input_overrides,
            inline_goal_override: input.inline_goal_override,
            vars: input.vars,
            configured_providers: input.configured_providers,
            metadata: input.metadata,
        },
    )
}

/// A Dockerfile that has been looked up is no longer a reference.
pub proof fn resolved_dockerfiles_are_inline(
    dockerfile: Option<Dockerfile>,
    config_path: String,
    files: Map<Seq<char>, String>,
)
    requires
        resolved_dockerfile(dockerfile, config_path, files) is Ok,
    ensures
        !(resolved_dockerfile(dockerfile, config_path, files)->Ok_0 matches Some(
            Dockerfile::Path { .. },
        )),
        dockerfile is None <==> resolved_dockerfile(dockerfile, config_path, files)->Ok_0 is None,
{
}

// ---- What normalizing a run is for ----

/// A run is normalized around the workflow of its entrypoint: one that the bundle lacks is
/// an error, and what the workflow is, what was submitted for the run and what the server
/// adds to it reach the next stage as they are.
pub proof fn runs_start_from_their_entrypoint(
    input: RawRunCompilerInput,
    workflow_settings: Result<SettingsLayer, String>,
    r: Result<NormalizedRun, RunCompilerError>,
)
    requires
        call_ensures(normalize_source, (input, workflow_settings), r),
    ensures
        !input.workflow_bundle@.dom().contains(input.entrypoint@) ==> r == Err::<
            NormalizedRun,
            RunCompilerError,
        >(
            RunCompilerError::InvalidSource {
                source: InvalidSourceError::MissingEntrypoint { entrypoint: input.entrypoint },
            },
        ),
        r matches Ok(run) ==> input.workflow_bundle@.dom().contains(input.entrypoint@) && {
            let found = input.workflow_bundle@[input.entrypoint@];
            &&& run.workflow.path == input.entrypoint
            &&& run.workflow.source == found.source
            &&& run.workflow.config == found.config
            &&& run.workflow.files@ == found.files@
            &&& run.workflow_layer is Some <==> found.config is Some
            &&& run.project_layers@.len() == input.project_settings@.len()
            &&& run.workflow_bundle == input.workflow_bundle
            &&& run.entrypoint == input.entrypoint
            &&& run.user_toml == input.user_toml
            &&& run.cwd == input.cwd
            &&& run.server_run_defaults == input.server_run_defaults
            &&& run.server_environment_defaults == input.server_environment_defaults
            &&& run.server_mcp_catalog == input.server_mcp_catalog
            &&& run.run_overrides == input.run_overrides
            &&& run.cli_overrides == input.cli_overrides
            &&& run.input_overrides == input.input_overrides
            &&& run.inline_goal_override == input.inline_goal_override
            &&& run.vars == input.vars
            &&& run.configured_providers == input.configured_providers
            &&& run.metadata == input.metadata
        },
{
}

/// The Dockerfile `after` is `before` with its text in place of its reference: one that is
/// given as text, or not at all, stays as it is.
pub open spec fn taken_in(
    before: Option<Dockerfile>,
    files: Map<Seq<char>, String>,
    after: Option<Dockerfile>,
) -> bool {
    match before {
        None => after is None,
        Some(Dockerfile::Inline(text)) => after == Some(Dockerfile::Inline(text)),
        Some(Dockerfile::Path { reference, resolved }) => resolved matches Some(path)
            && files.dom().contains(path@) && after == Some(Dockerfile::Inline(files[path@])),
    }
}

/// The layer with every Dockerfile taken in, whatever environment it is of.
pub open spec fn dockerfiles_taken_in(
    before: SettingsLayer,
    files: Map<Seq<char>, String>,
    after: SettingsLayer,
) -> bool {
    &&& after.body == before.body
    &&& after.environments@.len() == before.environments@.len()
    &&& forall|i: int|
        #![trigger after.environments@[i]]
        0 <= i < before.environments@.len() ==> {
            &&& after.environments@[i].name == before.environments@[i].name
            &&& taken_in(before.environments@[i].dockerfile, files, after.environments@[i].dockerfile)
        }
    &&& taken_in(before.run_dockerfile, files, after.run_dockerfile)
}

/// Every Dockerfile that settings refer to is replaced by the file that came with the
/// workflow, in the workflow's own settings and in those of each project.
pub proof fn referenced_dockerfiles_are_taken_in(
    input: RawRunCompilerInput,
    workflow_settings: Result<SettingsLayer, String>,
    r: Result<NormalizedRun, RunCompilerError>,
    i: int,
)
    requires
        call_ensures(normalize_source, (input, workflow_settings), r),
        r is Ok,
    ensures
        r->Ok_0.workflow_layer matches Some(layer) ==> (workflow_settings matches Ok(parsed)
            && dockerfiles_taken_in(
            parsed,
            input.workflow_bundle@[input.entrypoint@].files@,
            layer,
        )),
        0 <= i < input.project_settings@.len() ==> (input.project_settings@[i].layer matches Ok(
            parsed,
        ) && dockerfiles_taken_in(
            parsed,
            input.workflow_bundle@[input.entrypoint@].files@,
            r->Ok_0.project_layers@[i],
        )),
{
    let run = r->Ok_0;
    let found = input.workflow_bundle@[input.entrypoint@];
    assert(selected(input) == Some(found));
    if 0 <= i < input.project_settings@.len() {
        assert(project_layer_read(
            input.project_settings@,
            i,
            found.files@,
            Ok(run.project_layers@[i]),
        ));
    }
}

/// Nothing is missing from the settings: they were parsed, and each file that they refer
/// to came with the workflow.
pub open spec fn complete(
    parsed: Result<SettingsLayer, String>,
    files: Map<Seq<char>, String>,
) -> bool {
    parsed matches Ok(layer) && {
        &&& forall|i: int|
            #![trigger layer.environments@[i]]
            0 <= i < layer.environments@.len() ==> bundled(layer.environments@[i].dockerfile, files)
        &&& bundled(layer.run_dockerfile, files)
    }
}

/// The Dockerfile is no reference, or one to a file that is there.
pub open spec fn bundled(dockerfile: Option<Dockerfile>, files: Map<Seq<char>, String>) -> bool {
    dockerfile matches Some(Dockerfile::Path { reference, resolved }) ==> (resolved matches Some(
        path,
    ) && files.dom().contains(path@))
}

proof fn lemma_complete(
    parsed: Result<SettingsLayer, String>,
    kind: SettingsKind,
    config_path: String,
    files: Map<Seq<char>, String>,
    error: RunCompilerError,
)
    requires
        complete(parsed, files),
    ensures
        !layer_read(parsed, kind, config_path, files, Err(error)),
{
    let layer = parsed->Ok_0;
    if let RunCompilerError::InvalidSource { source } = error {
        if first_unresolved(layer, config_path, files, source) {
            let all = dockerfiles(layer);
            let i = choose|i: int|
                #![trigger dockerfiles(layer)[i]]
                {
                    &&& 0 <= i < dockerfiles(layer).len()
                    &&& resolved_dockerfile(dockerfiles(layer)[i], config_path, files) == Err::<
                        Option<Dockerfile>,
                        InvalidSourceError,
                    >(source)
                    &&& forall|j: int|
                        0 <= j < i ==> #[trigger] resolvable(
                            dockerfiles(layer),
                            j,
                            config_path,
                            files,
                        )
                };
            if i < layer.environments@.len() {
                assert(all[i] == layer.environments@[i].dockerfile);
            } else {
                assert(all[i] == layer.run_dockerfile);
            }
        }
    }
}

/// Settings from which nothing is missing are always read: a run fails here only where its
/// entrypoint is missing, its settings could not be parsed, or a file that they refer to
/// did not come with the workflow.
pub proof fn complete_runs_are_normalized(
    input: RawRunCompilerInput,
    workflow_settings: Result<SettingsLayer, String>,
    r: Result<NormalizedRun, RunCompilerError>,
)
    requires
        call_ensures(normalize_source, (input, workflow_settings), r),
        input.workflow_bundle@.dom().contains(input.entrypoint@),
        input.workflow_bundle@[input.entrypoint@].config is None || complete(
            workflow_settings,
            input.workflow_bundle@[input.entrypoint@].files@,
        ),
        forall|i: int|
            0 <= i < input.project_settings@.len() ==> complete(
                (#[trigger] input.project_settings@[i]).layer,
                input.workflow_bundle@[input.entrypoint@].files@,
            ),
    ensures
        r is Ok,
{
    let found = input.workflow_bundle@[input.entrypoint@];
    if let Err(error) = r {
        if let Some(config) = found.config {
            lemma_complete(
                workflow_settings,
                SettingsKind::Workflow,
                config.path,
                found.files@,
                error,
            );
        }
        assert forall|i: int| 0 <= i < input.project_settings@.len() implies !(
        #[trigger] project_layer_read(input.project_settings@, i, found.files@, Err(error))) by {
            let source = input.project_settings@[i];
            assert(complete(source.layer, found.files@));
            lemma_complete(source.layer, SettingsKind::Project, source.path, found.files@, error);
        }
    }
}

/// Workflow settings that could not be parsed are the first thing to be reported once the
/// workflow is there, with the path of their file; behind them those of the first project
/// whose settings could not be parsed.
pub proof fn unparsed_settings_are_reported(
    input: RawRunCompilerInput,
    workflow_settings: Result<SettingsLayer, String>,
    r: Result<NormalizedRun, RunCompilerError>,
    i: int,
)
    requires
        call_ensures(normalize_source, (input, workflow_settings), r),
        input.workflow_bundle@.dom().contains(input.entrypoint@),
    ensures
        input.workflow_bundle@[input.entrypoint@].config matches Some(config) ==> (
        workflow_settings matches Err(fault) ==> r == Err::<NormalizedRun, RunCompilerError>(
            RunCompilerError::InvalidSettings {
                source: InvalidSettingsError::Parse {
                    kind: SettingsKind::Workflow,
                    path: config.path,
                    source: fault,
                },
            },
        )),
        0 <= i < input.project_settings@.len() && input.project_settings@[i].layer is Err ==> r
            is Err,
        i == 0 && 0 < input.project_settings@.len()
            && input.workflow_bundle@[input.entrypoint@].config is None ==> (
        input.project_settings@[i].layer matches Err(fault) ==> r == Err::<
            NormalizedRun,
            RunCompilerError,
        >(
            RunCompilerError::InvalidSettings {
                source: InvalidSettingsError::Parse {
                    kind: SettingsKind::Project,
                    path: input.project_settings@[i].path,
                    source: fault,
                },
            },
        )),
{
    let found = input.workflow_bundle@[input.entrypoint@];
    match r {
        Ok(run) => {
            if 0 <= i < input.project_settings@.len() {
                assert(project_layer_read(
                    input.project_settings@,
                    i,
                    found.files@,
                    Ok(run.project_layers@[i]),
                ));
            }
        },
        Err(error) => {
            if i == 0 && 0 < input.project_settings@.len() && found.config is None
                && input.project_settings@[0].layer is Err {
                let k = choose|k: int|
                    0 <= k < input.project_settings@.len() && #[trigger] project_layer_read(
                        input.project_settings@,
                        k,
                        found.files@,
                        Err(error),
                    ) && forall|j: int|
                        0 <= j < k ==> #[trigger] project_layer_readable(
                            input.project_settings@,
                            j,
                            found.files@,
                        );
                if k > 0 {
                    assert(project_layer_readable(input.project_settings@, 0, found.files@));
                }
            }
        },
    }
}

/// Every reference to a Dockerfile is asked for next to the settings that it stands in,
/// and nothing else is.
pub proof fn references_are_asked_for(
    layer: &SettingsLayer,
    config_path: &str,
    r: Vec<Option<DockerfileLookup>>,
    i: int,
)
    requires
        call_ensures(dockerfile_lookups, (layer, config_path), r),
    ensures
        r@.len() == layer.environments@.len() + 1,
        0 <= i < layer.environments@.len() ==> (
        layer.environments@[i].dockerfile matches Some(Dockerfile::Path { reference, .. }) ==> (
        r@[i] matches Some(lookup) && lookup.reference == reference && lookup.config_path@
            == config_path@)),
        0 <= i < layer.environments@.len() && !(layer.environments@[i].dockerfile matches Some(
            Dockerfile::Path { .. },
        )) ==> r@[i] is None,
        layer.run_dockerfile matches Some(Dockerfile::Path { reference, .. }) ==> (
        r@.last() matches Some(lookup) && lookup.reference == reference && lookup.config_path@
            == config_path@),
        !(layer.run_dockerfile matches Some(Dockerfile::Path { .. })) ==> r@.last() is None,
{
    let n = layer.environments@.len() as int;
    assert(asks(dockerfiles(*layer)[n], config_path@, r@[n]));
    assert(dockerfiles(*layer)[n] == layer.run_dockerfile);
    if 0 <= i < n {
        assert(asks(dockerfiles(*layer)[i], config_path@, r@[i]));
        assert(dockerfiles(*layer)[i] == layer.environments@[i].dockerfile);
    }
}

/// An error of compiling a run names its stage and ends with its cause, except an internal
/// one, which says what was being done.
pub proof fn messages_end_with_their_cause(error: RunCompilerError, cause: String, r: String)
    requires
        call_ensures(RunCompilerError::source_message, (&error,), cause),
        call_ensures(RunCompilerError::to_string, (&error,), r),
    ensures
        error is InvalidSource ==> r@ == "invalid run source: "@ + cause@,
        error is InvalidSettings ==> r@ == "invalid run settings: "@ + cause@,
        error is VariableInterpolation ==> r@ == "run config variable interpolation failed: "@
            + cause@,
        error is ValidationOrParse ==> r@ == "workflow validation or parse failed: "@ + cause@,
        error is ModelSelection ==> r@ == "model selection failed: "@ + cause@,
        error is ModelReference ==> r@ == "model reference failed: "@ + cause@,
        error matches RunCompilerError::Internal { context, .. } ==> r@ == context@,
        error matches RunCompilerError::ModelSelection { source } ==> cause@ == source@,
{
}

/// The cause of an error is what was found at fault, told by its own message.
pub proof fn causes_are_those_of_the_source(error: RunCompilerError, cause: String, text: String)
    requires
        call_ensures(RunCompilerError::source_message, (&error,), cause),
        match error {
            RunCompilerError::InvalidSource { source } => call_ensures(
                InvalidSourceError::to_string,
                (&source,),
                text,
            ),
            RunCompilerError::InvalidSettings { source } => call_ensures(
                InvalidSettingsError::to_string,
                (&source,),
                text,
            ),
            RunCompilerError::VariableInterpolation { source } => call_ensures(
                VariableInterpolationError::to_string,
                (&source,),
                text,
            ),
            RunCompilerError::ValidationOrParse { source } => call_ensures(
                WorkflowError::to_string,
                (&source,),
                text,
            ),
            RunCompilerError::ModelSelection { source } => text@ == source@,
            RunCompilerError::ModelReference { source } => call_ensures(
                AmbiguousModelRef::to_string,
                (&source,),
                text,
            ),
            RunCompilerError::Internal { context, source } => call_ensures(
                WorkflowError::to_string,
                (&source,),
                text,
            ),
        },
    ensures
        cause@ == text@,
{
}

/// What is wrong with a source or with settings is said with the paths and the reason that
/// it concerns.
pub proof fn faults_name_what_they_concern(
    fault: InvalidSourceError,
    settings: InvalidSettingsError,
    variables: VariableInterpolationError,
    r: String,
    s: String,
    v: String,
)
    requires
        call_ensures(InvalidSourceError::to_string, (&fault,), r),
        call_ensures(InvalidSettingsError::to_string, (&settings,), s),
        call_ensures(VariableInterpolationError::to_string, (&variables,), v),
    ensures
        fault matches InvalidSourceError::MissingEntrypoint { entrypoint } ==> r@
            == "bundle entrypoint "@ + entrypoint@ + " is missing from the workflow bundle"@,
        fault matches InvalidSourceError::UnsupportedDockerfileReference { config_path, reference }
            ==> r@ == "unsupported dockerfile reference "@ + debug_quoted(reference@) + " in "@
            + config_path@,
        fault matches InvalidSourceError::MissingDockerfile { config_path, dockerfile_path } ==> r@
            == "bundled dockerfile "@ + dockerfile_path@ + " referenced by "@ + config_path@
            + " is missing"@,
        settings matches InvalidSettingsError::Parse { kind, path, .. } ==> s@
            == "failed to parse "@ + (if kind == SettingsKind::Workflow {
            "workflow"@
        } else {
            "project"@
        }) + " settings at "@ + path@,
        settings matches InvalidSettingsError::User { source } ==> s@
            == "failed to parse user settings: "@ + source@,
        settings matches InvalidSettingsError::Resolve { source } ==> s@
            == "failed to resolve layered workflow settings: "@ + source@,
        variables matches VariableInterpolationError::Interpolation(source) ==> v@ == source@,
        variables matches VariableInterpolationError::ArtifactGlob { index, source } ==> v@
            == "run.artifacts.include["@ + decimal(index as nat) + "]: "@ + source@,
{
}

/// The layer has a Dockerfile for which the error holds: a reference that stands for no
/// path, or one to a file that did not come with the workflow.
pub open spec fn is_at_fault(
    layer: SettingsLayer,
    files: Map<Seq<char>, String>,
    error: InvalidSourceError,
) -> bool {
    ||| exists|i: int|
        0 <= i < layer.environments@.len() && faulted(
            (#[trigger] layer.environments@[i]).dockerfile,
            files,
            error,
        )
    ||| faulted(layer.run_dockerfile, files, error)
}

/// The error is that of the Dockerfile.
pub open spec fn faulted(
    dockerfile: Option<Dockerfile>,
    files: Map<Seq<char>, String>,
    error: InvalidSourceError,
) -> bool {
    dockerfile matches Some(Dockerfile::Path { reference, resolved }) && match error {
        InvalidSourceError::UnsupportedDockerfileReference { reference: named, .. } => resolved
            is None && named == reference,
        InvalidSourceError::MissingDockerfile { dockerfile_path, .. } => resolved == Some(
            dockerfile_path,
        ) && !files.dom().contains(dockerfile_path@),
        InvalidSourceError::MissingEntrypoint { .. } => false,
    }
}

/// A Dockerfile that is reported is one that the settings refer to and that cannot be taken
/// in, of the workflow or of a project.
pub proof fn reported_dockerfiles_cannot_be_taken_in(
    input: RawRunCompilerInput,
    workflow_settings: Result<SettingsLayer, String>,
    r: Result<NormalizedRun, RunCompilerError>,
)
    requires
        call_ensures(normalize_source, (input, workflow_settings), r),
        input.workflow_bundle@.dom().contains(input.entrypoint@),
        r matches Err(RunCompilerError::InvalidSource { .. }),
    ensures
        ({
            let files = input.workflow_bundle@[input.entrypoint@].files@;
            let error = r->Err_0->InvalidSource_source;
            ||| workflow_settings matches Ok(layer) && is_at_fault(layer, files, error)
            ||| exists|i: int|
                0 <= i < input.project_settings@.len() && (
                (#[trigger] input.project_settings@[i]).layer matches Ok(layer) && is_at_fault(
                    layer,
                    files,
                    error,
                ))
        }),
{
    let found = input.workflow_bundle@[input.entrypoint@];
    let error = r->Err_0;
    let fault = error->InvalidSource_source;
    if workflow_layer_read(found, workflow_settings, Err(error)) {
        lemma_at_fault(workflow_settings->Ok_0, found.config->0.path, found.files@, fault);
    } else {
        let i = choose|i: int|
            0 <= i < input.project_settings@.len() && #[trigger] project_layer_read(
                input.project_settings@,
                i,
                found.files@,
                Err(error),
            );
        let source = input.project_settings@[i];
        lemma_at_fault(source.layer->Ok_0, source.path, found.files@, fault);
    }
}

proof fn lemma_at_fault(
    layer: SettingsLayer,
    config_path: String,
    files: Map<Seq<char>, String>,
    error: InvalidSourceError,
)
    requires
        first_unresolved(layer, config_path, files, error),
    ensures
        is_at_fault(layer, files, error),
{
    let all = dockerfiles(layer);
    let i = choose|i: int|
        #![trigger dockerfiles(layer)[i]]
        {
            &&& 0 <= i < dockerfiles(layer).len()
            &&& resolved_dockerfile(dockerfiles(layer)[i], config_path, files) == Err::<
                Option<Dockerfile>,
                InvalidSourceError,
            >(error)
            &&& forall|j: int|
                0 <= j < i ==> #[trigger] resolvable(dockerfiles(layer), j, config_path, files)
        };
    if i < layer.environments@.len() {
        assert(all[i] == layer.environments@[i].dockerfile);
        assert(faulted(layer.environments@[i].dockerfile, files, error));
    } else {
        assert(all[i] == layer.run_dockerfile);
    }
}

} // verus!
