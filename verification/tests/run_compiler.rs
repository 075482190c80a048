use fabro::json::{parse_json, Json};
use fabro::model_ref::AmbiguousModelRef;
use fabro::run_assembly::{
    after_graph_stage, apply_run_variables, assemble_run, classify_workflow_error, compile_graph,
    finish_layering, layer_settings, ArtifactPattern, LayerStep, LayeringFault, PreparedRun, RunGoal,
    TaskEnd, WorkflowSettings,
};
use fabro::run_compiler::{
    dockerfile_lookups, normalize_source, place_references, AutomationRef,
    BundledWorkflow, Dockerfile, DockerfileLookup, EnvironmentLayer,
    InvalidSettingsError, InvalidSourceError, NormalizedRun, ParsedWorkflowConfig,
    ProjectSettingsSource, RawRunCompilerInput, RunCompilerError, RunMetadata, SettingsKind,
    SettingsLayer, VariableInterpolationError, WorkflowError,
};
use fabro::text_map::TextMap;

const DOT: &str = "digraph Test { start -> work -> exit }";

fn text(value: &str) -> Json {
    Json::Text(value.to_string())
}

fn layer(run_dockerfile: Option<Dockerfile>) -> SettingsLayer {
    SettingsLayer {
        environments: vec![],
        run_dockerfile,
        body: Json::Null,
    }
}

fn dockerfile_at(reference: &str, resolved: Option<&str>) -> Dockerfile {
    Dockerfile::Path {
        reference: reference.to_string(),
        resolved: resolved.map(str::to_string),
    }
}

/// The layer with its references resolved next to the settings of the workflow. Nothing
/// outside the bundle can be referred to.
fn resolved(parsed: SettingsLayer) -> SettingsLayer {
    let paths = dockerfile_lookups(&parsed, "flows/workflow.toml")
        .into_iter()
        .map(|lookup| {
            let lookup = lookup?;
            let (directory, _) = lookup.config_path.rsplit_once('/')?;
            (!lookup.reference.starts_with('/')).then(|| format!("{directory}/{}", lookup.reference))
        })
        .collect();
    place_references(parsed, paths)
}

fn metadata() -> RunMetadata {
    RunMetadata {
        run_id: Some(1),
        title: None,
        parent_id: None,
        git: None,
        storage_root: "/tmp/fabro-storage".to_string(),
        workflow_slug: None,
        provenance: Json::Null,
        web_url: None,
        submitted_manifest_bytes: None,
        automation: None,
    }
}

fn raw_input(has_config: bool, files: &[(&str, &str)]) -> RawRunCompilerInput {
    let entrypoint = "flows/workflow.fabro".to_string();
    let mut file_map = TextMap::new();
    for (path, content) in files {
        file_map.insert(path.to_string(), content.to_string());
    }
    let mut bundle = TextMap::new();
    bundle.insert(
        entrypoint.clone(),
        BundledWorkflow {
            path: entrypoint.clone(),
            source: DOT.to_string(),
            config: has_config.then(|| ParsedWorkflowConfig {
                path: "flows/workflow.toml".to_string(),
                source: "_version = 1".to_string(),
            }),
            files: file_map,
        },
    );
    RawRunCompilerInput {
        workflow_bundle: bundle,
        entrypoint,
        cwd: "/workspace".to_string(),
        server_run_defaults: text("run defaults"),
        server_environment_defaults: text("environment defaults"),
        server_mcp_catalog: text("catalog"),
        project_settings: vec![],
        user_toml: vec![],
        run_overrides: None,
        cli_overrides: None,
        input_overrides: TextMap::new(),
        inline_goal_override: None,
        vars: TextMap::new(),
        configured_providers: vec!["openai".to_string()],
        metadata: metadata(),
    }
}

fn unread() -> Result<SettingsLayer, String> {
    Err("not read".to_string())
}

fn settings() -> WorkflowSettings {
    WorkflowSettings {
        inputs: TextMap::new(),
        goal: None,
        artifacts_include: vec![],
        body: Json::Null,
    }
}

fn prepare(input: RawRunCompilerInput) -> PreparedRun {
    let normalized = normalize_source(input, unread()).expect("source should normalize");
    let (_, pending) = layer_settings(normalized);
    let layered = finish_layering(pending, Ok(settings())).expect("settings should layer");
    apply_run_variables(layered, Ok(settings())).expect("variables should apply")
}

// ---- Stage one ----

#[test]
fn stage_one_rejects_missing_entrypoint() {
    let mut input = raw_input(false, &[]);
    input.entrypoint = "flows/missing.fabro".to_string();

    let Err(error) = normalize_source(input, unread()) else {
        panic!("missing entrypoint should fail");
    };

    assert!(matches!(
        error,
        RunCompilerError::InvalidSource {
            source: InvalidSourceError::MissingEntrypoint { .. },
        }
    ));
    assert!(error.source_message().contains("flows/missing.fabro"));
}

#[test]
fn unresolved_run_id_is_allocated_only_after_variables_are_applied() {
    let mut input = raw_input(false, &[]);
    input.metadata.run_id = None;
    let prepared = prepare(input);

    let (prepared, run_id) = prepared.resolve_run_id(77);

    assert_eq!(run_id, 77);
    assert_eq!(prepared.metadata.run_id, Some(run_id));
    let (_, again) = prepared.resolve_run_id(78);
    assert_eq!(again, 77);
}

#[test]
fn stage_one_rejects_missing_dockerfile_and_preserves_source_chain() {
    let parsed = resolved(layer(Some(dockerfile_at("Dockerfile", None))));

    let Err(error) = normalize_source(raw_input(true, &[]), Ok(parsed)) else {
        panic!("missing dockerfile should fail");
    };

    assert!(matches!(
        error,
        RunCompilerError::InvalidSource {
            source: InvalidSourceError::MissingDockerfile { .. },
        }
    ));
    assert!(error.source_message().contains("Dockerfile"));
}

#[test]
fn stage_one_resolves_bundled_dockerfile() {
    let parsed = resolved(layer(Some(dockerfile_at("Dockerfile", None))));
    let normalized = normalize_source(
        raw_input(true, &[("flows/Dockerfile", "FROM ubuntu:24.04\n")]),
        Ok(parsed),
    )
    .expect("bundled dockerfile should resolve");

    assert_eq!(
        normalized.workflow_layer.and_then(|layer| layer.run_dockerfile),
        Some(Dockerfile::Inline("FROM ubuntu:24.04\n".to_string()))
    );
}

#[test]
fn dockerfiles_of_environments_are_resolved_before_that_of_the_run() {
    let files = [("flows/Dockerfile", "FROM scratch\n")];
    let mut parsed = layer(Some(dockerfile_at("/etc/passwd", None)));
    parsed.environments.push(EnvironmentLayer {
        name: "ci".to_string(),
        dockerfile: Some(dockerfile_at("Dockerfile", None)),
    });
    parsed.environments.push(EnvironmentLayer {
        name: "inline".to_string(),
        dockerfile: Some(Dockerfile::Inline("FROM x".to_string())),
    });
    let error = normalize_source(raw_input(true, &files), Ok(resolved(parsed))).unwrap_err();
    assert_eq!(
        error,
        RunCompilerError::InvalidSource {
            source: InvalidSourceError::UnsupportedDockerfileReference {
                config_path: "flows/workflow.toml".to_string(),
                reference: "/etc/passwd".to_string(),
            },
        }
    );
    assert!(error.source_message().contains("/etc/passwd"));
}

#[test]
fn references_are_resolved_from_the_directory_of_their_settings() {
    let mut parsed = layer(Some(dockerfile_at("../Dockerfile", None)));
    parsed.environments.push(EnvironmentLayer {
        name: "inline".to_string(),
        dockerfile: Some(Dockerfile::Inline("FROM x".to_string())),
    });
    parsed.environments.push(EnvironmentLayer {
        name: "plain".to_string(),
        dockerfile: None,
    });
    parsed.environments.push(EnvironmentLayer {
        name: "ci".to_string(),
        dockerfile: Some(dockerfile_at("ci/Dockerfile", None)),
    });
    let lookup = |reference: &str| {
        Some(DockerfileLookup {
            config_path: "flows/workflow.toml".to_string(),
            reference: reference.to_string(),
        })
    };
    assert_eq!(
        dockerfile_lookups(&parsed, "flows/workflow.toml"),
        vec![None, None, lookup("ci/Dockerfile"), lookup("../Dockerfile")]
    );

    let placed = place_references(
        parsed,
        vec![
            Some("ignored".to_string()),
            None,
            Some("flows/ci/Dockerfile".to_string()),
            Some("Dockerfile".to_string()),
        ],
    );
    let files = [("flows/ci/Dockerfile", "FROM ci\n"), ("Dockerfile", "FROM top\n")];
    let normalized = normalize_source(raw_input(true, &files), Ok(placed)).unwrap();
    let read = normalized.workflow_layer.unwrap();
    let texts: Vec<Option<Dockerfile>> =
        read.environments.into_iter().map(|environment| environment.dockerfile).collect();
    assert_eq!(
        texts,
        vec![
            Some(Dockerfile::Inline("FROM x".to_string())),
            None,
            Some(Dockerfile::Inline("FROM ci\n".to_string())),
        ]
    );
    assert_eq!(read.run_dockerfile, Some(Dockerfile::Inline("FROM top\n".to_string())));
}

#[test]
fn settings_sources_fail_under_their_own_path() {
    let error = normalize_source(raw_input(true, &[]), unread()).unwrap_err();
    assert_eq!(
        error,
        RunCompilerError::InvalidSettings {
            source: InvalidSettingsError::Parse {
                kind: SettingsKind::Workflow,
                path: "flows/workflow.toml".to_string(),
                source: "not read".to_string(),
            },
        }
    );
    // A workflow without a settings file has nothing to read.
    let mut input = raw_input(false, &[]);
    for (path, parsed) in [
        (".fabro/a.toml", Ok(layer(None))),
        (".fabro/b.toml", Err("bad".to_string())),
        (".fabro/c.toml", Err("worse".to_string())),
    ] {
        input.project_settings.push(ProjectSettingsSource {
            path: path.to_string(),
            toml: String::new(),
            layer: parsed,
        });
    }
    let error = normalize_source(input, unread()).unwrap_err();
    assert_eq!(
        error,
        RunCompilerError::InvalidSettings {
            source: InvalidSettingsError::Parse {
                kind: SettingsKind::Project,
                path: ".fabro/b.toml".to_string(),
                source: "bad".to_string(),
            },
        }
    );
}

// ---- Stage two ----

#[test]
fn settings_apply_precedence_vars_inputs_and_safe_artifact_globs() {
    let mut input = raw_input(true, &[]);
    input.project_settings.push(ProjectSettingsSource {
        path: ".fabro/project.toml".to_string(),
        toml: String::new(),
        layer: Ok(layer(None)),
    });
    input.user_toml = vec!["user".to_string()];
    input.run_overrides = Some(text("args"));
    input.input_overrides.insert("target".to_string(), text("override"));
    input.inline_goal_override = Some("Ship {{ vars.owner }}".to_string());
    input.vars.insert("owner".to_string(), "payments".to_string());

    let normalized: NormalizedRun =
        normalize_source(input, Ok(layer(None))).expect("source should normalize");
    let (steps, pending) = layer_settings(normalized);
    assert_eq!(
        steps,
        vec![
            LayerStep::ServerDefaults {
                run: text("run defaults"),
                environments: text("environment defaults"),
            },
            LayerStep::McpCatalog(text("catalog")),
            LayerStep::RunOverrides(text("args")),
            LayerStep::Workflow(layer(None)),
            LayerStep::Project(layer(None)),
            LayerStep::User("user".to_string()),
        ]
    );
    let mut built = settings();
    built.inputs.insert("target".to_string(), text("workflow"));
    built.inputs.insert("other".to_string(), text("kept"));
    let layered = finish_layering(pending, Ok(built)).expect("settings should layer");
    assert_eq!(layered.settings.inputs.get("target"), Some(&text("override")));
    assert_eq!(layered.settings.inputs.get("other"), Some(&text("kept")));
    assert_eq!(
        layered.settings.goal,
        Some(RunGoal::Inline("Ship {{ vars.owner }}".to_string()))
    );
    assert_eq!(layered.vars.get("owner"), Some(&"payments".to_string()));
    let mut vars = TextMap::new();
    vars.insert("owner".to_string(), "billing".to_string());
    let layered = layered.with_vars(vars);
    assert_eq!(layered.vars.get("owner"), Some(&"billing".to_string()));

    let mut substituted = settings();
    substituted.goal = Some(RunGoal::Inline("Ship payments".to_string()));
    substituted.artifacts_include.push(ArtifactPattern {
        pattern: "reports/payments/*.json".to_string(),
        fault: None,
    });
    let prepared =
        apply_run_variables(layered, Ok(substituted)).expect("variables should apply");
    assert_eq!(
        prepared.settings().goal,
        Some(RunGoal::Inline("Ship payments".to_string()))
    );
    assert_eq!(
        prepared.settings().artifacts_include[0].pattern,
        "reports/payments/*.json"
    );
}

#[test]
fn settings_reject_artifact_glob_made_unsafe_by_variable() {
    let normalized = normalize_source(raw_input(false, &[]), unread()).unwrap();
    let (_, pending) = layer_settings(normalized);
    let layered = finish_layering(pending, Ok(settings())).unwrap();
    let mut substituted = settings();
    for (pattern, fault) in [
        ("*.json", None),
        ("reports/../secrets/*.json", Some("leaves the workspace")),
        ("..", Some("leaves the workspace")),
    ] {
        substituted.artifacts_include.push(ArtifactPattern {
            pattern: pattern.to_string(),
            fault: fault.map(str::to_string),
        });
    }

    let Err(error) = apply_run_variables(layered, Ok(substituted)) else {
        panic!("unsafe artifact glob should fail");
    };

    assert_eq!(
        error,
        RunCompilerError::VariableInterpolation {
            source: VariableInterpolationError::ArtifactGlob {
                index: 1,
                source: "leaves the workspace".to_string(),
            },
        }
    );
}

#[test]
fn faults_of_the_settings_name_their_stage() {
    let pending = || {
        let normalized = normalize_source(raw_input(false, &[]), unread()).unwrap();
        layer_settings(normalized).1
    };
    assert_eq!(
        finish_layering(pending(), Err(LayeringFault::User("u".to_string()))).unwrap_err(),
        RunCompilerError::InvalidSettings {
            source: InvalidSettingsError::User {
                source: "u".to_string()
            }
        }
    );
    assert_eq!(
        finish_layering(pending(), Err(LayeringFault::Resolve("r".to_string()))).unwrap_err(),
        RunCompilerError::InvalidSettings {
            source: InvalidSettingsError::Resolve {
                source: "r".to_string()
            }
        }
    );
    let layered = finish_layering(pending(), Ok(settings())).unwrap();
    assert_eq!(
        apply_run_variables(layered, Err("no variable".to_string())).unwrap_err(),
        RunCompilerError::VariableInterpolation {
            source: VariableInterpolationError::Interpolation("no variable".to_string())
        }
    );
}

#[test]
fn prepared_runs_can_be_completed() {
    let mut prepared = prepare(raw_input(false, &[]));
    prepared.metadata.parent_id = Some(9);
    let prepared = prepared
        .with_web_url(Some("https://fabro.test/runs/1".to_string()))
        .with_configured_providers(vec!["kimi".to_string()]);
    assert_eq!(
        prepared.metadata.web_url.as_deref(),
        Some("https://fabro.test/runs/1")
    );
    assert_eq!(prepared.configured_providers, vec!["kimi".to_string()]);
    assert_eq!(prepared.parent_id(), Some(9));
}

// ---- Stages three and four ----

#[test]
fn assembly_retains_entrypoint_and_run_metadata() {
    let automation = || AutomationRef {
        id: "nightly".to_string(),
        name: Some("Nightly".to_string()),
        trigger_id: Some("schedule".to_string()),
    };
    let submitted = b"submitted manifest".to_vec();
    let mut input = raw_input(false, &[]);
    input.metadata.run_id = Some(11);
    input.metadata.parent_id = Some(12);
    input.metadata.title = Some("Compiler boundary".to_string());
    input.metadata.workflow_slug = Some("compiler-boundary".to_string());
    input.metadata.web_url = Some("https://fabro.test/runs/11".to_string());
    input.metadata.submitted_manifest_bytes = Some(submitted.clone());
    input.metadata.automation = Some(automation());
    let expected_entrypoint = input.entrypoint.clone();

    let waiting = compile_graph(prepare(input));
    assert_eq!(waiting.stage.workflow_path.as_ref(), Some(&expected_entrypoint));
    assert_eq!(waiting.stage.cwd, "/workspace");
    let compiled = after_graph_stage(waiting, TaskEnd::Done("compiled")).expect("graph compiles");
    assert_eq!(compiled.compiled(), &"compiled");
    let ready =
        after_graph_stage(compiled, TaskEnd::Done("materialized")).expect("run materializes");
    let output = assemble_run(ready, 99);
    let persistence = output.persistence_input();

    assert_eq!(output.entrypoint(), &expected_entrypoint);
    assert_eq!(persistence.run_id, 11);
    assert_eq!(persistence.parent_id, Some(12));
    assert_eq!(persistence.title.as_deref(), Some("Compiler boundary"));
    assert_eq!(
        persistence.workflow_slug.as_deref(),
        Some("compiler-boundary")
    );
    assert_eq!(persistence.submitted_manifest_bytes, Some(submitted));
    assert_eq!(persistence.automation, Some(automation()));
    assert_eq!(persistence.materialized, "materialized");
    assert_eq!(persistence.fork_source_ref, None);
    let (_, entrypoint) = output.into_parts();
    assert_eq!(entrypoint, expected_entrypoint);
}

#[test]
fn runs_without_an_id_get_the_fresh_one() {
    let mut input = raw_input(false, &[]);
    input.metadata.run_id = None;
    let waiting = compile_graph(prepare(input));
    let ready = after_graph_stage(waiting, TaskEnd::Done(())).unwrap();
    assert_eq!(assemble_run(ready, 99).persistence_input().run_id, 99);
}

#[test]
fn workflow_errors_are_reported_by_kind() {
    let ambiguous = || AmbiguousModelRef {
        input: "x".to_string(),
        providers: vec!["x".to_string()],
        models: vec!["x".to_string()],
    };
    assert_eq!(
        classify_workflow_error(WorkflowError::ModelSelection("none".to_string())),
        RunCompilerError::ModelSelection {
            source: "none".to_string()
        }
    );
    assert_eq!(
        classify_workflow_error(WorkflowError::ModelReference(ambiguous())),
        RunCompilerError::ModelReference {
            source: ambiguous()
        }
    );
    for error in [
        || WorkflowError::Parse("p".to_string()),
        || WorkflowError::ValidationFailed("v".to_string()),
    ] {
        assert_eq!(
            classify_workflow_error(error()),
            RunCompilerError::ValidationOrParse { source: error() }
        );
    }
    assert_eq!(
        classify_workflow_error(WorkflowError::Other("io".to_string())),
        RunCompilerError::Internal {
            context: "workflow compilation failed".to_string(),
            source: WorkflowError::Other("io".to_string()),
        }
    );
}

#[test]
fn crashed_tasks_are_internal_errors() {
    let waiting = compile_graph(prepare(raw_input(false, &[])));
    let error = after_graph_stage::<_, ()>(waiting, TaskEnd::Crashed("panic".to_string()))
        .unwrap_err();
    assert_eq!(
        error,
        RunCompilerError::Internal {
            context: "workflow compilation failed".to_string(),
            source: WorkflowError::Engine {
                message: "workflow create task failed".to_string(),
                source: "panic".to_string(),
            },
        }
    );
    let waiting = compile_graph(prepare(raw_input(false, &[])));
    let refused = TaskEnd::<()>::Refused(WorkflowError::Parse("bad graph".to_string()));
    assert!(matches!(
        after_graph_stage(waiting, refused),
        Err(RunCompilerError::ValidationOrParse { .. })
    ));
}

#[test]
fn compiler_errors_are_worded_by_their_cause() {
    let source = |source| RunCompilerError::InvalidSource { source }.to_string();
    assert_eq!(
        source(InvalidSourceError::MissingEntrypoint {
            entrypoint: "a.fabro".to_string()
        }),
        "invalid run source: bundle entrypoint a.fabro is missing from the workflow bundle"
    );
    assert_eq!(
        source(InvalidSourceError::UnsupportedDockerfileReference {
            config_path: "w.toml".to_string(),
            reference: "a\nb".to_string(),
        }),
        "invalid run source: unsupported dockerfile reference \"a\\nb\" in w.toml"
    );
    assert_eq!(
        source(InvalidSourceError::MissingDockerfile {
            config_path: "w.toml".to_string(),
            dockerfile_path: "Dockerfile".to_string(),
        }),
        "invalid run source: bundled dockerfile Dockerfile referenced by w.toml is missing"
    );
    let settings = |source| RunCompilerError::InvalidSettings { source }.to_string();
    assert_eq!(
        settings(InvalidSettingsError::Parse {
            kind: SettingsKind::Project,
            path: "p.toml".to_string(),
            source: "hidden".to_string(),
        }),
        "invalid run settings: failed to parse project settings at p.toml"
    );
    assert_eq!(
        settings(InvalidSettingsError::User {
            source: "why".to_string()
        }),
        "invalid run settings: failed to parse user settings: why"
    );
    assert_eq!(
        settings(InvalidSettingsError::Resolve {
            source: "why".to_string()
        }),
        "invalid run settings: failed to resolve layered workflow settings: why"
    );
    let glob = RunCompilerError::VariableInterpolation {
        source: VariableInterpolationError::ArtifactGlob {
            index: 12,
            source: "why".to_string(),
        },
    };
    assert_eq!(
        glob.to_string(),
        "run config variable interpolation failed: run.artifacts.include[12]: why"
    );
    let internal = RunCompilerError::Internal {
        context: "workflow compilation failed".to_string(),
        source: WorkflowError::Other("why".to_string()),
    };
    assert_eq!(internal.to_string(), "workflow compilation failed");
    assert_eq!(internal.source_message(), "why");
    assert_eq!(
        RunCompilerError::ModelSelection {
            source: "why".to_string()
        }
        .to_string(),
        "model selection failed: why"
    );
}

#[test]
fn documents_can_stand_for_settings() {
    let body = parse_json(r#"{"run":{"inputs":{"a":1}}}"#).unwrap();
    let mut parsed = layer(None);
    parsed.body = body.clone();
    let normalized = normalize_source(raw_input(true, &[]), Ok(parsed)).unwrap();
    assert_eq!(normalized.workflow_layer.unwrap().body, body);
}
