use fabro::graph::{AttrValue, Graph};
use fabro::json::Json;
use fabro::model_resolution::{ModelSelectionError, Offering};
use fabro::run_assembly::RunGoal;
use fabro::run_materialization::{
    materialize_run, materialize_run_with_provider_fallback, resolve_run_model,
    PullRequestSettings, RunModelAnswers, RunSettings,
};
use fabro::text_map::TextMap;
use fabro::text_set::TextSet;
use fabro::validate::{
    validate, validate_with_catalog, validate_with_ready_providers, Error, RenderMode,
    ResolvedWorkflow, ValidateInput,
};

fn texts(values: &[&str]) -> Vec<String> {
    values.iter().map(|value| value.to_string()).collect()
}

fn offering(id: &str, provider: &str) -> Offering {
    Offering {
        id: id.to_string(),
        provider: provider.to_string(),
    }
}

fn unknown(selector: &str) -> ModelSelectionError {
    ModelSelectionError::UnknownSelector {
        selector: selector.to_string(),
    }
}

// ---- Materializing ----

fn settings(model: Option<&str>, provider: Option<&str>) -> RunSettings {
    RunSettings {
        model_name: model.map(str::to_string),
        model_provider: provider.map(str::to_string),
        goal: Some(RunGoal::Inline("old".to_string())),
        pull_request: Some(PullRequestSettings {
            enabled: false,
            body: Json::Null,
        }),
        body: Json::Bool(true),
    }
}

fn graph() -> Graph {
    let mut graph = Graph::new();
    for (name, value) in [("default_model", "graph-model"), ("default_provider", "graph-provider")] {
        graph
            .attrs
            .insert(name.to_string(), AttrValue::String(value.to_string()));
    }
    graph
}

#[test]
fn the_catalog_is_asked_for_what_the_run_wants() {
    let configured = texts(&["b", "a", "b"]);
    let run = materialize_run(settings(Some("mine"), None), &graph(), &configured);
    assert_eq!(run.query.model.as_deref(), Some("mine"));
    assert_eq!(run.query.provider.as_deref(), Some("graph-provider"));
    assert_eq!(run.query.eligible.into_vec(), texts(&["a", "b"]));
    assert_eq!(run.query.fallback, None);

    let run = materialize_run_with_provider_fallback(
        settings(None, Some("")),
        &graph(),
        &configured,
        &texts(&["c"]),
    );
    assert_eq!(run.query.model.as_deref(), Some("graph-model"));
    assert_eq!(run.query.provider, None);
    assert_eq!(run.query.fallback.unwrap().into_vec(), texts(&["c"]));
}

#[test]
fn materialized_runs_have_their_model_and_goal() {
    let run = materialize_run(settings(None, None), &Graph::new(), &vec![]);
    let after = run.finish("Ship it", Ok(offering("gpt-5.4", "openai"))).unwrap();
    assert_eq!(after.model_name.as_deref(), Some("gpt-5.4"));
    assert_eq!(after.model_provider.as_deref(), Some("openai"));
    assert_eq!(after.goal, Some(RunGoal::Inline("Ship it".to_string())));
    assert_eq!(after.pull_request, None);
    assert_eq!(after.body, Json::Bool(true));

    let mut enabled = settings(None, None);
    enabled.pull_request.as_mut().unwrap().enabled = true;
    let run = materialize_run(enabled, &Graph::new(), &vec![]);
    let after = run.finish("", Ok(offering("m", "p"))).unwrap();
    assert_eq!(after.goal, None);
    assert!(after.pull_request.is_some());

    let run = materialize_run(settings(None, None), &Graph::new(), &vec![]);
    assert_eq!(run.finish("", Err(unknown("m"))), Err(unknown("m")));
}

fn answers() -> RunModelAnswers {
    RunModelAnswers {
        provider: Some("canonical".to_string()),
        eligible: vec![None, Some("canonical".to_string())],
        on_provider: Ok(offering("on-provider", "canonical")),
        provider_default: Some(offering("provider-default", "canonical")),
        selected: Ok(offering("selected", "p")),
        default: Ok(offering("default", "d")),
    }
}

#[test]
fn wanted_providers_decide_first() {
    assert_eq!(
        resolve_run_model(Some("m"), Some("alias"), answers()),
        Ok(offering("on-provider", "canonical"))
    );
    assert_eq!(
        resolve_run_model(None, Some("alias"), answers()),
        Ok(offering("provider-default", "canonical"))
    );
    let mut unheard = answers();
    unheard.provider = None;
    assert_eq!(
        resolve_run_model(Some("m"), Some("alias"), unheard),
        Err(ModelSelectionError::UnknownProvider {
            provider: "alias".to_string()
        })
    );
    let mut unavailable = answers();
    unavailable.eligible = vec![Some("other".to_string()), None];
    assert_eq!(
        resolve_run_model(Some("m"), Some("alias"), unavailable),
        Err(ModelSelectionError::ProviderUnavailable {
            provider: "canonical".to_string()
        })
    );
    let mut no_default = answers();
    no_default.provider_default = None;
    assert_eq!(
        resolve_run_model(None, Some("alias"), no_default),
        Err(ModelSelectionError::UnknownSelectorOnProvider {
            selector: "<default model>".to_string(),
            provider: "canonical".to_string(),
        })
    );
}

#[test]
fn unknown_models_are_kept_as_written() {
    let mut on_provider = answers();
    on_provider.on_provider = Err(ModelSelectionError::UnknownSelectorOnProvider {
        selector: "m".to_string(),
        provider: "canonical".to_string(),
    });
    assert_eq!(
        resolve_run_model(Some("m"), Some("alias"), on_provider),
        Ok(offering("m", "canonical"))
    );
    let mut anywhere = answers();
    anywhere.selected = Err(unknown("m"));
    assert_eq!(
        resolve_run_model(Some("m"), Some(""), anywhere),
        Ok(offering("m", "d"))
    );
    let mut other = answers();
    other.selected = Err(ModelSelectionError::Other("ambiguous".to_string()));
    assert_eq!(
        resolve_run_model(Some("m"), None, other),
        Err(ModelSelectionError::Other("ambiguous".to_string()))
    );
    assert_eq!(
        resolve_run_model(None, None, answers()),
        Ok(offering("default", "d"))
    );
}

// ---- Validating ----

fn input() -> ValidateInput<&'static str> {
    let mut vars = TextMap::new();
    vars.insert("owner".to_string(), "payments".to_string());
    ValidateInput {
        workflow: Json::Text("flow.fabro".to_string()),
        settings: Json::Null,
        vars,
        cwd: "/workspace".to_string(),
        custom_transforms: vec!["upper"],
    }
}

fn resolved() -> Result<ResolvedWorkflow<&'static str>, String> {
    Ok(ResolvedWorkflow {
        raw_source: "digraph {}".to_string(),
        goal_override: Some("goal".to_string()),
        current_dir: Some("/workspace/flows".to_string()),
        file_resolver: "resolver",
        dot_path: Some("flow.fabro".to_string()),
        settings: Json::Bool(true),
        default_provider: Some("openai".to_string()),
    })
}

#[test]
fn validation_resolves_the_workflow_first() {
    let request = input().resolve_request();
    assert_eq!(request.workflow, Json::Text("flow.fabro".to_string()));
    assert_eq!(request.cwd, "/workspace");
    assert_eq!(
        validate::<&str, &str>(input(), Err("no such workflow".to_string())),
        Err(Error::Parse("no such workflow".to_string()))
    );
}

#[test]
fn validation_without_a_catalog_leaves_models_alone() {
    let request = validate(input(), resolved()).unwrap();
    assert_eq!(request.raw_source, "digraph {}");
    assert_eq!(request.goal_override.as_deref(), Some("goal"));
    assert_eq!(request.current_dir.as_deref(), Some("/workspace/flows"));
    assert_eq!(request.file_resolver, "resolver");
    assert_eq!(request.source_name.as_deref(), Some("flow.fabro"));
    assert_eq!(request.settings, Json::Bool(true));
    assert_eq!(request.vars.get("owner"), Some(&"payments".to_string()));
    assert_eq!(request.render_mode, RenderMode::Skeleton);
    assert_eq!(request.custom_transforms, vec!["upper"]);
    assert_eq!(request.model_resolution, None);
}

#[test]
fn validation_with_providers_resolves_models_to_them() {
    let all = validate_with_catalog(input(), resolved(), &texts(&["b", "a"]))
        .unwrap()
        .model_resolution
        .unwrap();
    assert_eq!(all.default_provider.as_deref(), Some("openai"));
    assert_eq!(all.eligible_providers.into_vec(), texts(&["a", "b"]));
    assert!(!all.catalog_fallback);
    let ready = validate_with_ready_providers(input(), resolved(), &vec![])
        .unwrap()
        .model_resolution
        .unwrap();
    assert!(ready.eligible_providers.is_empty());
    assert!(ready.catalog_fallback);
}

// ---- Maps and sets of texts ----

#[test]
fn maps_keep_one_value_for_each_key() {
    let mut map: TextMap<u8> = TextMap::new();
    map.insert("b".to_string(), 1);
    map.insert("a".to_string(), 2);
    map.insert("b".to_string(), 3);
    assert_eq!(map.len(), 2);
    assert_eq!(map.get("b"), Some(&3));
    assert!(map.contains_key("a"));
    let mut other = TextMap::new();
    other.insert("a".to_string(), 9);
    other.insert("c".to_string(), 8);
    map.extend(other);
    assert_eq!(map.get("a"), Some(&9));
    assert_eq!(map.remove("b"), Some(3));
    assert_eq!(map.remove("b"), None);
    assert_eq!(map.len(), 2);
}

#[test]
fn sets_list_their_texts_in_order() {
    let set = TextSet::of(&texts(&["b", "\u{e9}", "a", "", "b", "ab"]));
    assert!(set.contains("ab"));
    assert!(!set.contains("c"));
    assert_eq!(set.into_vec(), texts(&["", "a", "ab", "b", "\u{e9}"]));
}
