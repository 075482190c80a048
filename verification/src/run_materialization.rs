//! Materializing a run: its model and provider are settled, its goal is taken from the
//! graph, and a pull request that is switched off is dropped.

use vstd::prelude::*;
use vstd::string::*;

use crate::graph::{attribute, text_attribute, AttrValue, Graph};
use crate::json::Json;
use crate::model_resolution::{either, ModelSelectionError, Offering};
use crate::run_assembly::RunGoal;
use crate::text::{opt_view, same_text, views};
use crate::text_set::TextSet;

verus! {

/// The pull-request settings of a run.
#[derive(Debug, PartialEq, Eq)]
pub struct PullRequestSettings {
    pub enabled: bool,
    pub body: Json,
}

/// The settings of a run that materializing reads and changes.
#[derive(Debug, PartialEq, Eq)]
pub struct RunSettings {
    pub model_name: Option<String>,
    pub model_provider: Option<String>,
    pub goal: Option<RunGoal>,
    pub pull_request: Option<PullRequestSettings>,
    pub body: Json,
}

/// The text, unless it is empty.
pub open spec fn nonempty(text: Option<Seq<char>>) -> Option<Seq<char>> {
    match text {
        Some(t) => if t.len() == 0 {
            None
        } else {
            Some(t)
        },
        None => None,
    }
}

/// What the catalog is asked for.
#[derive(Debug, PartialEq, Eq)]
pub struct SelectionQuery {
    pub model: Option<String>,
    pub provider: Option<String>,
    pub eligible: TextSet,
    pub fallback: Option<TextSet>,
}

/// The model that a run asks for: that of the settings, else the default of the graph.
pub open spec fn wanted_model(settings: RunSettings, graph: Graph) -> Option<Seq<char>> {
    either(opt_view(settings.model_name), attribute(graph.attrs, "default_model"@))
}

/// The provider that a run asks for: that of the settings, else the default of the
/// graph; none where that is empty.
pub open spec fn wanted_provider(settings: RunSettings, graph: Graph) -> Option<Seq<char>> {
    nonempty(either(opt_view(settings.model_provider), attribute(graph.attrs, "default_provider"@)))
}

fn clone_attribute(text: Option<&String>) -> (r: Option<String>)
    ensures
        match text {
            Some(t) => r == Some(*t),
            None => r is None,
        },
{
    match text {
        Some(t) => Some(t.clone()),
        None => None,
    }
}

fn selection_query(
    settings: &RunSettings,
    graph: &Graph,
    configured_providers: &Vec<String>,
    fallback_providers: Option<&Vec<String>>,
) -> (r: SelectionQuery)
    ensures
        opt_view(r.model) == wanted_model(*settings, *graph),
        opt_view(r.provider) == wanted_provider(*settings, *graph),
        r.eligible@ == views(configured_providers@).to_set(),
        match fallback_providers {
            Some(ids) => r.fallback matches Some(set) && set@ == views(ids@).to_set(),
            None => r.fallback is None,
        },
{
    let model = match &settings.model_name {
        Some(name) => Some(name.clone()),
        None => clone_attribute(text_attribute(&graph.attrs, "default_model")),
    };
    let named = match &settings.model_provider {
        Some(name) => Some(name.clone()),
        None => clone_attribute(text_attribute(&graph.attrs, "default_provider")),
    };
    let provider = match named {
        Some(name) => {
            if name.as_str().unicode_len() == 0 {
                None
            } else {
                Some(name)
            }
        },
        None => None,
    };
    let fallback = match fallback_providers {
        Some(ids) => Some(TextSet::of(ids)),
        None => None,
    };
    SelectionQuery { model, provider, eligible: TextSet::of(configured_providers), fallback }
}

/// `after` are the settings of the run once the catalog has selected `selected`.
pub open spec fn materializes(
    settings: RunSettings,
    goal: Seq<char>,
    selected: Offering,
    after: RunSettings,
) -> bool {
    &&& after.model_name == Some(selected.id)
    &&& after.model_provider == Some(selected.provider)
    &&& if goal.len() == 0 {
        after.goal is None
    } else {
        after.goal matches Some(RunGoal::Inline(text)) && text@ == goal
    }
    &&& after.pull_request == (match settings.pull_request {
        Some(pull_request) => if pull_request.enabled {
            Some(pull_request)
        } else {
            None
        },
        None => None,
    })
    &&& after.body == settings.body
}

/// A run whose model and provider the catalog is still to select.
#[derive(Debug, PartialEq, Eq)]
pub struct UnmaterializedRun {
    pub settings: RunSettings,
    pub query: SelectionQuery,
}

/// The run waits for the catalog to answer what its settings and its graph ask for.
pub open spec fn awaits_selection(
    run: UnmaterializedRun,
    settings: RunSettings,
    graph: Graph,
    configured: Seq<Seq<char>>,
) -> bool {
    &&& run.settings == settings
    &&& opt_view(run.query.model) == wanted_model(settings, graph)
    &&& opt_view(run.query.provider) == wanted_provider(settings, graph)
    &&& run.query.eligible@ == configured.to_set()
}

/// Begins to materialize a run: the catalog is to select a model among the configured
/// providers.
pub fn materialize_run(
    settings: RunSettings,
    graph: &Graph,
    configured_providers: &Vec<String>,
) -> (r: UnmaterializedRun)
    ensures
        awaits_selection(r, settings, *graph, views(configured_providers@)),
        r.query.fallback is None,
{
    let query = selection_query(&settings, graph, configured_providers, None);
    UnmaterializedRun { settings, query }
}

/// Begins to materialize a run: the catalog is to select a model among the preferred
/// providers, else among those to fall back to.
pub fn materialize_run_with_provider_fallback(
    settings: RunSettings,
    graph: &Graph,
    preferred_providers: &Vec<String>,
    fallback_providers: &Vec<String>,
) -> (r: UnmaterializedRun)
    ensures
        awaits_selection(r, settings, *graph, views(preferred_providers@)),
        r.query.fallback matches Some(set) && set@ == views(fallback_providers@).to_set(),
{
    let query = selection_query(&settings, graph, preferred_providers, Some(fallback_providers));
    UnmaterializedRun { settings, query }
}

impl UnmaterializedRun {
    /// Materializes the run: `goal` is that of its graph, `selected` what the catalog gave
    /// for its query.
    pub fn finish(self, goal: &str, selected: Result<Offering, ModelSelectionError>) -> (r: Result<
        RunSettings,
        ModelSelectionError,
    >)
        ensures
            match (selected, r) {
                (Ok(offering), Ok(after)) => materializes(self.settings, goal@, offering, after),
                (Err(error), Err(e)) => e == error,
                _ => false,
            },
    {
        let offering = match selected {
            Ok(offering) => offering,
            Err(error) => {
                return Err(error);
            },
        };
        let settings = self.settings;
        let run_goal = if goal.unicode_len() == 0 {
            None
        } else {
            Some(RunGoal::Inline(goal.to_owned()))
        };
        let pull_request = match settings.pull_request {
            Some(pull_request) => {
                if pull_request.enabled {
                    Some(pull_request)
                } else {
                    None
                }
            },
            None => None,
        };
        Ok(
            RunSettings {
                model_name: Some(offering.id),
                model_provider: Some(offering.provider),
                goal: run_goal,
                pull_request,
                body: settings.body,
            },
        )
    }
}

// ---- Selecting step by step ----

/// What the catalog answers about the model of a run.
#[derive(Debug, PartialEq, Eq)]
pub struct RunModelAnswers {
    /// The canonical id of the provider that is wanted, where the catalog knows it.
    pub provider: Option<String>,
    /// The canonical ids of the eligible providers, where the catalog knows them.
    pub eligible: Vec<Option<String>>,
    /// What resolving the wanted model on that provider gives.
    pub on_provider: Result<Offering, ModelSelectionError>,
    /// What that provider offers by default.
    pub provider_default: Option<Offering>,
    /// What the catalog selects for the wanted model among the eligible providers.
    pub selected: Result<Offering, ModelSelectionError>,
    /// What it offers by default among the eligible providers.
    pub default: Result<Offering, ModelSelectionError>,
}

/// The provider is among the eligible ones.
pub open spec fn is_eligible(eligible: Seq<Option<String>>, provider: Seq<char>) -> bool {
    exists|i: int| 0 <= i < eligible.len() && opt_view(#[trigger] eligible[i]) == Some(provider)
}

/// The model of a run on the provider that is wanted.
pub open spec fn selects_on_provider(
    model: Option<Seq<char>>,
    requested: Seq<char>,
    answers: RunModelAnswers,
    r: Result<Offering, ModelSelectionError>,
) -> bool {
    match answers.provider {
        None => r matches Err(ModelSelectionError::UnknownProvider { provider }) && provider@
            == requested,
        Some(canonical) => if !is_eligible(answers.eligible@, canonical@) {
            r == Err::<Offering, ModelSelectionError>(
                ModelSelectionError::ProviderUnavailable { provider: canonical },
            )
        } else {
            match model {
                Some(name) => match answers.on_provider {
                    Ok(offering) => r == Ok::<Offering, ModelSelectionError>(offering),
                    Err(ModelSelectionError::UnknownSelectorOnProvider { .. }) => r matches Ok(
                        offering,
                    ) && offering.id@ == name && offering.provider == canonical,
                    Err(error) => r == Err::<Offering, ModelSelectionError>(error),
                },
                None => match answers.provider_default {
                    Some(offering) => r == Ok::<Offering, ModelSelectionError>(offering),
                    None => r matches Err(
                        ModelSelectionError::UnknownSelectorOnProvider { selector, provider },
                    ) && selector@ == "<default model>"@ && provider == canonical,
                },
            }
        },
    }
}

/// The model of a run where no provider is wanted.
pub open spec fn selects_anywhere(
    model: Option<Seq<char>>,
    answers: RunModelAnswers,
    r: Result<Offering, ModelSelectionError>,
) -> bool {
    match model {
        Some(name) => match answers.selected {
            Ok(offering) => r == Ok::<Offering, ModelSelectionError>(offering),
            Err(ModelSelectionError::UnknownSelector { .. }) => match answers.default {
                Ok(offering) => r matches Ok(resolved) && resolved.id@ == name && resolved.provider
                    == offering.provider,
                Err(error) => r == Err::<Offering, ModelSelectionError>(error),
            },
            Err(error) => r == Err::<Offering, ModelSelectionError>(error),
        },
        None => r == answers.default,
    }
}

fn provider_eligible(eligible: &Vec<Option<String>>, provider: &str) -> (b: bool)
    ensures
        b == is_eligible(eligible@, provider@),
{
    let mut i: usize = 0;
    while i < eligible.len()
        invariant
            i <= eligible@.len(),
            forall|j: int| 0 <= j < i ==> opt_view(#[trigger] eligible@[j]) != Some(provider@),
        decreases eligible@.len() - i,
    {
        if let Some(id) = &eligible[i] {
            if same_text(id.as_str(), provider) {
                proof {
                    assert(opt_view(eligible@[i as int]) == Some(provider@));
                }
                return true;
            }
        }
        i += 1;
    }
    false
}

/// Settles the model and the provider of a run by the answers of the catalog. An
/// unknown model passes through as it is written, on the wanted provider or on that of
/// the default offering.
pub fn resolve_run_model(
    model: Option<&str>,
    provider: Option<&str>,
    answers: RunModelAnswers,
) -> (r: Result<Offering, ModelSelectionError>)
    ensures
        ({
            let name = match model {
                Some(m) => Some(m@),
                None => None,
            };
            let wanted = nonempty(
                match provider {
                    Some(p) => Some(p@),
                    None => None,
                },
            );
            match wanted {
                Some(requested) => selects_on_provider(name, requested, answers, r),
                None => selects_anywhere(name, answers, r),
            }
        }),
{
    if let Some(requested) = provider {
        if requested.unicode_len() > 0 {
            let canonical = match answers.provider {
                Some(canonical) => canonical,
                None => {
                    return Err(
                        ModelSelectionError::UnknownProvider { provider: requested.to_owned() },
                    );
                },
            };
            if !provider_eligible(&answers.eligible, canonical.as_str()) {
                return Err(ModelSelectionError::ProviderUnavailable { provider: canonical });
            }
            return match model {
                Some(name) => match answers.on_provider {
                    Ok(offering) => Ok(offering),
                    Err(ModelSelectionError::UnknownSelectorOnProvider { .. }) => Ok(
                        Offering { id: name.to_owned(), provider: canonical },
                    ),
                    Err(error) => Err(error),
                },
                None => match answers.provider_default {
                    Some(offering) => Ok(offering),
                    None => Err(
                        ModelSelectionError::UnknownSelectorOnProvider {
                            selector: "<default model>".to_owned(),
                            provider: canonical,
                        },
                    ),
                },
            };
        }
    }
    match model {
        Some(name) => match answers.selected {
            Ok(offering) => Ok(offering),
            Err(ModelSelectionError::UnknownSelector { .. }) => match answers.default {
                Ok(offering) => Ok(
                    Offering { id: name.to_owned(), provider: offering.provider },
                ),
                Err(error) => Err(error),
            },
            Err(error) => Err(error),
        },
        None => answers.default,
    }
}

/// The settings of a run win over the defaults of its graph.
pub proof fn settings_win_over_the_graph(settings: RunSettings, graph: Graph)
    ensures
        settings.model_name matches Some(name) ==> wanted_model(settings, graph) == Some(name@),
        settings.model_provider matches Some(name) ==> (name@.len() > 0 ==> wanted_provider(
            settings,
            graph,
        ) == Some(name@)),
{
}

/// A model that is named but not known to the catalog is kept as it is written, as long
/// as there is a default offering to take the provider from.
pub proof fn unknown_models_pass_through(
    name: Seq<char>,
    answers: RunModelAnswers,
    r: Result<Offering, ModelSelectionError>,
)
    requires
        selects_anywhere(Some(name), answers, r),
        answers.selected matches Err(ModelSelectionError::UnknownSelector { .. }),
        answers.default is Ok,
    ensures
        r matches Ok(offering) && offering.id@ == name,
{
}

/// The attribute of a graph is set to this text.
pub open spec fn set_to(graph: Graph, name: Seq<char>, text: Seq<char>) -> bool {
    graph.attrs@.dom().contains(name) && (graph.attrs@[name] matches AttrValue::String(value)
        && value@ == text)
}

/// The catalog is asked for the model that the settings name, else for the default of the
/// graph, and for the provider likewise; an empty provider is none. Without a fallback only
/// the configured providers are asked.
pub proof fn the_catalog_is_asked_for_what_the_run_names(
    settings: RunSettings,
    graph: &Graph,
    configured: &Vec<String>,
    r: UnmaterializedRun,
    text: Seq<char>,
)
    requires
        call_ensures(materialize_run, (settings, graph, configured), r),
    ensures
        r.settings == settings,
        r.query.fallback is None,
        settings.model_name matches Some(name) ==> (r.query.model matches Some(model) && model@
            == name@),
        settings.model_name is None && set_to(*graph, "default_model"@, text) ==> (
        r.query.model matches Some(model) && model@ == text),
        settings.model_name is None && !graph.attrs@.dom().contains("default_model"@)
            ==> r.query.model is None,
        settings.model_provider matches Some(name) ==> (name@.len() > 0 ==> (
        r.query.provider matches Some(provider) && provider@ == name@)),
        settings.model_provider matches Some(name) ==> (name@.len() == 0 ==> r.query.provider
            is None),
        settings.model_provider is None && set_to(*graph, "default_provider"@, text) && text.len()
            > 0 ==> (r.query.provider matches Some(provider) && provider@ == text),
        settings.model_provider is None && !graph.attrs@.dom().contains("default_provider"@)
            ==> r.query.provider is None,
        r.query.eligible@.contains(text) <==> exists|i: int|
            0 <= i < configured@.len() && #[trigger] configured@[i]@ == text,
{
    lemma_listed(configured@, text);
}

proof fn lemma_listed(list: Seq<String>, text: Seq<char>)
    ensures
        views(list).to_set().contains(text) <==> exists|i: int|
            0 <= i < list.len() && #[trigger] list[i]@ == text,
{
    let names = views(list);
    if names.to_set().contains(text) {
        let i = choose|i: int| 0 <= i < names.len() && names[i] == text;
        assert(list[i]@ == text);
    }
    if exists|i: int| 0 <= i < list.len() && #[trigger] list[i]@ == text {
        let i = choose|i: int| 0 <= i < list.len() && #[trigger] list[i]@ == text;
        assert(names[i] == text);
    }
}

/// With a fallback, the preferred providers are asked for the same model on the same
/// provider, and the others stand by.
pub proof fn fallbacks_change_only_whom_to_ask(
    settings: RunSettings,
    graph: &Graph,
    preferred: &Vec<String>,
    others: &Vec<String>,
    plain: UnmaterializedRun,
    r: UnmaterializedRun,
    text: Seq<char>,
)
    requires
        call_ensures(materialize_run, (settings, graph, preferred), plain),
        call_ensures(
            materialize_run_with_provider_fallback,
            (settings, graph, preferred, others),
            r,
        ),
    ensures
        r.settings == plain.settings,
        opt_view(r.query.model) == opt_view(plain.query.model),
        opt_view(r.query.provider) == opt_view(plain.query.provider),
        r.query.eligible@ == plain.query.eligible@,
        r.query.fallback matches Some(set) && (set@.contains(text) <==> exists|i: int|
            0 <= i < others@.len() && #[trigger] others@[i]@ == text),
{
    lemma_listed(others@, text);
}

/// A run is materialized with the model and the provider that were selected, the goal of
/// its graph where it has one, and its pull request only where it is switched on; a
/// selection that failed is passed on.
pub proof fn materialized_runs_have_what_was_selected(
    run: UnmaterializedRun,
    goal: &str,
    selected: Result<Offering, ModelSelectionError>,
    r: Result<RunSettings, ModelSelectionError>,
)
    requires
        call_ensures(UnmaterializedRun::finish, (run, goal, selected), r),
    ensures
        selected matches Err(error) ==> r == Err::<RunSettings, ModelSelectionError>(error),
        selected matches Ok(offering) ==> (r matches Ok(after) && {
            &&& after.model_name == Some(offering.id)
            &&& after.model_provider == Some(offering.provider)
            &&& after.body == run.settings.body
            &&& goal@.len() == 0 <==> after.goal is None
            &&& goal@.len() > 0 ==> (after.goal matches Some(RunGoal::Inline(text)) && text@
                == goal@)
            &&& after.pull_request is Some <==> (run.settings.pull_request matches Some(asked)
                && asked.enabled)
            &&& after.pull_request is Some ==> after.pull_request == run.settings.pull_request
        }),
{
}

/// A provider that is named must be known and eligible; on it, the model that is named is
/// taken as the catalog resolves it, or as it is written where the provider does not know
/// it, and the provider's default where none is named.
pub proof fn named_providers_are_kept_to(
    model: Option<&str>,
    provider: &str,
    answers: RunModelAnswers,
    r: Result<Offering, ModelSelectionError>,
)
    requires
        call_ensures(resolve_run_model, (model, Some(provider), answers), r),
        provider@.len() > 0,
    ensures
        answers.provider is None ==> (r matches Err(
            ModelSelectionError::UnknownProvider { provider: unknown },
        ) && unknown@ == provider@),
        answers.provider matches Some(canonical) ==> {
            let eligible = exists|i: int|
                0 <= i < answers.eligible@.len() && (#[trigger] answers.eligible@[i] matches Some(id)
                    && id@ == canonical@);
            &&& !eligible ==> r == Err::<Offering, ModelSelectionError>(
                ModelSelectionError::ProviderUnavailable { provider: canonical },
            )
            &&& eligible && model is None && answers.provider_default is Some ==> r == Ok::<
                Offering,
                ModelSelectionError,
            >(answers.provider_default->0)
            &&& eligible && model is None && answers.provider_default is None ==> (r matches Err(
                ModelSelectionError::UnknownSelectorOnProvider { selector, provider: named },
            ) && selector@ == "<default model>"@ && named == canonical)
            &&& eligible && model is Some && answers.on_provider is Ok ==> r
                == answers.on_provider
            &&& eligible && model is Some && answers.on_provider is Err ==> (
            if answers.on_provider->Err_0 is UnknownSelectorOnProvider {
                r matches Ok(offering) && offering.id@ == model->0@ && offering.provider
                    == canonical
            } else {
                r == answers.on_provider
            })
        },
{
    if let Some(canonical) = answers.provider {
        assert(is_eligible(answers.eligible@, canonical@) <==> exists|i: int|
            0 <= i < answers.eligible@.len() && (#[trigger] answers.eligible@[i] matches Some(id)
                && id@ == canonical@)) by {
            if is_eligible(answers.eligible@, canonical@) {
                let i = choose|i: int|
                    0 <= i < answers.eligible@.len() && opt_view(#[trigger] answers.eligible@[i])
                        == Some(canonical@);
                assert(answers.eligible@[i] matches Some(id) && id@ == canonical@);
            }
        }
    }
}

/// Where no provider is named, or an empty one, the model is what the catalog selects for
/// it; one that the catalog does not know is kept as it is written, on the provider of the
/// default offering; and the default offering is taken where no model is named.
pub proof fn models_are_selected_anywhere(
    model: Option<&str>,
    provider: Option<&str>,
    answers: RunModelAnswers,
    r: Result<Offering, ModelSelectionError>,
)
    requires
        call_ensures(resolve_run_model, (model, provider, answers), r),
        provider matches Some(name) ==> name@.len() == 0,
    ensures
        model is None ==> r == answers.default,
        model is Some && answers.selected is Ok ==> r == answers.selected,
        model is Some && answers.selected is Err && !(answers.selected->Err_0 is UnknownSelector)
            ==> r == answers.selected,
        model is Some && answers.selected is Err && answers.selected->Err_0 is UnknownSelector ==> (
        match answers.default {
            Ok(offering) => r matches Ok(kept) && kept.id@ == model->0@ && kept.provider
                == offering.provider,
            Err(error) => r == answers.default,
        }),
{
}

} // verus!
