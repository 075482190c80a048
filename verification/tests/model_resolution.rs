use fabro::graph::{AttrValue, Graph, Node};
use fabro::model_resolution::{
    apply_nodes, resolve_model, ModelQuery, ModelResolutionTransform, ModelSelectionError, Offering,
};

/// A catalog of offerings: provider, model, aliases. The first is the default.
struct Catalog {
    offerings: &'static [(&'static str, &'static str, &'static [&'static str])],
}

const BUILTIN: Catalog = Catalog {
    offerings: &[
        ("anthropic", "sonnet-4-5", &[]),
        ("openai", "gpt-5.4", &["gpt-54"]),
    ],
};

const CUSTOM: Catalog = Catalog {
    offerings: &[("venice", "venice-large", &["vl"])],
};

fn offering(id: &str, provider: &str) -> Offering {
    Offering {
        id: id.to_string(),
        provider: provider.to_string(),
    }
}

impl Catalog {
    fn providers(&self) -> Vec<String> {
        self.offerings.iter().map(|(provider, _, _)| provider.to_string()).collect()
    }

    fn default_offering(&self) -> Result<Offering, ModelSelectionError> {
        let (provider, model, _) = self.offerings[0];
        Ok(offering(model, provider))
    }

    fn select(&self, query: &ModelQuery) -> Result<Offering, ModelSelectionError> {
        if let Some(provider) = &query.provider {
            if !self.providers().contains(provider) {
                return Err(ModelSelectionError::UnknownProvider {
                    provider: provider.clone(),
                });
            }
        }
        let found = self.offerings.iter().find(|(provider, model, aliases)| {
            query.provider.as_deref().is_none_or(|wanted| wanted == *provider)
                && (*model == query.model || aliases.contains(&query.model.as_str()))
        });
        match (found, &query.provider) {
            (Some((provider, model, _)), _) => Ok(offering(model, provider)),
            (None, Some(provider)) => Err(ModelSelectionError::UnknownSelectorOnProvider {
                selector: query.model.clone(),
                provider: provider.clone(),
            }),
            (None, None) => Err(ModelSelectionError::UnknownSelector {
                selector: query.model.clone(),
            }),
        }
    }

    fn resolve(&self, query: &ModelQuery) -> Result<Offering, ModelSelectionError> {
        resolve_model(&query.model, self.select(query), self.default_offering())
    }
}

fn apply(
    transform: &ModelResolutionTransform,
    catalog: &Catalog,
    graph: Graph,
) -> Result<Graph, ModelSelectionError> {
    let graph = match transform.default_query(&graph) {
        Some(query) => ModelResolutionTransform::apply_default(graph, catalog.resolve(&query)?),
        None => graph,
    };
    let answers = transform
        .node_queries(&graph)
        .iter()
        .map(|query| query.as_ref().map(|query| catalog.resolve(query)))
        .collect();
    apply_nodes(graph, answers)
}

fn builtin(graph: Graph) -> Graph {
    apply(&ModelResolutionTransform::new(BUILTIN.providers()), &BUILTIN, graph).unwrap()
}

fn text(value: &str) -> AttrValue {
    AttrValue::String(value.to_string())
}

fn graph_with_node(attrs: &[(&str, &str)]) -> Graph {
    let mut graph = Graph::new();
    let mut node = Node::new("a");
    for (name, value) in attrs {
        node.attrs.insert(name.to_string(), text(value));
    }
    graph.nodes.insert("a".to_string(), node);
    graph
}

fn node_attr(graph: &Graph, name: &str) -> Option<String> {
    graph.nodes.get("a").and_then(|node| node.attr(name)).cloned()
}

#[test]
fn provider_inference_sets_provider_from_catalog() {
    let graph = builtin(graph_with_node(&[("model", "sonnet-4-5")]));
    assert_eq!(node_attr(&graph, "provider").as_deref(), Some("anthropic"));
}

#[test]
fn explicit_provider_allows_unknown_model_passthrough() {
    let graph = builtin(graph_with_node(&[
        ("model", "sonnet-4-5"),
        ("provider", "openai"),
    ]));
    assert_eq!(node_attr(&graph, "provider").as_deref(), Some("openai"));
    assert_eq!(node_attr(&graph, "model").as_deref(), Some("sonnet-4-5"));
}

#[test]
fn provider_inference_unknown_model_pins_default_eligible_provider() {
    let graph = builtin(graph_with_node(&[("model", "unknown-model-xyz")]));
    assert_eq!(node_attr(&graph, "provider").as_deref(), Some("anthropic"));
}

#[test]
fn provider_inference_no_model_no_change() {
    let graph = builtin(graph_with_node(&[]));
    assert_eq!(node_attr(&graph, "provider"), None);
}

#[test]
fn model_resolution_resolves_alias_to_canonical_id() {
    let graph = builtin(graph_with_node(&[("model", "gpt-54")]));
    assert_eq!(node_attr(&graph, "model").as_deref(), Some("gpt-5.4"));
    assert_eq!(node_attr(&graph, "provider").as_deref(), Some("openai"));
}

#[test]
fn model_resolution_keeps_canonical_id_unchanged() {
    let graph = builtin(graph_with_node(&[("model", "gpt-5.4")]));
    assert_eq!(node_attr(&graph, "model").as_deref(), Some("gpt-5.4"));
}

#[test]
fn model_resolution_uses_injected_catalog_for_alias_and_provider() {
    let transform = ModelResolutionTransform::new(CUSTOM.providers());
    let graph = apply(&transform, &CUSTOM, graph_with_node(&[("model", "vl")])).unwrap();
    assert_eq!(node_attr(&graph, "model").as_deref(), Some("venice-large"));
    assert_eq!(node_attr(&graph, "provider").as_deref(), Some("venice"));
}

#[test]
fn graph_default_alias_materializes_to_canonical_offering() {
    let mut graph = Graph::new();
    graph.attrs.insert("default_model".to_string(), text("vl"));
    let transform = ModelResolutionTransform::new(CUSTOM.providers());
    let graph = apply(&transform, &CUSTOM, graph).unwrap();
    assert_eq!(graph.attrs.get("default_model"), Some(&text("venice-large")));
    assert_eq!(graph.attrs.get("default_provider"), Some(&text("venice")));
}

#[test]
fn the_transform_wins_over_the_graph_and_the_node_over_both() {
    let transform = ModelResolutionTransform::for_eligible(vec!["p".to_string()])
        .with_default_provider(Some("mine".to_string()));
    assert_eq!(transform.eligible_providers, vec!["p".to_string()]);
    let mut graph = graph_with_node(&[("model", "m"), ("provider", "")]);
    graph.attrs.insert("default_provider".to_string(), text("graphs"));
    graph.attrs.insert("default_model".to_string(), text("d"));
    assert_eq!(
        transform.default_query(&graph),
        Some(ModelQuery {
            model: "d".to_string(),
            provider: Some("mine".to_string()),
        })
    );
    let queries = transform.node_queries(&graph);
    assert_eq!(queries.len(), 1);
    assert_eq!(queries[0].as_ref().unwrap().provider.as_deref(), Some("mine"));

    let open = ModelResolutionTransform::new(vec![]);
    assert_eq!(
        open.node_queries(&graph)[0].as_ref().unwrap().provider.as_deref(),
        Some("graphs")
    );
    let own = graph_with_node(&[("model", "m"), ("provider", "own")]);
    assert_eq!(
        transform.node_queries(&own)[0].as_ref().unwrap().provider.as_deref(),
        Some("own")
    );
}

#[test]
fn selection_errors_are_passed_on() {
    let unknown = ModelSelectionError::UnknownProvider {
        provider: "nobody".to_string(),
    };
    let graph = graph_with_node(&[("model", "m"), ("provider", "nobody")]);
    let transform = ModelResolutionTransform::new(BUILTIN.providers());
    assert_eq!(apply(&transform, &BUILTIN, graph), Err(unknown));

    let unavailable = || ModelSelectionError::ProviderUnavailable {
        provider: "p".to_string(),
    };
    assert_eq!(
        resolve_model("m", Err(unavailable()), Ok(offering("d", "p"))),
        Err(unavailable())
    );
    assert_eq!(
        resolve_model(
            "m",
            Err(ModelSelectionError::UnknownSelector {
                selector: "m".to_string()
            }),
            Err(ModelSelectionError::Other("no default".to_string()))
        ),
        Err(ModelSelectionError::Other("no default".to_string()))
    );
}

#[test]
fn each_node_gets_the_selection_for_its_own_model() {
    let mut graph = Graph::new();
    for (id, attrs) in [
        ("alias", vec![("model", "sonnet")]),
        ("bare", vec![]),
        ("pinned", vec![("model", "custom"), ("provider", "openai")]),
    ] {
        let mut node = Node::new(id);
        for (name, value) in attrs {
            node.attrs.insert(name.to_string(), text(value));
        }
        graph.nodes.insert(id.to_string(), node);
    }
    let transform = ModelResolutionTransform::new(BUILTIN.providers());
    let wanted: Vec<Option<(String, Option<String>)>> = transform
        .node_queries(&graph)
        .into_iter()
        .map(|query| query.map(|query| (query.model, query.provider)))
        .collect();
    assert_eq!(
        wanted,
        vec![
            Some(("sonnet".to_string(), None)),
            None,
            Some(("custom".to_string(), Some("openai".to_string()))),
        ]
    );
    let answers = vec![
        Some(Ok(offering("first", "p1"))),
        None,
        Some(Ok(offering("second", "p2"))),
    ];
    let graph = apply_nodes(graph, answers).unwrap();
    let attr = |id: &str, name: &str| graph.nodes.get(id).and_then(|n| n.attr(name)).cloned();
    assert_eq!(attr("alias", "model").as_deref(), Some("first"));
    assert_eq!(attr("alias", "provider").as_deref(), Some("p1"));
    assert_eq!(attr("bare", "model"), None);
    assert_eq!(attr("bare", "provider"), None);
    assert_eq!(attr("pinned", "model").as_deref(), Some("second"));
    assert_eq!(attr("pinned", "provider").as_deref(), Some("p2"));
}
