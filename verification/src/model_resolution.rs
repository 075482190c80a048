//! Resolving the models of a graph to what the model catalog offers.
//!
//! The catalog is asked by the caller: the transform says which models it wants to
//! know of, and takes the answers.

use vstd::prelude::*;

use crate::graph::{attribute, text_attribute, AttrValue, Graph, Node};
use crate::text::opt_view;
use crate::text_map::{keys_distinct, TextMap};

verus! {

/// What the catalog offers: a model by its canonical id, on a provider.
#[derive(Debug, PartialEq, Eq)]
pub struct Offering {
    pub id: String,
    pub provider: String,
}

/// Why the catalog did not select a model.
#[derive(Debug, PartialEq, Eq)]
pub enum ModelSelectionError {
    UnknownProvider { provider: String },
    ProviderUnavailable { provider: String },
    UnknownSelector { selector: String },
    UnknownSelectorOnProvider { selector: String, provider: String },
    Other(String),
}

/// A model that the catalog is asked for, on a provider where one is settled.
#[derive(Debug, PartialEq, Eq)]
pub struct ModelQuery {
    pub model: String,
    pub provider: Option<String>,
}

/// The text of an attribute, unless it is empty.
pub open spec fn nonempty_attribute(
    attrs: TextMap<AttrValue>,
    name: Seq<char>,
) -> Option<Seq<char>> {
    match attribute(attrs, name) {
        Some(text) => if text.len() == 0 {
            None
        } else {
            Some(text)
        },
        None => None,
    }
}

/// The first of two, if there is one, else the second.
pub open spec fn either(a: Option<Seq<char>>, b: Option<Seq<char>>) -> Option<Seq<char>> {
    match a {
        Some(text) => Some(text),
        None => b,
    }
}

fn nonempty_text(attrs: &TextMap<AttrValue>, name: &str) -> (r: Option<String>)
    ensures
        opt_view(r) == nonempty_attribute(*attrs, name@),
{
    match text_attribute(attrs, name) {
        Some(text) => {
            if crate::text::same_text(text.as_str(), "") {
                proof {
                    reveal_strlit("");
                    assert(text@.len() == 0);
                }
                None
            } else {
                proof {
                    reveal_strlit("");
                    if text@.len() == 0 {
                        assert(text@ =~= ""@);
                    }
                }
                Some(text.clone())
            }
        },
        None => None,
    }
}

fn clone_text(text: &Option<String>) -> (r: Option<String>)
    ensures
        r == *text,
{
    match text {
        Some(t) => Some(t.clone()),
        None => None,
    }
}

/// The model and provider that a query resolves to: what was selected; else, where the
/// settled provider does not know the model, the model as it was written on that
/// provider; else, where no provider knows it, the model as it was written on the
/// provider of the default offering.
pub open spec fn resolves(
    model: Seq<char>,
    selected: Result<Offering, ModelSelectionError>,
    default: Result<Offering, ModelSelectionError>,
    r: Result<Offering, ModelSelectionError>,
) -> bool {
    match selected {
        Ok(offering) => r == Ok::<Offering, ModelSelectionError>(offering),
        Err(ModelSelectionError::UnknownSelectorOnProvider { selector, provider }) => r matches Ok(
            resolved,
        ) && resolved.id@ == model && resolved.provider == provider,
        Err(ModelSelectionError::UnknownSelector { .. }) => match default {
            Ok(offering) => r matches Ok(resolved) && resolved.id@ == model && resolved.provider
                == offering.provider,
            Err(error) => r == Err::<Offering, ModelSelectionError>(error),
        },
        Err(error) => r == Err::<Offering, ModelSelectionError>(error),
    }
}

/// Resolves a query by the answers of the catalog: `selected` is what it selects for the
/// model, `default` what it offers by default.
pub fn resolve_model(
    model: &str,
    selected: Result<Offering, ModelSelectionError>,
    default: Result<Offering, ModelSelectionError>,
) -> (r: Result<Offering, ModelSelectionError>)
    ensures
        resolves(model@, selected, default, r),
{
    match selected {
        Ok(offering) => Ok(offering),
        Err(ModelSelectionError::UnknownSelectorOnProvider { selector, provider }) => Ok(
            Offering { id: model.to_owned(), provider },
        ),
        Err(ModelSelectionError::UnknownSelector { .. }) => match default {
            Ok(offering) => Ok(Offering { id: model.to_owned(), provider: offering.provider }),
            Err(error) => Err(error),
        },
        Err(error) => Err(error),
    }
}

/// Resolves model aliases to canonical ids and infers the provider from the model
/// catalog.
#[derive(Debug, PartialEq, Eq)]
pub struct ModelResolutionTransform {
    pub default_provider: Option<String>,
    pub eligible_providers: Vec<String>,
}

/// What the transform wants to know of a node: its model, on its own provider or the
/// default one.
pub open spec fn node_query(node: Node, default_provider: Option<Seq<char>>) -> Option<
    (Seq<char>, Option<Seq<char>>),
> {
    match attribute(node.attrs, "model"@) {
        Some(model) => Some(
            (model, either(nonempty_attribute(node.attrs, "provider"@), default_provider)),
        ),
        None => None,
    }
}

/// A query as a value.
pub open spec fn query_view(query: Option<ModelQuery>) -> Option<(Seq<char>, Option<Seq<char>>)> {
    match query {
        Some(q) => Some((q.model@, opt_view(q.provider))),
        None => None,
    }
}

/// Attributes with a model and a provider set under two names.
pub open spec fn with_offering(
    before: Map<Seq<char>, AttrValue>,
    model_name: Seq<char>,
    provider_name: Seq<char>,
    offering: Offering,
    after: Map<Seq<char>, AttrValue>,
) -> bool {
    after == before.insert(model_name, AttrValue::String(offering.id)).insert(
        provider_name,
        AttrValue::String(offering.provider),
    )
}

impl ModelResolutionTransform {
    /// A transform for which every provider is eligible.
    pub fn new(all_providers: Vec<String>) -> (r: Self)
        ensures
            r.default_provider is None,
            r.eligible_providers == all_providers,
    {
        ModelResolutionTransform { default_provider: None, eligible_providers: all_providers }
    }

    /// A transform for which only some providers are eligible.
    pub fn for_eligible(eligible_providers: Vec<String>) -> (r: Self)
        ensures
            r.default_provider is None,
            r.eligible_providers == eligible_providers,
    {
        ModelResolutionTransform { default_provider: None, eligible_providers }
    }

    /// The transform with another default provider.
    pub fn with_default_provider(self, provider: Option<String>) -> (r: Self)
        ensures
            r == (ModelResolutionTransform { default_provider: provider, ..self }),
    {
        let mut r = self;
        r.default_provider = provider;
        r
    }

    /// The default provider for a graph: that of the transform, else that of the graph.
    pub open spec fn graph_provider(self, graph: Graph) -> Option<Seq<char>> {
        either(
            opt_view(self.default_provider),
            nonempty_attribute(graph.attrs, "default_provider"@),
        )
    }

    fn default_provider_for(&self, graph: &Graph) -> (r: Option<String>)
        ensures
            opt_view(r) == self.graph_provider(*graph),
    {
        match &self.default_provider {
            Some(provider) => Some(provider.clone()),
            None => nonempty_text(&graph.attrs, "default_provider"),
        }
    }

    /// What is asked of the catalog for the default model of a graph.
    pub fn default_query(&self, graph: &Graph) -> (r: Option<ModelQuery>)
        ensures
            query_view(r) == (match attribute(graph.attrs, "default_model"@) {
                Some(model) => Some((model, self.graph_provider(*graph))),
                None => None,
            }),
    {
        match text_attribute(&graph.attrs, "default_model") {
            Some(model) => Some(
                ModelQuery { model: model.clone(), provider: self.default_provider_for(graph) },
            ),
            None => None,
        }
    }

    /// The graph with its default model and provider set to what was resolved.
    pub fn apply_default(graph: Graph, offering: Offering) -> (r: Graph)
        ensures
            with_offering(
                graph.attrs@,
                "default_model"@,
                "default_provider"@,
                offering,
                r.attrs@,
            ),
            r.nodes == graph.nodes,
            r.edges == graph.edges,
    {
        let mut r = graph;
        r.attrs.insert("default_model".to_owned(), AttrValue::String(offering.id));
        r.attrs.insert("default_provider".to_owned(), AttrValue::String(offering.provider));
        r
    }

    /// What is asked of the catalog for each node of a graph, in the order of the nodes;
    /// nothing for a node without a model.
    pub fn node_queries(&self, graph: &Graph) -> (r: Vec<Option<ModelQuery>>)
        ensures
            r@.len() == graph.nodes.listed().len(),
            forall|i: int|
                0 <= i < r@.len() ==> query_view(#[trigger] r@[i]) == node_query(
                    graph.nodes.listed()[i].1,
                    self.graph_provider(*graph),
                ),
    {
        let default_provider = self.default_provider_for(graph);
        let mut r: Vec<Option<ModelQuery>> = Vec::new();
        let mut i: usize = 0;
        while i < graph.nodes.len()
            invariant
                opt_view(default_provider) == self.graph_provider(*graph),
                i <= graph.nodes.listed().len(),
                r@.len() == i,
                forall|j: int|
                    0 <= j < i ==> query_view(#[trigger] r@[j]) == node_query(
                        graph.nodes.listed()[j].1,
                        self.graph_provider(*graph),
                    ),
            decreases graph.nodes.listed().len() - i,
        {
            let node = graph.nodes.value(i);
            let query = match node.attr("model") {
                Some(model) => {
                    let own = nonempty_text(&node.attrs, "provider");
                    let provider = match own {
                        Some(provider) => Some(provider),
                        None => clone_text(&default_provider),
                    };
                    Some(ModelQuery { model: model.clone(), provider })
                },
                None => None,
            };
            r.push(query);
            i += 1;
        }
        r
    }
}

/// The node after its answer: with the model and provider that were resolved, or as it
/// was where nothing was asked.
pub open spec fn node_answered(
    before: (String, Node),
    answer: Option<Result<Offering, ModelSelectionError>>,
    after: (String, Node),
) -> bool {
    &&& after.0 == before.0
    &&& after.1.id == before.1.id
    &&& after.1.handler_type == before.1.handler_type
    &&& match answer {
        Some(Ok(offering)) => with_offering(
            before.1.attrs@,
            "model"@,
            "provider"@,
            offering,
            after.1.attrs@,
        ),
        Some(Err(_)) => false,
        None => after.1.attrs == before.1.attrs,
    }
}

/// No answer before `n` is an error.
pub open spec fn answered(
    answers: Seq<Option<Result<Offering, ModelSelectionError>>>,
    n: int,
) -> bool {
    forall|i: int| 0 <= i < n ==> !(#[trigger] answers[i] matches Some(Err(_)))
}

/// `r` is the graph with the answers for its nodes put into it, or the first error among
/// the answers.
pub open spec fn nodes_applied(
    graph: Graph,
    answers: Seq<Option<Result<Offering, ModelSelectionError>>>,
    r: Result<Graph, ModelSelectionError>,
) -> bool {
    match r {
        Ok(after) => {
            &&& answered(answers, answers.len() as int)
            &&& after.attrs == graph.attrs
            &&& after.edges == graph.edges
            &&& after.nodes.listed().len() == graph.nodes.listed().len()
            &&& forall|i: int|
                #![trigger after.nodes.listed()[i]]
                0 <= i < answers.len() ==> node_answered(
                    graph.nodes.listed()[i],
                    answers[i],
                    after.nodes.listed()[i],
                )
        },
        Err(error) => exists|i: int|
            0 <= i < answers.len() && #[trigger] answers[i] == Some(
                Err::<Offering, ModelSelectionError>(error),
            ) && answered(answers, i),
    }
}

/// Puts the answers for the nodes of a graph into it, one for each node in their order.
/// The first error among them ends it.
pub fn apply_nodes(
    graph: Graph,
    answers: Vec<Option<Result<Offering, ModelSelectionError>>>,
) -> (r: Result<Graph, ModelSelectionError>)
    requires
        answers@.len() == graph.nodes.listed().len(),
    ensures
        nodes_applied(graph, answers@, r),
{
    let ghost given = answers@;
    let ghost entries = graph.nodes.listed();
    let mut rest = graph.nodes.into_entries();
    let mut queue = answers;
    let mut done: Vec<(String, Node)> = Vec::new();
    while rest.len() > 0
        invariant
            given == answers@,
            entries == graph.nodes.listed(),
            keys_distinct(entries),
            given.len() == entries.len(),
            done@.len() + rest@.len() == entries.len(),
            queue@.len() == rest@.len(),
            rest@ == entries.skip(done@.len() as int),
            queue@ == given.skip(done@.len() as int),
            answered(given, done@.len() as int),
            forall|i: int|
                #![trigger done@[i]]
                0 <= i < done@.len() ==> node_answered(entries[i], given[i], done@[i]),
        decreases rest@.len(),
    {
        let ghost at = done@.len() as int;
        let entry = rest.remove(0);
        let answer = queue.remove(0);
        proof {
            assert(entry == entries[at]);
            assert(answer == given[at]);
            assert(rest@ =~= entries.skip(at + 1));
            assert(queue@ =~= given.skip(at + 1));
        }
        match answer {
            None => {
                done.push(entry);
            },
            Some(Ok(offering)) => {
                let (key, mut node) = entry;
                node.attrs.insert("model".to_owned(), AttrValue::String(offering.id));
                node.attrs.insert("provider".to_owned(), AttrValue::String(offering.provider));
                done.push((key, node));
            },
            Some(Err(error)) => {
                return Err(error);
            },
        }
    }
    proof {
        assert forall|i: int, j: int| 0 <= i < j < done@.len() implies (#[trigger] done@[i]).0@ != (
        #[trigger] done@[j]).0@ by {
            assert(done@[i].0 == entries[i].0);
            assert(done@[j].0 == entries[j].0);
        }
    }
    Ok(Graph { attrs: graph.attrs, nodes: TextMap::from_entries(done), edges: graph.edges })
}

/// A node without a model is left as it is.
pub proof fn nodes_without_a_model_are_unchanged(
    before: (String, Node),
    default_provider: Option<Seq<char>>,
    query: Option<ModelQuery>,
    after: (String, Node),
)
    requires
        attribute(before.1.attrs, "model"@) is None,
        query_view(query) == node_query(before.1, default_provider),
        query is None ==> node_answered(before, None, after),
    ensures
        query is None,
        after.1.attrs == before.1.attrs,
{
}

/// The model and the provider that were resolved for a graph are its defaults from then
/// on, and its nodes are asked for on that provider unless the transform or the node
/// names another.
pub proof fn resolved_defaults_apply_to_the_nodes(
    transform: ModelResolutionTransform,
    before: Graph,
    offering: Offering,
    after: Graph,
)
    requires
        with_offering(
            before.attrs@,
            "default_model"@,
            "default_provider"@,
            offering,
            after.attrs@,
        ),
        offering.provider@.len() > 0,
    ensures
        attribute(after.attrs, "default_model"@) == Some(offering.id@),
        transform.graph_provider(after) == either(
            opt_view(transform.default_provider),
            Some(offering.provider@),
        ),
{
    reveal_strlit("default_model");
    reveal_strlit("default_provider");
    assert("default_model"@.len() != "default_provider"@.len());
}

/// The answer is what a query resolves to, where `select` is what the catalog selects for
/// a model on a provider and `default` what it offers by default; none where nothing was
/// asked.
pub open spec fn answers_query(
    query: Option<ModelQuery>,
    select: spec_fn(Seq<char>, Option<Seq<char>>) -> Result<Offering, ModelSelectionError>,
    default: Result<Offering, ModelSelectionError>,
    answer: Option<Result<Offering, ModelSelectionError>>,
) -> bool {
    match query {
        Some(q) => answer matches Some(r) && resolves(
            q.model@,
            select(q.model@, opt_view(q.provider)),
            default,
            r,
        ),
        None => answer is None,
    }
}

/// `r` is what the model of a node resolves to on its own provider, or on that of the
/// graph where it has none.
pub open spec fn node_resolves(
    node: Node,
    default_provider: Option<Seq<char>>,
    select: spec_fn(Seq<char>, Option<Seq<char>>) -> Result<Offering, ModelSelectionError>,
    default: Result<Offering, ModelSelectionError>,
    r: Result<Offering, ModelSelectionError>,
) -> bool {
    attribute(node.attrs, "model"@) matches Some(model) && resolves(
        model,
        select(model, either(nonempty_attribute(node.attrs, "provider"@), default_provider)),
        default,
        r,
    )
}

/// Each node with a model gets what the catalog selects for its own model and provider,
/// and a node without one is left as it is. Where a model cannot be resolved, the error
/// is that of the first such node.
pub proof fn nodes_get_the_selection_for_their_own_model(
    transform: ModelResolutionTransform,
    graph: Graph,
    queries: Seq<Option<ModelQuery>>,
    select: spec_fn(Seq<char>, Option<Seq<char>>) -> Result<Offering, ModelSelectionError>,
    default: Result<Offering, ModelSelectionError>,
    answers: Seq<Option<Result<Offering, ModelSelectionError>>>,
    r: Result<Graph, ModelSelectionError>,
)
    requires
        queries.len() == graph.nodes.listed().len(),
        forall|i: int|
            0 <= i < queries.len() ==> query_view(#[trigger] queries[i]) == node_query(
                graph.nodes.listed()[i].1,
                transform.graph_provider(graph),
            ),
        answers.len() == queries.len(),
        forall|i: int|
            0 <= i < answers.len() ==> answers_query(
                queries[i],
                select,
                default,
                #[trigger] answers[i],
            ),
        nodes_applied(graph, answers, r),
    ensures
        r matches Ok(after) ==> forall|i: int|
            #![trigger after.nodes.listed()[i]]
            0 <= i < after.nodes.listed().len() ==> {
                let node = graph.nodes.listed()[i].1;
                let done = after.nodes.listed()[i].1;
                match attribute(node.attrs, "model"@) {
                    None => done.attrs == node.attrs,
                    Some(_) => exists|offering: Offering|
                        node_resolves(
                            node,
                            transform.graph_provider(graph),
                            select,
                            default,
                            Ok(offering),
                        ) && #[trigger] with_offering(
                            node.attrs@,
                            "model"@,
                            "provider"@,
                            offering,
                            done.attrs@,
                        ),
                }
            },
        r matches Err(error) ==> exists|i: int|
            #![trigger graph.nodes.listed()[i]]
            {
                &&& 0 <= i < graph.nodes.listed().len()
                &&& node_resolves(
                    graph.nodes.listed()[i].1,
                    transform.graph_provider(graph),
                    select,
                    default,
                    Err(error),
                )
                &&& answered(answers, i)
            },
{
    match r {
        Ok(after) => {
            assert forall|i: int|
                #![trigger after.nodes.listed()[i]]
                0 <= i < after.nodes.listed().len() implies {
                let node = graph.nodes.listed()[i].1;
                let done = after.nodes.listed()[i].1;
                match attribute(node.attrs, "model"@) {
                    None => done.attrs == node.attrs,
                    Some(_) => exists|offering: Offering|
                        node_resolves(
                            node,
                            transform.graph_provider(graph),
                            select,
                            default,
                            Ok(offering),
                        ) && #[trigger] with_offering(
                            node.attrs@,
                            "model"@,
                            "provider"@,
                            offering,
                            done.attrs@,
                        ),
                }
            } by {
                assert(answers_query(queries[i], select, default, answers[i]));
                assert(node_answered(graph.nodes.listed()[i], answers[i], after.nodes.listed()[i]));
                if let Some(Ok(offering)) = answers[i] {
                    assert(with_offering(
                        graph.nodes.listed()[i].1.attrs@,
                        "model"@,
                        "provider"@,
                        offering,
                        after.nodes.listed()[i].1.attrs@,
                    ));
                }
            }
        },
        Err(error) => {
            let i = choose|i: int|
                0 <= i < answers.len() && #[trigger] answers[i] == Some(
                    Err::<Offering, ModelSelectionError>(error),
                ) && answered(answers, i);
            assert(answers_query(queries[i], select, default, answers[i]));
            assert(node_resolves(
                graph.nodes.listed()[i].1,
                transform.graph_provider(graph),
                select,
                default,
                Err(error),
            ));
        },
    }
}

/// A model resolves to what the catalog selects. One that a provider does not know stays as
/// it is written on that provider, one that no provider knows stays as it is written on the
/// provider of the default offering, and every other fault is passed on.
pub proof fn models_resolve_to_their_selection(
    model: &str,
    selected: Result<Offering, ModelSelectionError>,
    default: Result<Offering, ModelSelectionError>,
    r: Result<Offering, ModelSelectionError>,
)
    requires
        call_ensures(resolve_model, (model, selected, default), r),
    ensures
        selected is Ok ==> r == selected,
        selected matches Err(
            ModelSelectionError::UnknownSelectorOnProvider { provider, .. },
        ) ==> (r matches Ok(kept) && kept.id@ == model@ && kept.provider == provider),
        selected matches Err(ModelSelectionError::UnknownSelector { .. }) ==> (default matches Ok(
            offering,
        ) ==> (r matches Ok(kept) && kept.id@ == model@ && kept.provider == offering.provider)),
        selected matches Err(ModelSelectionError::UnknownSelector { .. }) && default is Err ==> r
            == default,
        selected is Err && !(selected->Err_0 is UnknownSelector) && !(selected->Err_0
            is UnknownSelectorOnProvider) ==> r == selected,
{
}

/// The attribute is set to this text.
pub open spec fn holds_text(attrs: TextMap<AttrValue>, name: Seq<char>, text: Seq<char>) -> bool {
    attrs@.dom().contains(name) && (attrs@[name] matches AttrValue::String(value) && value@
        == text)
}

/// The provider is that of the node, else that of the transform, else that of the graph;
/// an empty one counts for none, except that of the transform.
pub open spec fn falls_to(
    transform: ModelResolutionTransform,
    graph: Graph,
    own: TextMap<AttrValue>,
    provider: Seq<char>,
) -> bool {
    let unset = !own@.dom().contains("provider"@) || holds_text(
        own,
        "provider"@,
        Seq::empty(),
    );
    ||| provider.len() > 0 && holds_text(own, "provider"@, provider)
    ||| unset && (transform.default_provider matches Some(id) && id@ == provider)
    ||| unset && transform.default_provider is None && provider.len() > 0 && holds_text(
        graph.attrs,
        "default_provider"@,
        provider,
    )
}

/// Each node with a model is asked for by that model, on the provider that it falls to; a
/// node without one is not asked for.
pub proof fn nodes_are_asked_for_by_their_model(
    transform: &ModelResolutionTransform,
    graph: &Graph,
    r: Vec<Option<ModelQuery>>,
    i: int,
    model: Seq<char>,
    provider: Seq<char>,
)
    requires
        call_ensures(ModelResolutionTransform::node_queries, (transform, graph), r),
        0 <= i < graph.nodes.listed().len(),
    ensures
        r@.len() == graph.nodes.listed().len(),
        holds_text(graph.nodes.listed()[i].1.attrs, "model"@, model) ==> (r@[i] matches Some(query)
            && query.model@ == model && (falls_to(
            *transform,
            *graph,
            graph.nodes.listed()[i].1.attrs,
            provider,
        ) ==> (query.provider matches Some(id) && id@ == provider))),
        !graph.nodes.listed()[i].1.attrs@.dom().contains("model"@) ==> r@[i] is None,
        (r@[i] matches Some(query) && query.provider is None) ==> transform.default_provider
            is None,
{
    let node = graph.nodes.listed()[i].1;
    assert(query_view(r@[i]) == node_query(node, transform.graph_provider(*graph)));
    reveal_strlit("");
}

/// The default model of a graph is asked for on the provider of the transform, else on that
/// of the graph; a graph without one is not asked for.
pub proof fn default_models_are_asked_for(
    transform: &ModelResolutionTransform,
    graph: &Graph,
    r: Option<ModelQuery>,
    text: Seq<char>,
)
    requires
        call_ensures(ModelResolutionTransform::default_query, (transform, graph), r),
    ensures
        !graph.attrs@.dom().contains("default_model"@) ==> r is None,
        holds_text(graph.attrs, "default_model"@, text) ==> (r matches Some(query) && query.model@
            == text),
        r matches Some(query) ==> {
            &&& transform.default_provider matches Some(id) ==> (query.provider matches Some(
                asked,
            ) && asked@ == id@)
            &&& transform.default_provider is None && text.len() > 0 && holds_text(
                graph.attrs,
                "default_provider"@,
                text,
            ) ==> (query.provider matches Some(asked) && asked@ == text)
            &&& transform.default_provider is None && !graph.attrs@.dom().contains(
                "default_provider"@,
            ) ==> query.provider is None
        },
{
}

/// What was resolved for a graph becomes its default model and provider, and no other
/// attribute, node or edge changes.
pub proof fn resolved_defaults_change_two_attributes(
    graph: Graph,
    offering: Offering,
    r: Graph,
    name: Seq<char>,
)
    requires
        call_ensures(ModelResolutionTransform::apply_default, (graph, offering), r),
    ensures
        holds_text(r.attrs, "default_model"@, offering.id@),
        holds_text(r.attrs, "default_provider"@, offering.provider@),
        name != "default_model"@ && name != "default_provider"@ ==> {
            &&& r.attrs@.dom().contains(name) <==> graph.attrs@.dom().contains(name)
            &&& graph.attrs@.dom().contains(name) ==> r.attrs@[name] == graph.attrs@[name]
        },
        r.nodes == graph.nodes,
        r.edges == graph.edges,
{
    reveal_strlit("default_model");
    reveal_strlit("default_provider");
    assert("default_model"@.len() != "default_provider"@.len());
}

/// What was resolved for a node becomes its model and provider, and nothing else of any
/// node changes; the first node that could not be resolved fails the graph.
pub proof fn resolved_nodes_change_two_attributes(
    graph: Graph,
    answers: Vec<Option<Result<Offering, ModelSelectionError>>>,
    r: Result<Graph, ModelSelectionError>,
    i: int,
    name: Seq<char>,
)
    requires
        call_ensures(apply_nodes, (graph, answers), r),
        answers@.len() == graph.nodes.listed().len(),
        0 <= i < answers@.len(),
    ensures
        r matches Ok(after) ==> after.attrs == graph.attrs && after.edges == graph.edges
            && after.nodes.listed().len() == answers@.len() && {
            let before = graph.nodes.listed()[i];
            let done = after.nodes.listed()[i];
            &&& done.0 == before.0
            &&& done.1.id == before.1.id
            &&& done.1.handler_type == before.1.handler_type
            &&& answers@[i] is None ==> done.1.attrs == before.1.attrs
            &&& answers@[i] matches Some(Ok(offering)) ==> holds_text(
                done.1.attrs,
                "model"@,
                offering.id@,
            ) && holds_text(done.1.attrs, "provider"@, offering.provider@)
            &&& name != "model"@ && name != "provider"@ ==> {
                &&& done.1.attrs@.dom().contains(name) <==> before.1.attrs@.dom().contains(name)
                &&& before.1.attrs@.dom().contains(name) ==> done.1.attrs@[name]
                    == before.1.attrs@[name]
            }
        },
        r is Ok <==> forall|j: int|
            0 <= j < answers@.len() ==> !(#[trigger] answers@[j] matches Some(Err(_))),
        answers@[i] matches Some(Err(error)) ==> ((forall|j: int|
            0 <= j < i ==> !(#[trigger] answers@[j] matches Some(Err(_)))) ==> r == Err::<
            Graph,
            ModelSelectionError,
        >(error)),
{
    reveal_strlit("model");
    reveal_strlit("provider");
    assert("model"@.len() != "provider"@.len());
    match r {
        Ok(after) => {
            assert(node_answered(graph.nodes.listed()[i], answers@[i], after.nodes.listed()[i]));
            assert(answered(answers@, answers@.len() as int));
        },
        Err(error) => {
            let k = choose|k: int|
                0 <= k < answers@.len() && #[trigger] answers@[k] == Some(
                    Err::<Offering, ModelSelectionError>(error),
                ) && answered(answers@, k);
            assert(answers@[k] matches Some(Err(_)));
        },
    }
}

/// A transform knows the providers that it was made for and no default one, until it is
/// given one.
pub proof fn transforms_know_their_providers(
    providers: Vec<String>,
    all: ModelResolutionTransform,
    some: ModelResolutionTransform,
    provider: Option<String>,
    with_default: ModelResolutionTransform,
)
    requires
        call_ensures(ModelResolutionTransform::new, (providers,), all),
        call_ensures(ModelResolutionTransform::for_eligible, (providers,), some),
        call_ensures(
            ModelResolutionTransform::with_default_provider,
            (some, provider),
            with_default,
        ),
    ensures
        all.eligible_providers == providers,
        all.default_provider is None,
        some.eligible_providers == providers,
        some.default_provider is None,
        with_default.eligible_providers == providers,
        with_default.default_provider == provider,
{
}

} // verus!
