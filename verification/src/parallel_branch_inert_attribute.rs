//! Attributes that have no effect on the branches of a parallel node.
//!
//! Branch nodes are dispatched with a snapshot of the context taken when the parallel
//! node started, so per-branch `fidelity` never changes what a branch sees, and
//! per-branch `thread_id` never replaces the thread inherited in that snapshot.

use vstd::prelude::*;
use vstd::string::*;

use crate::graph::{AttrValue, Edge, Graph, Node};
use crate::lint::{findings, Diagnostic, Finding, LintRule, Severity};
use crate::parallel_branch::{
    branch_nodes_have_parents, forks, forks_are_the_parallel_nodes, is_parallel, parents,
    runs_as_a_branch_only, sources, targets, ParallelBranches,
};
use crate::text::{join, joined, occurs_at, same_text, text_has, views};
use crate::text_map::TextMap;
use crate::text_set::in_order;

verus! {

/// The rule.
#[derive(Debug, Clone, Copy, PartialEq, Eq, Structural)]
pub struct Rule;

/// The rule.
pub fn rule() -> (r: Rule)
    ensures
        r == Rule,
{
    Rule
}

/// Ids in single quotes, with commas between them.
pub open spec fn quoted_ids(ids: Seq<Seq<char>>) -> Seq<char> {
    joined(ids.map_values(|id: Seq<char>| "'"@ + id + "'"@), ", "@)
}

/// How the finding for an attribute can be mended.
pub open spec fn fix_text(attr: Seq<char>, parallel_ids: Seq<Seq<char>>) -> Seq<char> {
    if attr == "fidelity"@ {
        if parallel_ids.len() == 1 {
            "Set fidelity on the parallel node "@ + quoted_ids(parallel_ids)
                + " (or its incoming edge) to control what every branch sees"@
        } else {
            "Set fidelity on the parallel nodes "@ + quoted_ids(parallel_ids)
                + " (or their incoming edges) to control what every branch sees"@
        }
    } else if attr == "thread_id"@ {
        "Remove '"@ + attr
            + "': parallel branches inherit the thread resolved when the parallel node started"@
    } else {
        "Remove '"@ + attr + "'"@
    }
}

/// What the rule says of a branch edge that sets `attr`.
pub open spec fn edge_finding(edge: Edge, attr: Seq<char>) -> Finding {
    Finding {
        rule: "parallel_branch_inert_attribute"@,
        severity: Severity::Warning,
        message: "Edge "@ + edge.from@ + " -> "@ + edge.to@ + " sets '"@ + attr
            + "', which is ignored on parallel branch edges: branches receive the context snapshot taken when '"@
            + edge.from@ + "' started"@,
        node_id: None,
        edge: Some((edge.from@, edge.to@)),
        fix: Some(fix_text(attr, seq![edge.from@])),
    }
}

/// What the rule says of a branch node that sets `attr`.
pub open spec fn node_finding(node: Node, attr: Seq<char>, forks: Seq<Seq<char>>) -> Finding {
    Finding {
        rule: "parallel_branch_inert_attribute"@,
        severity: Severity::Warning,
        message: "Node '"@ + node.id@ + "' sets '"@ + attr
            + "', but it only runs as a parallel branch (of "@ + quoted_ids(forks) + "), where '"@
            + attr
            + "' is ignored: branches receive the context snapshot taken when the parallel node started"@,
        node_id: Some(node.id@),
        edge: None,
        fix: Some(fix_text(attr, forks)),
    }
}

/// The finding for `attr`, where it is set.
pub open spec fn if_set(attrs: TextMap<AttrValue>, attr: Seq<char>, finding: Finding) -> Seq<Finding> {
    if attrs@.dom().contains(attr) {
        seq![finding]
    } else {
        Seq::empty()
    }
}

/// What the rule finds at an edge.
pub open spec fn of_edge(edge: Edge, forks: Set<Seq<char>>) -> Seq<Finding> {
    if forks.contains(edge.from@) {
        if_set(edge.attrs, "fidelity"@, edge_finding(edge, "fidelity"@)) + if_set(
            edge.attrs,
            "thread_id"@,
            edge_finding(edge, "thread_id"@),
        )
    } else {
        Seq::empty()
    }
}

/// What the rule finds at the edges, in their order.
pub open spec fn of_edges(edges: Seq<Edge>, forks: Set<Seq<char>>) -> Seq<Finding>
    decreases edges.len(),
{
    if edges.len() == 0 {
        Seq::empty()
    } else {
        of_edges(edges.drop_last(), forks) + of_edge(edges.last(), forks)
    }
}

/// What the rule finds at the target of a branch: something only where every edge into
/// it leaves a parallel node. A node that is also reached by a normal edge resolves
/// the attribute on that path.
pub open spec fn of_target(graph: Graph, target: Seq<char>) -> Seq<Finding> {
    match parents(graph.edges@, forks(graph.nodes.listed()), target) {
        Some(list) => if graph.nodes@.dom().contains(target) {
            let node = graph.nodes@[target];
            if_set(node.attrs, "fidelity"@, node_finding(node, "fidelity"@, list)) + if_set(
                node.attrs,
                "thread_id"@,
                node_finding(node, "thread_id"@, list),
            )
        } else {
            Seq::empty()
        },
        None => Seq::empty(),
    }
}

/// What the rule finds at the targets of branches, in their order.
pub open spec fn of_targets(graph: Graph, list: Seq<Seq<char>>) -> Seq<Finding>
    decreases list.len(),
{
    if list.len() == 0 {
        Seq::empty()
    } else {
        of_targets(graph, list.drop_last()) + of_target(graph, list.last())
    }
}

/// What the rule finds: first at the branch edges, then at the branch nodes by id.
pub open spec fn found(graph: Graph) -> Seq<Finding> {
    let all = forks(graph.nodes.listed());
    of_edges(graph.edges@, all) + of_targets(graph, in_order(targets(graph.edges@, all)))
}

/// Ids in single quotes, with commas between them.
pub fn quoted_list(ids: &Vec<String>) -> (r: String)
    ensures
        r@ == quoted_ids(views(ids@)),
{
    let mut pieces: Vec<String> = Vec::new();
    let mut i: usize = 0;
    while i < ids.len()
        invariant
            i <= ids@.len(),
            pieces@.len() == i,
            forall|j: int| 0 <= j < i ==> (#[trigger] pieces@[j])@ == "'"@ + ids@[j]@ + "'"@,
        decreases ids@.len() - i,
    {
        let mut piece = "'".to_owned();
        piece.append(ids[i].as_str());
        piece.append("'");
        pieces.push(piece);
        i += 1;
    }
    proof {
        assert(views(pieces@) =~= views(ids@).map_values(|id: Seq<char>| "'"@ + id + "'"@));
    }
    join(&pieces, ", ")
}

/// How the finding for an attribute can be mended.
pub fn fix_message(attr: &str, parallel_ids: &Vec<String>) -> (r: String)
    ensures
        r@ == fix_text(attr@, views(parallel_ids@)),
{
    if same_text(attr, "fidelity") {
        if parallel_ids.len() == 1 {
            let mut r = "Set fidelity on the parallel node ".to_owned();
            r.append(quoted_list(parallel_ids).as_str());
            r.append(" (or its incoming edge) to control what every branch sees");
            r
        } else {
            let mut r = "Set fidelity on the parallel nodes ".to_owned();
            r.append(quoted_list(parallel_ids).as_str());
            r.append(" (or their incoming edges) to control what every branch sees");
            r
        }
    } else if same_text(attr, "thread_id") {
        let mut r = "Remove '".to_owned();
        r.append(attr);
        r.append(
            "': parallel branches inherit the thread resolved when the parallel node started",
        );
        r
    } else {
        let mut r = "Remove '".to_owned();
        r.append(attr);
        r.append("'");
        r
    }
}

fn check_edge(edge: &Edge, attr: &str, diagnostics: &mut Vec<Diagnostic>)
    ensures
        findings(final(diagnostics)@) == findings(old(diagnostics)@) + if_set(
            edge.attrs,
            attr@,
            edge_finding(*edge, attr@),
        ),
{
    let ghost before = diagnostics@;
    if !edge.attrs.contains_key(attr) {
        proof {
            assert(findings(before) + Seq::<Finding>::empty() =~= findings(before));
        }
        return;
    }
    let mut message = "Edge ".to_owned();
    message.append(edge.from.as_str());
    message.append(" -> ");
    message.append(edge.to.as_str());
    message.append(" sets '");
    message.append(attr);
    message.append(
        "', which is ignored on parallel branch edges: branches receive the context snapshot taken when '",
    );
    message.append(edge.from.as_str());
    message.append("' started");
    let mut ids: Vec<String> = Vec::new();
    ids.push(edge.from.clone());
    let diagnostic = Diagnostic {
        rule: "parallel_branch_inert_attribute".to_owned(),
        severity: Severity::Warning,
        message,
        node_id: None,
        edge: Some((edge.from.clone(), edge.to.clone())),
        fix: Some(fix_message(attr, &ids)),
    };
    proof {
        assert(views(ids@) =~= seq![edge.from@]);
        assert(diagnostic@ == edge_finding(*edge, attr@));
    }
    diagnostics.push(diagnostic);
    proof {
        assert(findings(diagnostics@) =~= findings(before) + seq![edge_finding(*edge, attr@)]);
    }
}

fn check_node(node: &Node, attr: &str, forks: &Vec<String>, diagnostics: &mut Vec<Diagnostic>)
    ensures
        findings(final(diagnostics)@) == findings(old(diagnostics)@) + if_set(
            node.attrs,
            attr@,
            node_finding(*node, attr@, views(forks@)),
        ),
{
    let ghost before = diagnostics@;
    if !node.attrs.contains_key(attr) {
        proof {
            assert(findings(before) + Seq::<Finding>::empty() =~= findings(before));
        }
        return;
    }
    let mut message = "Node '".to_owned();
    message.append(node.id.as_str());
    message.append("' sets '");
    message.append(attr);
    message.append("', but it only runs as a parallel branch (of ");
    message.append(quoted_list(forks).as_str());
    message.append("), where '");
    message.append(attr);
    message.append(
        "' is ignored: branches receive the context snapshot taken when the parallel node started",
    );
    let diagnostic = Diagnostic {
        rule: "parallel_branch_inert_attribute".to_owned(),
        severity: Severity::Warning,
        message,
        node_id: Some(node.id.clone()),
        edge: None,
        fix: Some(fix_message(attr, forks)),
    };
    proof {
        assert(diagnostic@ == node_finding(*node, attr@, views(forks@)));
    }
    diagnostics.push(diagnostic);
    proof {
        assert(findings(diagnostics@) =~= findings(before) + seq![
            node_finding(*node, attr@, views(forks@)),
        ]);
    }
}

/// Without forks there are no targets and nothing to find.
proof fn lemma_no_forks(edges: Seq<Edge>)
    ensures
        of_edges(edges, Set::empty()) == Seq::<Finding>::empty(),
        targets(edges, Set::empty()) == Set::<Seq<char>>::empty(),
    decreases edges.len(),
{
    if edges.len() > 0 {
        lemma_no_forks(edges.drop_last());
        assert(of_edges(edges, Set::empty()) =~= Seq::<Finding>::empty());
    }
}

impl LintRule for Rule {
    fn name(&self) -> (r: &'static str)
        ensures
            r@ == "parallel_branch_inert_attribute"@,
    {
        "parallel_branch_inert_attribute"
    }

    fn apply(&self, graph: &Graph) -> (r: Vec<Diagnostic>)
        ensures
            findings(r@) == found(*graph),
    {
        let branches = ParallelBranches::new(graph);
        let ghost all = forks(graph.nodes.listed());
        let ghost edges = graph.edges@;
        let mut diagnostics: Vec<Diagnostic> = Vec::new();
        proof {
            assert(findings(diagnostics@) =~= Seq::<Finding>::empty());
        }
        if branches.is_empty() {
            proof {
                lemma_no_forks(edges);
                let none = Seq::<Seq<char>>::empty();
                assert(none.to_set() =~= Set::<Seq<char>>::empty());
                crate::text_set::lemma_in_order(none, Set::empty());
                assert(found(*graph) =~= Seq::<Finding>::empty());
            }
            return diagnostics;
        }
        let mut i: usize = 0;
        proof {
            assert(edges.take(0).len() == 0);
        }
        while i < graph.edges.len()
            invariant
                edges == graph.edges@,
                branches.of() == *graph,
                all == branches.fork_set(),
                i <= edges.len(),
                findings(diagnostics@) == of_edges(edges.take(i as int), all),
            decreases edges.len() - i,
        {
            let edge = &graph.edges[i];
            let ghost before = findings(diagnostics@);
            proof {
                assert(edges.take(i + 1).drop_last() =~= edges.take(i as int));
                assert(edges.take(i + 1).last() == edges[i as int]);
            }
            if branches.is_fork_edge(edge) {
                check_edge(edge, "fidelity", &mut diagnostics);
                check_edge(edge, "thread_id", &mut diagnostics);
            }
            proof {
                assert(findings(diagnostics@) =~= before + of_edge(*edge, all));
            }
            i += 1;
        }
        proof {
            assert(edges.take(edges.len() as int) =~= edges);
        }
        let ghost at_edges = findings(diagnostics@);
        let list = branches.branch_targets();
        let ghost order = views(list@);
        let mut j: usize = 0;
        proof {
            assert(order.take(0).len() == 0);
            assert(at_edges + of_targets(*graph, order.take(0)) =~= at_edges);
        }
        while j < list.len()
            invariant
                branches.of() == *graph,
                all == branches.fork_set(),
                order == views(list@),
                j <= list@.len(),
                findings(diagnostics@) == at_edges + of_targets(*graph, order.take(j as int)),
            decreases list@.len() - j,
        {
            let ghost before = findings(diagnostics@);
            let target = list[j].as_str();
            proof {
                assert(order.take(j + 1).drop_last() =~= order.take(j as int));
                assert(order.take(j + 1).last() == target@);
            }
            match branches.branch_only_parents(target) {
                Some(forks) => {
                    match graph.nodes.get(target) {
                        Some(node) => {
                            check_node(node, "fidelity", &forks, &mut diagnostics);
                            check_node(node, "thread_id", &forks, &mut diagnostics);
                        },
                        None => {},
                    }
                },
                None => {},
            }
            proof {
                assert(findings(diagnostics@) =~= before + of_target(*graph, target@));
                assert(findings(diagnostics@) =~= at_edges + of_targets(
                    *graph,
                    order.take(j + 1),
                ));
            }
            j += 1;
        }
        proof {
            assert(order.take(order.len() as int) =~= order);
        }
        diagnostics
    }
}

/// A node with an incoming edge from a node that is no fork is not reported, whatever
/// it sets.
pub proof fn nodes_reached_by_a_normal_edge_are_not_reported(graph: Graph, i: int)
    requires
        0 <= i < graph.edges@.len(),
        !forks(graph.nodes.listed()).contains(graph.edges@[i].from@),
    ensures
        of_target(graph, graph.edges@[i].to@) == Seq::<Finding>::empty(),
{
    lemma_source(graph.edges@, i);
}

proof fn lemma_source(edges: Seq<Edge>, i: int)
    requires
        0 <= i < edges.len(),
    ensures
        sources(edges, edges[i].to@).contains(edges[i].from@),
    decreases edges.len(),
{
    if i < edges.len() - 1 {
        assert(edges.drop_last()[i] == edges[i]);
        lemma_source(edges.drop_last(), i);
    }
}

/// A graph without parallel nodes has nothing for the rule to find.
pub proof fn graphs_without_parallel_nodes_are_clean(graph: Graph)
    requires
        forks(graph.nodes.listed()) == Set::<Seq<char>>::empty(),
    ensures
        found(graph) == Seq::<Finding>::empty(),
{
    lemma_no_forks(graph.edges@);
    let none = Seq::<Seq<char>>::empty();
    assert(none.to_set() =~= Set::<Seq<char>>::empty());
    crate::text_set::lemma_in_order(none, Set::empty());
    assert(found(graph) =~= Seq::<Finding>::empty());
}

/// The attribute is one that branches ignore.
pub open spec fn is_inert(attr: Seq<char>) -> bool {
    attr == "fidelity"@ || attr == "thread_id"@
}

/// Every branch edge that sets an inert attribute is reported for it.
pub proof fn every_inert_edge_is_reported(graph: Graph, i: int, attr: Seq<char>)
    requires
        0 <= i < graph.edges@.len(),
        forks(graph.nodes.listed()).contains(graph.edges@[i].from@),
        is_inert(attr),
        graph.edges@[i].attrs@.dom().contains(attr),
    ensures
        found(graph).contains(edge_finding(graph.edges@[i], attr)),
{
    let all = forks(graph.nodes.listed());
    let finding = edge_finding(graph.edges@[i], attr);
    let first = of_edges(graph.edges@, all);
    lemma_edge_is_found(graph.edges@, all, i, attr);
    let k = choose|k: int| 0 <= k < first.len() && first[k] == finding;
    assert(found(graph)[k] == finding);
}

proof fn lemma_edge_is_found(edges: Seq<Edge>, forks: Set<Seq<char>>, i: int, attr: Seq<char>)
    requires
        0 <= i < edges.len(),
        forks.contains(edges[i].from@),
        is_inert(attr),
        edges[i].attrs@.dom().contains(attr),
    ensures
        of_edges(edges, forks).contains(edge_finding(edges[i], attr)),
    decreases edges.len(),
{
    let finding = edge_finding(edges[i], attr);
    let before = of_edges(edges.drop_last(), forks);
    let last = of_edge(edges.last(), forks);
    if i < edges.len() - 1 {
        assert(edges.drop_last()[i] == edges[i]);
        lemma_edge_is_found(edges.drop_last(), forks, i, attr);
        let k = choose|k: int| 0 <= k < before.len() && before[k] == finding;
        assert((before + last)[k] == finding);
    } else {
        lemma_two(
            edges[i].attrs,
            edge_finding(edges[i], "fidelity"@),
            edge_finding(edges[i], "thread_id"@),
            attr,
        );
        let k = choose|k: int| 0 <= k < last.len() && last[k] == finding;
        assert((before + last)[before.len() + k] == finding);
    }
}

/// Of the findings for two attributes, that for one which is set is there.
proof fn lemma_two(attrs: TextMap<AttrValue>, fidelity: Finding, thread: Finding, attr: Seq<char>)
    requires
        is_inert(attr),
        attrs@.dom().contains(attr),
    ensures
        ({
            let both = if_set(attrs, "fidelity"@, fidelity) + if_set(attrs, "thread_id"@, thread);
            both.contains(
                if attr == "fidelity"@ {
                    fidelity
                } else {
                    thread
                },
            )
        }),
{
    let both = if_set(attrs, "fidelity"@, fidelity) + if_set(attrs, "thread_id"@, thread);
    if attr == "fidelity"@ {
        assert(both[0] == fidelity);
    } else {
        assert(both[both.len() - 1] == thread);
    }
}

/// Every node that only runs as a branch and sets an inert attribute is reported for it.
pub proof fn every_inert_branch_node_is_reported(graph: Graph, target: Seq<char>, attr: Seq<char>)
    requires
        parents(graph.edges@, forks(graph.nodes.listed()), target) is Some,
        graph.nodes@.dom().contains(target),
        is_inert(attr),
        graph.nodes@[target].attrs@.dom().contains(attr),
    ensures
        found(graph).contains(
            node_finding(
                graph.nodes@[target],
                attr,
                parents(graph.edges@, forks(graph.nodes.listed()), target)->0,
            ),
        ),
{
    let all = forks(graph.nodes.listed());
    let edges = graph.edges@;
    let node = graph.nodes@[target];
    let list = parents(edges, all, target)->0;
    let finding = node_finding(node, attr, list);
    lemma_branch_is_a_target(edges, all, target);
    lemma_targets_are_finite(edges, all);
    crate::text_set::a_finite_set_is_listed_in_order(targets(edges, all));
    let listed = in_order(targets(edges, all));
    assert(listed.to_set().contains(target));
    let at = choose|at: int| 0 <= at < listed.len() && listed[at] == target;
    lemma_two(
        node.attrs,
        node_finding(node, "fidelity"@, list),
        node_finding(node, "thread_id"@, list),
        attr,
    );
    lemma_target_is_found(graph, listed, at, finding);
    let first = of_edges(edges, all);
    let second = of_targets(graph, listed);
    let k = choose|k: int| 0 <= k < second.len() && second[k] == finding;
    assert(found(graph)[first.len() + k] == finding);
}

proof fn lemma_target_is_found(graph: Graph, list: Seq<Seq<char>>, at: int, finding: Finding)
    requires
        0 <= at < list.len(),
        of_target(graph, list[at]).contains(finding),
    ensures
        of_targets(graph, list).contains(finding),
    decreases list.len(),
{
    let before = of_targets(graph, list.drop_last());
    let last = of_target(graph, list.last());
    if at < list.len() - 1 {
        assert(list.drop_last()[at] == list[at]);
        lemma_target_is_found(graph, list.drop_last(), at, finding);
        let k = choose|k: int| 0 <= k < before.len() && before[k] == finding;
        assert((before + last)[k] == finding);
    } else {
        let k = choose|k: int| 0 <= k < last.len() && last[k] == finding;
        assert((before + last)[before.len() + k] == finding);
    }
}

/// A node that only runs as a branch is the target of one.
proof fn lemma_branch_is_a_target(edges: Seq<Edge>, forks: Set<Seq<char>>, node: Seq<char>)
    requires
        sources(edges, node) != Set::<Seq<char>>::empty(),
        sources(edges, node).subset_of(forks),
    ensures
        targets(edges, forks).contains(node),
    decreases edges.len(),
{
    if edges.len() > 0 {
        let init = edges.drop_last();
        if edges.last().to@ == node {
            assert(sources(edges, node).contains(edges.last().from@));
        } else {
            lemma_branch_is_a_target(init, forks, node);
        }
    }
}

proof fn lemma_targets_are_finite(edges: Seq<Edge>, forks: Set<Seq<char>>)
    ensures
        targets(edges, forks).finite(),
    decreases edges.len(),
{
    if edges.len() > 0 {
        lemma_targets_are_finite(edges.drop_last(), forks);
    }
}

// ---- What the rule is for ----

/// The edge leaves a parallel node and sets an attribute that branches ignore.
pub open spec fn inert_on_edge(graph: Graph, i: int, attr: Seq<char>) -> bool {
    &&& 0 <= i < graph.edges@.len()
    &&& is_parallel(graph, graph.edges@[i].from@)
    &&& attr == "fidelity"@ || attr == "thread_id"@
    &&& graph.edges@[i].attrs@.dom().contains(attr)
}

/// The node only runs as a branch and sets an attribute that branches ignore.
pub open spec fn inert_on_node(graph: Graph, id: Seq<char>, attr: Seq<char>) -> bool {
    &&& graph.nodes@.dom().contains(id)
    &&& runs_as_a_branch_only(graph, id)
    &&& attr == "fidelity"@ || attr == "thread_id"@
    &&& graph.nodes@[id].attrs@.dom().contains(attr)
}

/// The warning is one of this rule, at the edge, for the attribute.
pub open spec fn warns_of_edge(warning: Diagnostic, edge: Edge, attr: Seq<char>) -> bool {
    &&& warning.rule@ == "parallel_branch_inert_attribute"@
    &&& warning.severity == Severity::Warning
    &&& warning.edge matches Some(ends) && ends.0@ == edge.from@ && ends.1@ == edge.to@
    &&& warning.node_id is None
    &&& warning.fix is Some
    &&& warning.message@ == "Edge "@ + edge.from@ + " -> "@ + edge.to@ + " sets '"@ + attr
        + "', which is ignored on parallel branch edges: branches receive the context snapshot taken when '"@
        + edge.from@ + "' started"@
}

/// The warning is one of this rule, at the node, for the attribute.
pub open spec fn warns_of_node(warning: Diagnostic, node: Node, attr: Seq<char>) -> bool {
    &&& warning.rule@ == "parallel_branch_inert_attribute"@
    &&& warning.severity == Severity::Warning
    &&& warning.node_id matches Some(id) && id@ == node.id@
    &&& warning.edge is None
    &&& warning.fix is Some
    &&& text_has(
        warning.message@,
        "Node '"@ + node.id@ + "' sets '"@ + attr
            + "', but it only runs as a parallel branch (of "@,
    )
    &&& text_has(
        warning.message@,
        "), where '"@ + attr
            + "' is ignored: branches receive the context snapshot taken when the parallel node started"@,
    )
}

proof fn lemma_warns_of_edge(warning: Diagnostic, edge: Edge, attr: Seq<char>)
    requires
        warning@ == edge_finding(edge, attr),
    ensures
        warns_of_edge(warning, edge, attr),
{
}

proof fn lemma_warns_of_node(warning: Diagnostic, node: Node, attr: Seq<char>, forks: Seq<Seq<char>>)
    requires
        warning@ == node_finding(node, attr, forks),
    ensures
        warns_of_node(warning, node, attr),
{
    let message = warning.message@;
    let opening = "Node '"@ + node.id@ + "' sets '"@ + attr
        + "', but it only runs as a parallel branch (of "@;
    let rest = "), where '"@ + attr
        + "' is ignored: branches receive the context snapshot taken when the parallel node started"@;
    assert(message =~= opening + quoted_ids(forks) + rest);
    assert(message.subrange(0, opening.len() as int) =~= opening);
    assert(occurs_at(message, opening, 0));
    let at = message.len() - rest.len();
    assert(message.subrange(at, message.len() as int) =~= rest);
    assert(occurs_at(message, rest, at));
}

/// Every attribute that branches ignore is warned of where it is set: on an edge that leaves
/// a parallel node, and on a node that only runs as a branch.
pub proof fn inert_attributes_are_warned_of(
    rule: Rule,
    graph: &Graph,
    r: Vec<Diagnostic>,
    i: int,
    id: Seq<char>,
    attr: Seq<char>,
)
    requires
        call_ensures(Rule::apply, (&rule, graph), r),
    ensures
        inert_on_edge(*graph, i, attr) ==> exists|k: int|
            0 <= k < r@.len() && warns_of_edge(#[trigger] r@[k], graph.edges@[i], attr),
        inert_on_node(*graph, id, attr) ==> exists|k: int|
            0 <= k < r@.len() && warns_of_node(#[trigger] r@[k], graph.nodes@[id], attr),
{
    let all = found(*graph);
    assert(findings(r@).len() == r@.len());
    if inert_on_edge(*graph, i, attr) {
        forks_are_the_parallel_nodes(*graph, graph.edges@[i].from@);
        every_inert_edge_is_reported(*graph, i, attr);
        let k = choose|k: int| 0 <= k < all.len() && all[k] == edge_finding(graph.edges@[i], attr);
        assert(findings(r@)[k] == r@[k]@);
        lemma_warns_of_edge(r@[k], graph.edges@[i], attr);
    }
    if inert_on_node(*graph, id, attr) {
        branch_nodes_have_parents(*graph, id);
        every_inert_branch_node_is_reported(*graph, id, attr);
        let list = parents(graph.edges@, forks(graph.nodes.listed()), id)->0;
        let k = choose|k: int|
            0 <= k < all.len() && all[k] == node_finding(graph.nodes@[id], attr, list);
        assert(findings(r@)[k] == r@[k]@);
        lemma_warns_of_node(r@[k], graph.nodes@[id], attr, list);
    }
}

/// Nothing else is warned of.
pub proof fn only_inert_attributes_are_warned_of(
    rule: Rule,
    graph: &Graph,
    r: Vec<Diagnostic>,
    k: int,
)
    requires
        call_ensures(Rule::apply, (&rule, graph), r),
        0 <= k < r@.len(),
    ensures
        (exists|i: int, attr: Seq<char>| #[trigger]
            inert_on_edge(*graph, i, attr) && warns_of_edge(r@[k], graph.edges@[i], attr)) || (
        exists|id: Seq<char>, attr: Seq<char>| #[trigger]
            inert_on_node(*graph, id, attr) && warns_of_node(r@[k], graph.nodes@[id], attr)),
{
    let all = forks(graph.nodes.listed());
    let first = of_edges(graph.edges@, all);
    let listed = in_order(targets(graph.edges@, all));
    let second = of_targets(*graph, listed);
    assert(findings(r@).len() == r@.len());
    assert(findings(r@)[k] == r@[k]@);
    if k < first.len() {
        assert(found(*graph)[k] == first[k]);
        let (i, attr) = lemma_edge_finding(graph.edges@, all, k);
        forks_are_the_parallel_nodes(*graph, graph.edges@[i].from@);
        lemma_warns_of_edge(r@[k], graph.edges@[i], attr);
        assert(inert_on_edge(*graph, i, attr));
    } else {
        let at = k - first.len();
        assert(found(*graph)[k] == second[at]);
        let (target, attr) = lemma_node_finding(*graph, listed, at);
        branch_nodes_have_parents(*graph, target);
        lemma_warns_of_node(
            r@[k],
            graph.nodes@[target],
            attr,
            parents(graph.edges@, all, target)->0,
        );
        assert(inert_on_node(*graph, target, attr));
    }
}

/// The edge and the attribute that a finding is for.
proof fn lemma_edge_finding(edges: Seq<Edge>, forks: Set<Seq<char>>, k: int) -> (r: (
    int,
    Seq<char>,
))
    requires
        0 <= k < of_edges(edges, forks).len(),
    ensures
        0 <= r.0 < edges.len(),
        forks.contains(edges[r.0].from@),
        is_inert(r.1),
        edges[r.0].attrs@.dom().contains(r.1),
        of_edges(edges, forks)[k] == edge_finding(edges[r.0], r.1),
    decreases edges.len(),
{
    let init = edges.drop_last();
    let before = of_edges(init, forks);
    let last = of_edge(edges.last(), forks);
    assert(edges[edges.len() - 1] == edges.last());
    if k < before.len() {
        let r = lemma_edge_finding(init, forks, k);
        assert(init[r.0] == edges[r.0]);
        assert((before + last)[k] == before[k]);
        r
    } else {
        assert((before + last)[k] == last[k - before.len()]);
        let here = edges.last().attrs@.dom().contains("fidelity"@);
        if here && k == before.len() {
            assert(last[0] == edge_finding(edges.last(), "fidelity"@));
            (edges.len() - 1, "fidelity"@)
        } else {
            assert(last[k - before.len()] == edge_finding(edges.last(), "thread_id"@));
            (edges.len() - 1, "thread_id"@)
        }
    }
}

/// The node and the attribute that a finding is for.
proof fn lemma_node_finding(graph: Graph, list: Seq<Seq<char>>, k: int) -> (r: (
    Seq<char>,
    Seq<char>,
))
    requires
        0 <= k < of_targets(graph, list).len(),
    ensures
        graph.nodes@.dom().contains(r.0),
        parents(graph.edges@, forks(graph.nodes.listed()), r.0) is Some,
        is_inert(r.1),
        graph.nodes@[r.0].attrs@.dom().contains(r.1),
        of_targets(graph, list)[k] == node_finding(
            graph.nodes@[r.0],
            r.1,
            parents(graph.edges@, forks(graph.nodes.listed()), r.0)->0,
        ),
    decreases list.len(),
{
    let init = list.drop_last();
    let before = of_targets(graph, init);
    let last = of_target(graph, list.last());
    if k < before.len() {
        assert((before + last)[k] == before[k]);
        lemma_node_finding(graph, init, k)
    } else {
        assert((before + last)[k] == last[k - before.len()]);
        let node = graph.nodes@[list.last()];
        let parents_of = parents(graph.edges@, forks(graph.nodes.listed()), list.last())->0;
        if node.attrs@.dom().contains("fidelity"@) && k == before.len() {
            assert(last[0] == node_finding(node, "fidelity"@, parents_of));
            (list.last(), "fidelity"@)
        } else {
            assert(last[k - before.len()] == node_finding(node, "thread_id"@, parents_of));
            (list.last(), "thread_id"@)
        }
    }
}

/// What is ignored for its own sake is removed, and what the parallel nodes decide is set
/// there: the advice names each of them, in single quotes.
pub proof fn advice_names_the_parallel_nodes(
    attr: &str,
    ids: &Vec<String>,
    quoted: String,
    r: String,
)
    requires
        call_ensures(quoted_list, (ids,), quoted),
        call_ensures(fix_message, (attr, ids), r),
    ensures
        attr@ == "fidelity"@ && ids@.len() == 1 ==> r@ == "Set fidelity on the parallel node "@
            + quoted@ + " (or its incoming edge) to control what every branch sees"@,
        attr@ == "fidelity"@ && ids@.len() != 1 ==> r@ == "Set fidelity on the parallel nodes "@
            + quoted@ + " (or their incoming edges) to control what every branch sees"@,
        attr@ == "thread_id"@ ==> r@ == "Remove '"@ + attr@
            + "': parallel branches inherit the thread resolved when the parallel node started"@,
        attr@ != "fidelity"@ && attr@ != "thread_id"@ ==> r@ == "Remove '"@ + attr@ + "'"@,
        ids@.len() == 0 ==> quoted@.len() == 0,
        ids@.len() == 1 ==> quoted@ == "'"@ + ids@[0]@ + "'"@,
        ids@.len() == 2 ==> quoted@ == "'"@ + ids@[0]@ + "'"@ + ", "@ + "'"@ + ids@[1]@ + "'"@,
{
    reveal_strlit("fidelity");
    reveal_strlit("thread_id");
    assert("fidelity"@.len() != "thread_id"@.len());
    reveal_with_fuel(joined, 3);
    let pieces = views(ids@).map_values(|id: Seq<char>| "'"@ + id + "'"@);
    if ids@.len() >= 1 {
        assert(pieces[0] == "'"@ + ids@[0]@ + "'"@);
    }
    if ids@.len() == 2 {
        assert(pieces.drop_last() =~= seq![pieces[0]]);
        assert(pieces.last() == "'"@ + ids@[1]@ + "'"@);
        assert(quoted@ =~= "'"@ + ids@[0]@ + "'"@ + ", "@ + "'"@ + ids@[1]@ + "'"@);
    }
}

} // verus!
