//! No node takes both a script and a prompt.

use vstd::prelude::*;
use vstd::string::*;

use crate::graph::{attribute, Graph, Node};
use crate::lint::{findings, Diagnostic, Finding, LintRule, Severity};

verus! {

/// The rule.
#[derive(Debug, Clone, Copy, PartialEq, Eq, Structural)]
pub struct Rule;

/// The rule.
pub fn rule() -> (r: Rule)
    ensures
        r == Rule,
{
    Rule
}

/// The node has a script and a prompt.
pub open spec fn has_both(node: Node) -> bool {
    attribute(node.attrs, "script"@) is Some && attribute(node.attrs, "prompt"@) is Some
}

/// What the rule says of such a node.
pub open spec fn finding(node: Node) -> Finding {
    Finding {
        rule: "script_prompt_conflict"@,
        severity: Severity::Error,
        message: "Node '"@ + node.id@
            + "' sets both 'script' and 'prompt'. No node type reads both: 'script' selects the command handler and 'prompt' selects an LLM handler"@,
        node_id: Some(node.id@),
        edge: None,
        fix: Some(
            "Remove whichever attribute is wrong, or split the node into a command node and an agent node"@,
        ),
    }
}

/// What the rule finds among nodes, in their order.
pub open spec fn found(nodes: Seq<(String, Node)>) -> Seq<Finding>
    decreases nodes.len(),
{
    if nodes.len() == 0 {
        Seq::empty()
    } else if has_both(nodes.last().1) {
        found(nodes.drop_last()).push(finding(nodes.last().1))
    } else {
        found(nodes.drop_last())
    }
}

impl LintRule for Rule {
    fn name(&self) -> (r: &'static str)
        ensures
            r@ == "script_prompt_conflict"@,
    {
        "script_prompt_conflict"
    }

    fn apply(&self, graph: &Graph) -> (r: Vec<Diagnostic>)
        ensures
            findings(r@) == found(graph.nodes.listed()),
    {
        let mut diagnostics: Vec<Diagnostic> = Vec::new();
        let ghost nodes = graph.nodes.listed();
        let mut i: usize = 0;
        proof {
            assert(findings(diagnostics@) =~= found(nodes.take(0)));
        }
        while i < graph.nodes.len()
            invariant
                nodes == graph.nodes.listed(),
                i <= nodes.len(),
                findings(diagnostics@) == found(nodes.take(i as int)),
            decreases nodes.len() - i,
        {
            let node = graph.nodes.value(i);
            proof {
                assert(nodes.take(i + 1).drop_last() =~= nodes.take(i as int));
                assert(nodes.take(i + 1).last() == nodes[i as int]);
            }
            if node.attr("script").is_some() && node.attr("prompt").is_some() {
                let mut message = "Node '".to_owned();
                message.append(node.id.as_str());
                message.append(
                    "' sets both 'script' and 'prompt'. No node type reads both: 'script' selects the command handler and 'prompt' selects an LLM handler",
                );
                let ghost before = diagnostics@;
                let diagnostic = Diagnostic {
                    rule: self.name().to_owned(),
                    severity: Severity::Error,
                    message,
                    node_id: Some(node.id.clone()),
                    edge: None,
                    fix: Some(
                        "Remove whichever attribute is wrong, or split the node into a command node and an agent node".to_owned(),
                    ),
                };
                proof {
                    assert(diagnostic@ == finding(*node));
                }
                diagnostics.push(diagnostic);
                proof {
                    assert(findings(diagnostics@) =~= findings(before).push(finding(*node)));
                }
            }
            i += 1;
        }
        proof {
            assert(nodes.take(nodes.len() as int) =~= nodes);
        }
        diagnostics
    }
}

/// A node with the texts of a script and of a prompt, whatever they say.
pub open spec fn sets_both(node: Node) -> bool {
    &&& node.attrs@.dom().contains("script"@) && node.attrs@["script"@] is String
    &&& node.attrs@.dom().contains("prompt"@) && node.attrs@["prompt"@] is String
}

/// The finding is one of this rule, at the node.
pub open spec fn is_reported_at(finding: Diagnostic, node: Node) -> bool {
    &&& finding.rule@ == "script_prompt_conflict"@
    &&& finding.severity == Severity::Error
    &&& finding.node_id matches Some(id) && id@ == node.id@
    &&& finding.edge is None
    &&& finding.message@ == "Node '"@ + node.id@
        + "' sets both 'script' and 'prompt'. No node type reads both: 'script' selects the command handler and 'prompt' selects an LLM handler"@
    &&& finding.fix matches Some(fix) && fix@
        == "Remove whichever attribute is wrong, or split the node into a command node and an agent node"@
}

/// Every node that sets both a script and a prompt is reported, as an error at that node, and
/// no other node is.
pub proof fn nodes_with_script_and_prompt_are_reported(rule: Rule, graph: &Graph, r: Vec<Diagnostic>, i: int, k: int)
    requires
        call_ensures(Rule::apply, (&rule, graph), r),
    ensures
        0 <= i < graph.nodes.listed().len() && sets_both(graph.nodes.listed()[i].1) ==> exists|j: int|
            0 <= j < r@.len() && is_reported_at(#[trigger] r@[j], graph.nodes.listed()[i].1),
        0 <= k < r@.len() ==> exists|j: int|
            0 <= j < graph.nodes.listed().len() && sets_both((#[trigger] graph.nodes.listed()[j]).1)
                && is_reported_at(r@[k], graph.nodes.listed()[j].1),
        (forall|j: int|
            0 <= j < graph.nodes.listed().len() ==> !sets_both((#[trigger] graph.nodes.listed()[j]).1))
            <==> r@.len() == 0,
{
    let nodes = graph.nodes.listed();
    lemma_found(nodes);
    assert forall|d: Diagnostic, node: Node| d@ == finding(node) implies #[trigger] is_reported_at(
        d,
        node,
    ) by {}
    if 0 <= i < nodes.len() && sets_both(nodes[i].1) {
        lemma_condition(nodes[i].1);
        let j = choose|j: int| 0 <= j < found(nodes).len() && found(nodes)[j] == finding(
            nodes[i].1,
        );
        assert(findings(r@)[j] == r@[j]@);
        assert(is_reported_at(r@[j], nodes[i].1));
    }
    if 0 <= k < r@.len() {
        assert(findings(r@)[k] == r@[k]@);
        let j = choose|j: int|
            0 <= j < nodes.len() && has_both((#[trigger] nodes[j]).1) && found(nodes)[k] == finding(
                nodes[j].1,
            );
        lemma_condition(nodes[j].1);
        assert(is_reported_at(r@[k], nodes[j].1));
    }
    assert(findings(r@).len() == r@.len());
    if r@.len() == 0 {
        assert forall|j: int| 0 <= j < nodes.len() implies !sets_both((#[trigger] nodes[j]).1) by {
            lemma_condition(nodes[j].1);
            if has_both(nodes[j].1) {
                assert(found(nodes).contains(finding(nodes[j].1)));
            }
        }
    } else {
        let j = choose|j: int|
            0 <= j < nodes.len() && has_both((#[trigger] nodes[j]).1) && found(nodes)[0] == finding(
                nodes[j].1,
            );
        lemma_condition(nodes[j].1);
    }
}

/// The two ways to say when a node is reported agree.
proof fn lemma_condition(node: Node)
    ensures
        has_both(node) <==> sets_both(node),
{
}

proof fn lemma_found(nodes: Seq<(String, Node)>)
    ensures
        forall|i: int|
            0 <= i < nodes.len() && has_both((#[trigger] nodes[i]).1) ==> found(nodes).contains(
                finding(nodes[i].1),
            ),
        forall|k: int|
            0 <= k < found(nodes).len() ==> exists|j: int|
                0 <= j < nodes.len() && has_both((#[trigger] nodes[j]).1) && (#[trigger] found(
                    nodes,
                )[k]) == finding(nodes[j].1),
    decreases nodes.len(),
{
    if nodes.len() > 0 {
        let init = nodes.drop_last();
        let before = found(init);
        let after = found(nodes);
        lemma_found(init);
        assert(nodes[nodes.len() - 1] == nodes.last());
        assert forall|i: int| 0 <= i < init.len() implies #[trigger] init[i] == nodes[i] by {}
        assert forall|i: int|
            0 <= i < nodes.len() && has_both((#[trigger] nodes[i]).1) implies after.contains(
            finding(nodes[i].1),
        ) by {
            if i < init.len() {
                assert(init[i] == nodes[i]);
                let k = choose|k: int| 0 <= k < before.len() && before[k] == finding(init[i].1);
                assert(after[k] == finding(nodes[i].1));
            } else {
                assert(after[before.len() as int] == finding(nodes[i].1));
            }
        }
        assert forall|k: int| 0 <= k < after.len() implies exists|j: int|
            0 <= j < nodes.len() && has_both((#[trigger] nodes[j]).1) && (#[trigger] after[k])
                == finding(nodes[j].1) by {
            if k < before.len() {
                assert(after[k] == before[k]);
                let j = choose|j: int|
                    0 <= j < init.len() && has_both((#[trigger] init[j]).1) && before[k] == finding(
                        init[j].1,
                    );
                assert(nodes[j] == init[j]);
            } else {
                assert(after[k] == finding(nodes[nodes.len() - 1].1));
            }
        }
    }
}

} // verus!
