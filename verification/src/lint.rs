//! What the rules of the workflow linter find.

use vstd::prelude::*;

use crate::graph::Graph;
use crate::text::opt_view;

verus! {

/// How bad a finding is.
#[derive(Debug, Clone, Copy, PartialEq, Eq, Structural)]
pub enum Severity {
    Error,
    Warning,
}

/// A finding of a rule.
#[derive(Debug, PartialEq, Eq)]
pub struct Diagnostic {
    pub rule: String,
    pub severity: Severity,
    pub message: String,
    pub node_id: Option<String>,
    pub edge: Option<(String, String)>,
    pub fix: Option<String>,
}

/// A finding as a value.
pub struct Finding {
    pub rule: Seq<char>,
    pub severity: Severity,
    pub message: Seq<char>,
    pub node_id: Option<Seq<char>>,
    pub edge: Option<(Seq<char>, Seq<char>)>,
    pub fix: Option<Seq<char>>,
}

impl View for Diagnostic {
    type V = Finding;

    open spec fn view(&self) -> Finding {
        Finding {
            rule: self.rule@,
            severity: self.severity,
            message: self.message@,
            node_id: opt_view(self.node_id),
            edge: match self.edge {
                Some(edge) => Some((edge.0@, edge.1@)),
                None => None,
            },
            fix: opt_view(self.fix),
        }
    }
}

/// Findings in their order.
pub open spec fn findings(diagnostics: Seq<Diagnostic>) -> Seq<Finding> {
    diagnostics.map_values(|d: Diagnostic| d@)
}

/// A rule of the linter.
pub trait LintRule {
    /// The name of the rule.
    fn name(&self) -> &'static str;

    /// What the rule finds in a graph.
    fn apply(&self, graph: &Graph) -> Vec<Diagnostic>;
}

} // verus!
