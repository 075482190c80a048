//! Readable model reasoning in a provider-neutral shape.

use vstd::prelude::*;

verus! {

/// Readable model reasoning normalized into a provider-neutral shape.
///
/// Both fields may be populated for the same response. An emitted object always carries
/// at least one of them; opaque provider material never appears here.
#[derive(Debug, Clone, PartialEq, Eq)]
pub struct ReasoningOutput {
    /// Model-authored summary of its reasoning, safe to show to users.
    pub summary: Option<String>,
    /// Verbatim readable reasoning text, when the provider returns it.
    pub trace: Option<String>,
}

impl Default for ReasoningOutput {
    fn default() -> (r: Self)
        ensures
            r.summary is None,
            r.trace is None,
    {
        ReasoningOutput { summary: None, trace: None }
    }
}

impl ReasoningOutput {
    /// Whether neither readable field is present, meaning the object carries nothing worth
    /// emitting.
    pub fn is_empty(&self) -> (b: bool)
        ensures
            b == (self.summary is None && self.trace is None),
    {
        self.summary.is_none() && self.trace.is_none()
    }
}

/// Reasoning is worth emitting as soon as it has a summary or a trace.
pub proof fn any_reasoning_is_worth_emitting(output: ReasoningOutput, b: bool)
    requires
        call_ensures(ReasoningOutput::is_empty, (&output,), b),
    ensures
        output.summary is Some ==> !b,
        output.trace is Some ==> !b,
        output.summary is None && output.trace is None ==> b,
{
}

} // verus!
