//! Workflow graphs, as far as the library reads them.

use vstd::prelude::*;

use crate::json::Json;
use crate::text::{opt_view, same_text};
use crate::text_map::TextMap;

verus! {

/// The value of an attribute.
#[derive(Debug, PartialEq, Eq)]
pub enum AttrValue {
    String(String),
    /// A value that is no text.
    Other(Json),
}

/// The text of an attribute, if it is set to one.
pub open spec fn attribute(attrs: TextMap<AttrValue>, name: Seq<char>) -> Option<Seq<char>> {
    if attrs@.dom().contains(name) {
        match attrs@[name] {
            AttrValue::String(text) => Some(text@),
            AttrValue::Other(_) => None,
        }
    } else {
        None
    }
}

/// The text of an attribute, if it is set to one.
pub fn text_attribute<'a>(attrs: &'a TextMap<AttrValue>, name: &str) -> (r: Option<&'a String>)
    ensures
        match r {
            Some(text) => attribute(*attrs, name@) == Some(text@),
            None => attribute(*attrs, name@) is None,
        },
{
    match attrs.get(name) {
        Some(AttrValue::String(text)) => Some(text),
        _ => None,
    }
}

/// A node of a workflow graph.
#[derive(Debug, PartialEq, Eq)]
pub struct Node {
    pub id: String,
    /// The handler that runs the node, where one is settled.
    pub handler_type: Option<String>,
    pub attrs: TextMap<AttrValue>,
}

impl Node {
    /// A node without attributes.
    pub fn new(id: &str) -> (r: Self)
        ensures
            r.id@ == id@,
            r.handler_type is None,
            r.attrs@ == Map::<Seq<char>, AttrValue>::empty(),
    {
        Node { id: id.to_owned(), handler_type: None, attrs: TextMap::new() }
    }

    /// Whether the node is run by the handler `name`.
    pub open spec fn runs(self, name: Seq<char>) -> bool {
        opt_view(self.handler_type) == Some(name)
    }

    /// Whether the node is run by the handler `name`.
    pub fn is_run_by(&self, name: &str) -> (b: bool)
        ensures
            b == self.runs(name@),
    {
        match &self.handler_type {
            Some(handler) => same_text(handler.as_str(), name),
            None => false,
        }
    }

    /// The text of the attribute `name`.
    pub fn attr(&self, name: &str) -> (r: Option<&String>)
        ensures
            match r {
                Some(text) => attribute(self.attrs, name@) == Some(text@),
                None => attribute(self.attrs, name@) is None,
            },
    {
        text_attribute(&self.attrs, name)
    }
}

/// An edge of a workflow graph.
#[derive(Debug, PartialEq, Eq)]
pub struct Edge {
    pub from: String,
    pub to: String,
    pub attrs: TextMap<AttrValue>,
}

impl Edge {
    /// An edge without attributes.
    pub fn new(from: &str, to: &str) -> (r: Self)
        ensures
            r.from@ == from@,
            r.to@ == to@,
            r.attrs@ == Map::<Seq<char>, AttrValue>::empty(),
    {
        Edge { from: from.to_owned(), to: to.to_owned(), attrs: TextMap::new() }
    }
}

/// A workflow graph: its nodes by id, and its edges in order.
#[derive(Debug, PartialEq, Eq)]
pub struct Graph {
    pub attrs: TextMap<AttrValue>,
    pub nodes: TextMap<Node>,
    pub edges: Vec<Edge>,
}

impl Graph {
    /// A graph without attributes, nodes and edges.
    pub fn new() -> (r: Self)
        ensures
            r.attrs@ == Map::<Seq<char>, AttrValue>::empty(),
            r.nodes@ == Map::<Seq<char>, Node>::empty(),
            r.nodes.listed().len() == 0,
            r.edges@.len() == 0,
    {
        Graph { attrs: TextMap::new(), nodes: TextMap::new(), edges: Vec::new() }
    }
}

/// An attribute is read under its own name, and as a text only where it is one: the empty
/// text is a text too.
pub proof fn attributes_are_read_by_name(attrs: &TextMap<AttrValue>, name: &str, r: Option<&String>)
    requires
        call_ensures(text_attribute, (attrs, name), r),
    ensures
        attrs@.dom().contains(name@) ==> (attrs@[name@] matches AttrValue::String(text) ==> (
        r matches Some(found) && found@ == text@)),
        attrs@.dom().contains(name@) ==> (attrs@[name@] is Other ==> r is None),
        !attrs@.dom().contains(name@) ==> r is None,
{
}

/// A node is run by a handler exactly where that handler is the one that is settled.
pub proof fn nodes_are_run_by_their_handler(node: &Node, name: &str, b: bool)
    requires
        call_ensures(Node::is_run_by, (node, name), b),
    ensures
        node.handler_type matches Some(handler) ==> (b <==> handler@ == name@),
        node.handler_type is None ==> !b,
{
}

} // verus!
