//! The parsed, language-agnostic representation of a diagram: a title,
//! nodes, and edges.

use vstd::prelude::*;

verus! {

/// A diagram-model vertex representing a declared component.  The `id`
/// is meant to identify the node within a diagram; uniqueness is a
/// producer responsibility and is not validated here.
#[derive(Debug, Clone, PartialEq)]
pub struct Node {
    pub id: String,
    pub node_type: NodeType,
}

/// What a node is; the description language currently declares only
/// named components.
#[derive(Debug, Clone, PartialEq)]
pub enum NodeType {
    Component(String),
}

/// How an edge end is drawn.
#[derive(Debug, Clone, PartialEq)]
pub enum EdgeStyle {
    Solid,
    Arrow,
    OpenArrow,
}

/// A connection between two nodes.  The description grammar does not
/// yet produce these.
#[derive(Debug, Clone, PartialEq)]
pub struct Edge {
    pub from_id: String,
    pub to_id: String,
    pub style_from: EdgeStyle,
    pub style_to: EdgeStyle,
    pub label: Option<String>,
}

/// The diagram model: an optional title and ordered nodes and edges.
#[derive(Debug, Clone, PartialEq)]
pub struct Diagram {
    pub title: Option<String>,
    pub nodes: Vec<Node>,
    pub edges: Vec<Edge>,
}

/// The name that a node displays: the component's declared name.
pub open spec fn component_name(n: Node) -> Seq<char> {
    match n.node_type {
        NodeType::Component(name) => name@,
    }
}

impl Node {
    pub fn new(id: String, node_type: NodeType) -> (r: Self)
        ensures
            r.id == id,
            r.node_type == node_type,
    {
        Self { id, node_type }
    }
}

impl Diagram {
    pub fn new(title: Option<String>, nodes: Vec<Node>, edges: Vec<Edge>) -> (r: Self)
        ensures
            r.title == title,
            r.nodes == nodes,
            r.edges == edges,
    {
        Self { title, nodes, edges }
    }
}

impl Default for Diagram {
    /// The empty diagram: no title, no nodes, no edges.
    fn default() -> (r: Self)
        ensures
            r.title is None,
            r.nodes@ == Seq::<Node>::empty(),
            r.edges@ == Seq::<Edge>::empty(),
    {
        let r = Self { title: None, nodes: Vec::new(), edges: Vec::new() };
        proof {
            assert(r.nodes@ =~= Seq::<Node>::empty());
            assert(r.edges@ =~= Seq::<Edge>::empty());
        }
        r
    }
}

} // verus!
