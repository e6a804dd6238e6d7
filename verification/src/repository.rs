//! The diagram-repository abstraction and its implementation over the
//! description-language parser: the diagram mapper lives here.

use vstd::prelude::*;

use crate::diagram::{component_name, Diagram, Node, NodeType};
use crate::parser::{parse_script, PlantUmlParser, PlantUmlParserError, PlantUmlTextParser};
use crate::plant_uml::{elem_alias, elem_name, elems_model, PlantUmlDiagram, PlantUmlElement};

verus! {

/// A source of diagrams parsed from description text.
pub trait DiagramRepository {
    fn parse_from_content(&self, content: &str) -> Result<Diagram, DiagramRepositoryError>;
}

/// Why a repository could not produce a diagram.
#[derive(Debug, Clone, PartialEq, Eq)]
pub enum DiagramRepositoryError {
    Unknown(String),
}

/// The diagnostic text a repository error carries.
pub open spec fn repository_error_message(e: DiagramRepositoryError) -> Seq<char> {
    match e {
        DiagramRepositoryError::Unknown(msg) => msg@,
    }
}

/// The diagnostic text a parser error carries.
pub open spec fn parser_error_message(e: PlantUmlParserError) -> Seq<char> {
    match e {
        PlantUmlParserError::UnknownError(msg) => msg@,
    }
}

impl DiagramRepositoryError {
    /// A parse failure wrapped as a repository failure, keeping its
    /// diagnostic text.
    pub fn from_parser_error(e: PlantUmlParserError) -> (r: Self)
        ensures
            repository_error_message(r) == parser_error_message(e),
    {
        match e {
            PlantUmlParserError::UnknownError(msg) => DiagramRepositoryError::Unknown(msg),
        }
    }
}

/// The node id a declaration produces: the alias if one was declared,
/// the name otherwise.
pub open spec fn declared_id(name: Seq<char>, alias: Option<Seq<char>>) -> Seq<char> {
    match alias {
        Option::Some(a) => a,
        Option::None => name,
    }
}

/// Whether `nodes` are exactly what `decls` — name and optional alias,
/// in order — map to: one node per declaration, its id the alias if
/// present and the name otherwise, its type naming the component.
pub open spec fn nodes_match_decls(
    nodes: Seq<Node>,
    decls: Seq<(Seq<char>, Option<Seq<char>>)>,
) -> bool {
    &&& nodes.len() == decls.len()
    &&& forall|i: int|
        0 <= i < nodes.len() ==> (#[trigger] nodes[i]).id@ == declared_id(
            decls[i].0,
            decls[i].1,
        ) && component_name(nodes[i]) == decls[i].0
}

/// The node one declared element maps to: its id is the alias if
/// present and the name otherwise, and its type names the component.
pub fn to_node(e: &PlantUmlElement) -> (r: Node)
    ensures
        r.id@ == declared_id(elem_name(*e), elem_alias(*e)),
        component_name(r) == elem_name(*e),
{
    match e {
        PlantUmlElement::Component(name, alias) => {
            let id = match alias {
                Option::Some(a) => a.clone(),
                Option::None => name.clone(),
            };
            Node::new(id, NodeType::Component(name.clone()))
        },
    }
}

/// Maps parsed declarations to the diagram model: one node per
/// declaration, in declaration order; no title and no edges, because
/// the declaration grammar carries no syntax for either.  This mapping
/// is total — it cannot fail.
pub fn to_diagram(parsed: &PlantUmlDiagram) -> (r: Diagram)
    ensures
        r.title is None,
        r.edges@ == Seq::<crate::diagram::Edge>::empty(),
        nodes_match_decls(r.nodes@, elems_model(parsed.elements@)),
{
    let mut nodes: Vec<Node> = Vec::new();
    let mut i: usize = 0;
    while i < parsed.elements.len()
        invariant
            i <= parsed.elements@.len(),
            nodes@.len() == i,
            forall|k: int|
                0 <= k < i ==> (#[trigger] nodes@[k]).id@ == declared_id(
                    elem_name(parsed.elements@[k]),
                    elem_alias(parsed.elements@[k]),
                ) && component_name(nodes@[k]) == elem_name(parsed.elements@[k]),
        decreases parsed.elements@.len() - i,
    {
        nodes.push(to_node(&parsed.elements[i]));
        i = i + 1;
    }
    let r = Diagram::new(None, nodes, Vec::new());
    proof {
        assert(r.edges@ =~= Seq::<crate::diagram::Edge>::empty());
    }
    r
}

/// A diagram repository over any parser of the description language.
pub struct DiagramRepositoryPlantUmlImpl<P: PlantUmlParser> {
    parser: P,
}

impl<P: PlantUmlParser> DiagramRepositoryPlantUmlImpl<P> {
    pub fn new(parser: P) -> Self {
        Self { parser }
    }

    /// Parses the content with the injected parser and maps the result
    /// to the diagram model.  What the injected parser returns is its
    /// own affair, but whatever came back, a produced diagram is
    /// [`to_diagram`]'s work: it never carries a title or edges.  The
    /// mapping's full contract is on [`to_diagram`], and the verified
    /// parser's guarantees are stated on [`PlantUmlTextParser::parse`].
    pub fn parse_plant_uml_script(&self, content: &str) -> (r: Result<
        Diagram,
        DiagramRepositoryError,
    >)
        ensures
            r matches Ok(d) ==> d.title is None && d.edges@ == Seq::<
                crate::diagram::Edge,
            >::empty(),
    {
        match PlantUmlParser::parse(&self.parser, content) {
            Result::Ok(parsed) => Result::Ok(to_diagram(&parsed)),
            Result::Err(e) => Result::Err(DiagramRepositoryError::from_parser_error(e)),
        }
    }
}

impl<P: PlantUmlParser> DiagramRepository for DiagramRepositoryPlantUmlImpl<P> {
    fn parse_from_content(&self, content: &str) -> Result<Diagram, DiagramRepositoryError> {
        self.parse_plant_uml_script(content)
    }
}

/// Parses a description with the verified parser and maps it to the
/// diagram model: the whole pipeline from text to diagram, with its
/// guarantees in one place.
pub fn parse_diagram_content(content: &str) -> (r: Result<Diagram, DiagramRepositoryError>)
    ensures
        r matches Ok(d) ==> {
            &&& parse_script(content@) is Some
            &&& d.title is None
            &&& d.edges@ == Seq::<crate::diagram::Edge>::empty()
            &&& nodes_match_decls(d.nodes@, parse_script(content@)->Some_0)
        },
        r matches Err(e) ==> parse_script(content@) is None && repository_error_message(e)
            == crate::parser::rejection_text(),
{
    let parser = PlantUmlTextParser::new();
    match parser.parse(content) {
        Result::Ok(parsed) => Result::Ok(to_diagram(&parsed)),
        Result::Err(e) => Result::Err(DiagramRepositoryError::from_parser_error(e)),
    }
}

} // verus!

