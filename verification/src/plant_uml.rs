//! The parsed declaration model: the ordered elements a diagram
//! description declares.

use vstd::prelude::*;

verus! {

/// One declaration: a component with a name and an optional alias.
#[derive(Debug, Clone, PartialEq, Eq)]
pub enum PlantUmlElement {
    Component(String, Option<String>),
}

/// The declared name of an element.
pub open spec fn elem_name(e: PlantUmlElement) -> Seq<char> {
    match e {
        PlantUmlElement::Component(name, _) => name@,
    }
}

/// The declared alias of an element, if any.
pub open spec fn elem_alias(e: PlantUmlElement) -> Option<Seq<char>> {
    match e {
        PlantUmlElement::Component(_, alias) => match alias {
            Option::Some(a) => Option::Some(a@),
            Option::None => Option::None,
        },
    }
}

/// The name and alias of every element, in order.
pub open spec fn elems_model(v: Seq<PlantUmlElement>) -> Seq<(Seq<char>, Option<Seq<char>>)> {
    Seq::new(v.len(), |i: int| (elem_name(v[i]), elem_alias(v[i])))
}

/// The ordered sequence of declarations parsed from one description.
#[derive(Debug, Clone, PartialEq, Eq)]
pub struct PlantUmlDiagram {
    pub elements: Vec<PlantUmlElement>,
}

impl PlantUmlDiagram {
    pub fn new(elements: Vec<PlantUmlElement>) -> (r: Self)
        ensures
            r.elements == elements,
    {
        Self { elements }
    }
}

} // verus!
