//! The presenter: builds a drawable tree from a diagram model, drives
//! the draw pass over a character grid, and packages the snapshot into
//! a view model.

use vstd::prelude::*;

use crate::border::AsciiBorderDecorator;
use crate::composite::AsciiComposite;
use crate::diagram::{component_name, Diagram, Node, NodeType};
use crate::element::AsciiElement;
use crate::grid::AsciiGrid;
use crate::model::{
    lemma_children_min_pos_origin, lemma_max_line_len_le, lemma_split_lines_le, model_draw,
    model_fits, model_height, model_pos, model_width, shifted_fits, split_lines, ElemModel,
};
use crate::position::Position;
use crate::text::AsciiText;
use crate::view_model::AsciiGridViewModel;

verus! {

/// How many cells of padding surround a node's name inside its border.
pub open spec fn node_padding() -> nat {
    2
}

/// The drawable element built for one node: its display name wrapped
/// in a space-filled border with the fixed padding, anchored at the
/// origin.
pub open spec fn node_elem_model(n: Node) -> ElemModel {
    ElemModel::Border {
        wrapped: Box::new(ElemModel::Text { x: 0, y: 0, content: component_name(n) }),
        x: 0,
        y: 0,
        hpad: node_padding(),
        vpad: node_padding(),
        fill: ' ',
    }
}

/// The drawable elements built for a diagram's nodes, in node order.
pub open spec fn diagram_elems(nodes: Seq<Node>) -> Seq<ElemModel> {
    Seq::new(nodes.len(), |i: int| node_elem_model(nodes[i]))
}

/// Builds the drawable tree for each diagram handed to it and draws
/// the tree onto a fresh grid per render pass.
pub struct AsciiPresenter {
    grid: AsciiGrid,
}

impl AsciiPresenter {
    /// The rows the last render pass drew.
    pub closed spec fn grid_model(&self) -> Seq<Seq<char>> {
        self.grid@
    }

    pub fn new() -> (r: Self)
        ensures
            r.grid_model() == Seq::<Seq<char>>::empty(),
    {
        Self { grid: AsciiGrid::empty(' ') }
    }

    /// Draws the diagram's nodes — each one a bordered box holding the
    /// component name, anchored at the origin — onto a fresh grid, in
    /// node order, and returns the resulting snapshot.  The length
    /// bound on the names is what the machine's coordinate space
    /// forces.
    pub fn process_diagram(&mut self, diagram: &Diagram) -> (r: AsciiGridViewModel)
        requires
            forall|i: int|
                0 <= i < diagram.nodes@.len() ==> component_name(#[trigger] diagram.nodes@[i]).len()
                    + 6 <= i32::MAX,
        ensures
            final(self).grid_model() == model_draw(
                (ElemModel::Group { children: diagram_elems(diagram.nodes@) }),
                Seq::empty(),
                0,
                0,
            ),
            r.rows() == final(self).grid_model(),
    {
        self.grid = AsciiGrid::empty(' ');
        let ghost elems = diagram_elems(diagram.nodes@);
        let mut composite = AsciiComposite::empty();
        let mut i: usize = 0;
        proof {
            assert(diagram_elems(diagram.nodes@.take(0)) =~= Seq::<ElemModel>::empty());
        }
        while i < diagram.nodes.len()
            invariant
                i <= diagram.nodes@.len(),
                forall|k: int|
                    0 <= k < diagram.nodes@.len() ==> component_name(
                        #[trigger] diagram.nodes@[k],
                    ).len() + 6 <= i32::MAX,
                composite.model() == (ElemModel::Group {
                    children: diagram_elems(diagram.nodes@.take(i as int)),
                }),
            decreases diagram.nodes@.len() - i,
        {
            let node = &diagram.nodes[i];
            let name = match &node.node_type {
                NodeType::Component(n) => n.clone(),
            };
            let text = AsciiText::new(Position::new(0, 0), name);
            let bordered = AsciiBorderDecorator::new(
                AsciiElement::Text(text),
                Position::new(0, 0),
                2,
                2,
                ' ',
            );
            composite.add(AsciiElement::Border(bordered));
            proof {
                assert(diagram_elems(diagram.nodes@.take(i + 1)) =~= diagram_elems(
                    diagram.nodes@.take(i as int),
                ).push(node_elem_model(diagram.nodes@[i as int])));
            }
            i = i + 1;
        }
        proof {
            assert(diagram.nodes@.take(diagram.nodes@.len() as int) =~= diagram.nodes@);
        }
        let elem = AsciiElement::Composite(composite);
        proof {
            let m = elem.model();
            assert forall|k: int| 0 <= k < elems.len() implies model_pos(#[trigger] elems[k]) == (
            0int,
            0int,
            ) by {
                assert(elems[k] == node_elem_model(diagram.nodes@[k]));
            }
            if elems.len() > 0 {
                lemma_children_min_pos_origin(elems);
            }
            assert(model_pos(m) == (0int, 0int));
            assert forall|k: int| 0 <= k < elems.len() implies shifted_fits(
                #[trigger] elems[k],
                0,
                0,
            ) by {
                assert(elems[k] == node_elem_model(diagram.nodes@[k]));
                let name = component_name(diagram.nodes@[k]);
                lemma_split_lines_le(name);
                lemma_max_line_len_le(split_lines(name), name.len());
                let tm = ElemModel::Text { x: 0, y: 0, content: name };
                assert(name.len() + 6 <= i32::MAX);
                assert(model_width(tm) <= name.len());
                assert(model_height(tm) <= name.len());
                assert(model_width(elems[k]) == model_width(tm) + 6);
                assert(model_height(elems[k]) == model_height(tm) + 6);
                assert(model_fits(tm, 3, 3));
                assert(model_fits(elems[k], 0, 0));
            }
            assert(model_fits(m, 0, 0));
        }
        elem.draw(&mut self.grid);
        let snapshot = self.grid.get_grid();
        let r = AsciiGridViewModel::new(snapshot);
        proof {
            assert(r.rows() =~= self.grid@);
        }
        r
    }
}

} // verus!
