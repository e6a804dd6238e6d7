//! The drawable element: a closed set of three shapes — a text leaf, a
//! bordered element, and a composite group — drawn onto the character
//! grid.

use vstd::prelude::*;

use crate::border::AsciiBorderDecorator;
use crate::composite::AsciiComposite;
use crate::grid::AsciiGrid;
use crate::model::{
    model_draw, model_fits, model_height, model_moved, model_pos, model_width, move_ok, ElemModel,
};
use crate::position::Position;
use crate::text::AsciiText;

verus! {

/// A drawable element of the visual tree.
pub enum AsciiElement {
    Text(AsciiText),
    Border(AsciiBorderDecorator),
    Composite(AsciiComposite),
}

/// The models of a sequence of elements, in order.
pub open spec fn models_of(s: Seq<AsciiElement>) -> Seq<ElemModel>
    decreases s,
{
    if s.len() == 0 {
        Seq::empty()
    } else {
        seq![s[0].model()] + models_of(s.drop_first())
    }
}

pub proof fn lemma_models_of(s: Seq<AsciiElement>)
    ensures
        models_of(s).len() == s.len(),
        forall|i: int|
            #![trigger models_of(s)[i]]
            #![trigger s[i]]
            0 <= i < s.len() ==> models_of(s)[i] == s[i].model(),
    decreases s.len(),
{
    if s.len() > 0 {
        lemma_models_of(s.drop_first());
        assert forall|i: int| 0 <= i < s.len() implies #[trigger] models_of(s)[i]
            == s[i].model() by {
            if i > 0 {
                assert(s.drop_first()[i - 1] == s[i]);
                assert(models_of(s)[i] == models_of(s.drop_first())[i - 1]);
            }
        }
    }
}

impl AsciiElement {
    /// The abstract element this value stands for.
    pub open spec fn model(&self) -> ElemModel
        decreases self,
    {
        match self {
            AsciiElement::Text(t) => t.model(),
            AsciiElement::Border(b) => b.model(),
            AsciiElement::Composite(c) => c.model(),
        }
    }

    /// The element's anchor position.
    pub fn position(&self) -> (r: Position)
        ensures
            (r.x as int, r.y as int) == model_pos(self.model()),
        decreases self,
    {
        match self {
            AsciiElement::Text(t) => t.position(),
            AsciiElement::Border(b) => b.position(),
            AsciiElement::Composite(c) => c.position(),
        }
    }

    /// The element's bounding-box width in grid cells.
    pub fn width(&self) -> (r: usize)
        requires
            model_width(self.model()) <= usize::MAX,
        ensures
            r == model_width(self.model()),
        decreases self,
    {
        match self {
            AsciiElement::Text(t) => t.width(),
            AsciiElement::Border(b) => b.width(),
            AsciiElement::Composite(c) => c.width(),
        }
    }

    /// The element's bounding-box height in grid cells.
    pub fn height(&self) -> (r: usize)
        requires
            model_height(self.model()) <= usize::MAX,
        ensures
            r == model_height(self.model()),
        decreases self,
    {
        match self {
            AsciiElement::Text(t) => t.height(),
            AsciiElement::Border(b) => b.height(),
            AsciiElement::Composite(c) => c.height(),
        }
    }

    /// Relocates the element to `new_position`.
    pub fn move_to(&mut self, new_position: Position)
        requires
            move_ok(old(self).model(), new_position.x as int, new_position.y as int),
        ensures
            final(self).model() == model_moved(
                old(self).model(),
                new_position.x as int,
                new_position.y as int,
            ),
        decreases *old(self),
    {
        match self {
            AsciiElement::Text(t) => t.move_to(new_position),
            AsciiElement::Border(b) => b.move_to(new_position),
            AsciiElement::Composite(c) => c.move_to(new_position),
        }
    }

    /// Paints the element onto `grid`, anchored at `(px, py)` instead
    /// of its own position.
    pub fn draw_at(&self, grid: &mut AsciiGrid, px: i32, py: i32)
        requires
            model_fits(self.model(), px as int, py as int),
        ensures
            final(grid)@ == model_draw(self.model(), old(grid)@, px as int, py as int),
            final(grid).spec_fill_char() == old(grid).spec_fill_char(),
        decreases self,
    {
        match self {
            AsciiElement::Text(t) => t.draw_at(grid, px, py),
            AsciiElement::Border(b) => b.draw_at(grid, px, py),
            AsciiElement::Composite(c) => c.draw_at(grid, px, py),
        }
    }

    /// Paints the element onto `grid` at its own anchor position.
    pub fn draw(&self, grid: &mut AsciiGrid)
        requires
            model_fits(self.model(), model_pos(self.model()).0, model_pos(self.model()).1),
        ensures
            final(grid)@ == model_draw(
                self.model(),
                old(grid)@,
                model_pos(self.model()).0,
                model_pos(self.model()).1,
            ),
            final(grid).spec_fill_char() == old(grid).spec_fill_char(),
    {
        let p = self.position();
        self.draw_at(grid, p.x, p.y);
    }
}

} // verus!
