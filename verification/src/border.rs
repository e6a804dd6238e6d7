//! The border decorator: frames a wrapped element with a one-cell
//! rounded border and a padded, filled interior.

use vstd::prelude::*;

use crate::element::AsciiElement;
use crate::grid::AsciiGrid;
use crate::model::{
    draw_frame, frame_char, frame_row, frame_rows, model_draw, model_fits, model_height,
    model_moved, model_pos, model_width, ElemModel,
};
use crate::position::Position;

verus! {

/// A drawable decorator that exclusively owns the element it wraps.
pub struct AsciiBorderDecorator {
    wrapped: Box<AsciiElement>,
    fill_char: char,
    horizontal_padding: u16,
    vertical_padding: u16,
    position: Position,
}

impl AsciiBorderDecorator {
    /// The abstract element this decorator stands for.
    pub closed spec fn model(&self) -> ElemModel
        decreases self,
    {
        ElemModel::Border {
            wrapped: Box::new((*self.wrapped).model()),
            x: self.position.x as int,
            y: self.position.y as int,
            hpad: self.horizontal_padding as nat,
            vpad: self.vertical_padding as nat,
            fill: self.fill_char,
        }
    }

    pub fn new(
        wrapped: AsciiElement,
        position: Position,
        horizontal_padding: u16,
        vertical_padding: u16,
        fill_char: char,
    ) -> (r: Self)
        ensures
            r.model() == (ElemModel::Border {
                wrapped: Box::new(wrapped.model()),
                x: position.x as int,
                y: position.y as int,
                hpad: horizontal_padding as nat,
                vpad: vertical_padding as nat,
                fill: fill_char,
            }),
    {
        Self {
            wrapped: Box::new(wrapped),
            fill_char,
            horizontal_padding,
            vertical_padding,
            position,
        }
    }

    /// The decorator's own anchor.
    pub fn position(&self) -> (r: Position)
        ensures
            (r.x as int, r.y as int) == model_pos(self.model()),
    {
        self.position
    }

    /// The wrapped element's width plus twice the horizontal padding
    /// plus the two border cells.
    pub fn width(&self) -> (r: usize)
        requires
            model_width(self.model()) <= usize::MAX,
        ensures
            r == model_width(self.model()),
        decreases self,
    {
        let inner = self.wrapped.width();
        inner + 2 * (self.horizontal_padding as usize) + 2
    }

    /// The wrapped element's height plus twice the vertical padding
    /// plus the two border cells.
    pub fn height(&self) -> (r: usize)
        requires
            model_height(self.model()) <= usize::MAX,
        ensures
            r == model_height(self.model()),
        decreases self,
    {
        let inner = self.wrapped.height();
        inner + 2 * (self.vertical_padding as usize) + 2
    }

    /// Replaces the decorator's own anchor; the wrapped element is not
    /// touched, because drawing recomputes its place from the anchor.
    pub fn move_to(&mut self, new_position: Position)
        ensures
            final(self).model() == model_moved(
                old(self).model(),
                new_position.x as int,
                new_position.y as int,
            ),
    {
        self.position = new_position;
    }

    /// Paints the decorator onto `grid`, anchored at `(px, py)`: first
    /// the frame with its filled interior, then the wrapped element at
    /// the top-left corner of the interior past the padding.
    pub fn draw_at(&self, grid: &mut AsciiGrid, px: i32, py: i32)
        requires
            model_fits(self.model(), px as int, py as int),
        ensures
            final(grid)@ == model_draw(self.model(), old(grid)@, px as int, py as int),
            final(grid).spec_fill_char() == old(grid).spec_fill_char(),
        decreases self,
    {
        let ghost m = self.model();
        let w = self.width();
        let h = self.height();
        let ghost g0 = grid@;
        let fill = self.fill_char;

        let mut iy: usize = 0;
        while iy < h
            invariant
                iy <= h,
                w == model_width(m),
                h == model_height(m),
                0 <= px,
                0 <= py,
                px + w <= i32::MAX,
                py + h <= i32::MAX,
                grid@ == frame_rows(g0, px as int, py as int, w as nat, h as nat, fill, iy as nat),
                grid.spec_fill_char() == old(grid).spec_fill_char(),
            decreases h - iy,
        {
            let mut ix: usize = 0;
            while ix < w
                invariant
                    iy < h,
                    ix <= w,
                    w == model_width(m),
                    h == model_height(m),
                    0 <= px,
                    0 <= py,
                    px + w <= i32::MAX,
                    py + h <= i32::MAX,
                    grid@ == frame_row(
                        frame_rows(g0, px as int, py as int, w as nat, h as nat, fill, iy as nat),
                        px as int,
                        py as int,
                        iy as int,
                        w as nat,
                        h as nat,
                        fill,
                        ix as nat,
                    ),
                    grid.spec_fill_char() == old(grid).spec_fill_char(),
                decreases w - ix,
            {
                let ch = if ix == 0 && iy == 0 {
                    '\u{256d}'
                } else if ix == 0 && iy == h - 1 {
                    '\u{2570}'
                } else if ix == w - 1 && iy == 0 {
                    '\u{256e}'
                } else if ix == w - 1 && iy == h - 1 {
                    '\u{256f}'
                } else if iy == 0 || iy == h - 1 {
                    '\u{2500}'
                } else if ix == 0 || ix == w - 1 {
                    '\u{2502}'
                } else {
                    fill
                };
                proof {
                    assert(ch == frame_char(ix as int, iy as int, w as nat, h as nat, fill));
                }
                let pos = Position::new(px + ix as i32, py + iy as i32);
                grid.put_char(ch, &pos);
                ix = ix + 1;
            }
            iy = iy + 1;
        }

        let cx = px + self.horizontal_padding as i32 + 1;
        let cy = py + self.vertical_padding as i32 + 1;
        self.wrapped.draw_at(grid, cx, cy);
    }

    /// Paints the decorator onto `grid` at its own anchor.
    pub fn draw(&self, grid: &mut AsciiGrid)
        requires
            model_fits(self.model(), model_pos(self.model()).0, model_pos(self.model()).1),
        ensures
            final(grid)@ == model_draw(
                self.model(),
                old(grid)@,
                model_pos(self.model()).0,
                model_pos(self.model()).1,
            ),
            final(grid).spec_fill_char() == old(grid).spec_fill_char(),
    {
        let p = self.position();
        self.draw_at(grid, p.x, p.y);
    }
}

} // verus!
