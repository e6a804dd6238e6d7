//! The text leaf of the drawable-element tree.

use vstd::prelude::*;

use crate::chars::chars_of;
use crate::grid::AsciiGrid;
use crate::model::{
    lemma_line_le_max, max_line_len, model_draw, model_fits, model_height, model_moved, model_pos,
    model_width, newline_index, lemma_newline_index, split_lines, text_row, text_rows, ElemModel,
};
use crate::position::Position;

verus! {

/// A drawable leaf: multi-line text anchored at a position.
pub struct AsciiText {
    position: Position,
    content: String,
}

/// Helper for locating a newline: if the first `j` characters of `s`
/// are not newlines, and the character at `j` — if any — is one, then
/// `j` is where `newline_index` points.
proof fn lemma_newline_index_at(s: Seq<char>, j: int)
    requires
        0 <= j <= s.len(),
        forall|k: int| 0 <= k < j ==> s[k] != '\n',
        j < s.len() ==> s[j] == '\n',
    ensures
        newline_index(s) == j,
    decreases j,
{
    lemma_newline_index(s);
    if j > 0 {
        lemma_newline_index_at(s.drop_first(), j - 1);
    }
}

/// The lines of `content`, split at newline characters, as vectors of
/// characters.
pub fn split_into_lines(content: &str) -> (r: Vec<Vec<char>>)
    ensures
        r@.len() == split_lines(content@).len(),
        forall|i: int| 0 <= i < r@.len() ==> r@[i]@ == split_lines(content@)[i],
{
    let v = chars_of(content);
    let r = split_from(&v, 0);
    proof {
        assert(v@.skip(0) =~= content@);
    }
    r
}

/// The lines of `v` from index `i` on.
fn split_from(v: &Vec<char>, i: usize) -> (r: Vec<Vec<char>>)
    requires
        i <= v@.len(),
    ensures
        r@.len() == split_lines(v@.skip(i as int)).len(),
        forall|k: int| 0 <= k < r@.len() ==> r@[k]@ == split_lines(v@.skip(i as int))[k],
    decreases v@.len() - i,
{
    let ghost s = v@.skip(i as int);
    let n = v.len();
    if i == n {
        proof {
            assert(s.len() == 0);
        }
        return Vec::new();
    }
    let mut j = i;
    while j < n && v[j] != '\n'
        invariant
            i <= j <= n,
            n == v@.len(),
            forall|k: int| i <= k < j ==> v@[k] != '\n',
        decreases n - j,
    {
        j = j + 1;
    }
    proof {
        assert forall|k: int| 0 <= k < j - i implies s[k] != '\n' by {
            assert(s[k] == v@[i + k]);
        }
        if (j as int) < n {
            assert(s[j - i] == v@[j as int]);
        }
        lemma_newline_index_at(s, j - i);
    }
    let mut seg: Vec<char> = Vec::new();
    let mut k = i;
    while k < j
        invariant
            i <= k <= j <= v@.len(),
            seg@ == v@.subrange(i as int, k as int),
        decreases j - k,
    {
        seg.push(v[k]);
        proof {
            assert(seg@ =~= v@.subrange(i as int, k + 1));
        }
        k = k + 1;
    }
    if j == n {
        proof {
            assert(seg@ =~= s);
            assert(split_lines(s) == seq![s]);
        }
        let mut r: Vec<Vec<char>> = Vec::new();
        r.push(seg);
        return r;
    }
    let mut rest = split_from(v, j + 1);
    proof {
        assert(seg@ =~= s.subrange(0, j - i));
        assert(v@.skip(j + 1) =~= s.subrange(j - i + 1, s.len() as int));
        assert(split_lines(s) == seq![s.subrange(0, j - i)] + split_lines(
            s.subrange(j - i + 1, s.len() as int),
        ));
    }
    rest.insert(0, seg);
    proof {
        assert forall|k2: int| 0 <= k2 < rest@.len() implies rest@[k2]@ == split_lines(s)[k2] by {
            if k2 > 0 {
                assert(split_lines(s)[k2] == split_lines(v@.skip(j + 1))[k2 - 1]);
            }
        }
    }
    rest
}

impl AsciiText {
    /// The abstract element this leaf stands for.
    pub closed spec fn model(&self) -> ElemModel {
        ElemModel::Text {
            x: self.position.x as int,
            y: self.position.y as int,
            content: self.content@,
        }
    }

    pub fn new(position: Position, content: String) -> (r: Self)
        ensures
            r.model() == (ElemModel::Text {
                x: position.x as int,
                y: position.y as int,
                content: content@,
            }),
    {
        Self { position, content }
    }

    /// The anchor of the text.
    pub fn position(&self) -> (r: Position)
        ensures
            (r.x as int, r.y as int) == model_pos(self.model()),
    {
        self.position
    }

    /// The length of the longest line.
    pub fn width(&self) -> (r: usize)
        ensures
            r == model_width(self.model()),
    {
        let lines = split_into_lines(self.content.as_str());
        let ghost ls = split_lines(self.content@);
        let mut best: usize = 0;
        let mut i: usize = 0;
        proof {
            assert(ls.take(0) =~= Seq::<Seq<char>>::empty());
        }
        while i < lines.len()
            invariant
                i <= lines@.len(),
                lines@.len() == ls.len(),
                forall|k: int| 0 <= k < lines@.len() ==> lines@[k]@ == ls[k],
                best == max_line_len(ls.take(i as int)),
            decreases lines@.len() - i,
        {
            let len = lines[i].len();
            proof {
                assert(ls.take(i + 1).drop_last() =~= ls.take(i as int));
                assert(ls.take(i + 1).last() == ls[i as int]);
            }
            if len > best {
                best = len;
            }
            i = i + 1;
        }
        proof {
            assert(ls.take(ls.len() as int) =~= ls);
        }
        best
    }

    /// The number of lines.
    pub fn height(&self) -> (r: usize)
        ensures
            r == model_height(self.model()),
    {
        let lines = split_into_lines(self.content.as_str());
        lines.len()
    }

    /// Replaces the stored anchor.
    pub fn move_to(&mut self, new_position: Position)
        ensures
            final(self).model() == model_moved(
                old(self).model(),
                new_position.x as int,
                new_position.y as int,
            ),
    {
        self.position = new_position;
    }

    /// Writes the text onto `grid`, anchored at `(px, py)` instead of
    /// the stored position.
    pub fn draw_at(&self, grid: &mut AsciiGrid, px: i32, py: i32)
        requires
            model_fits(self.model(), px as int, py as int),
        ensures
            final(grid)@ == model_draw(self.model(), old(grid)@, px as int, py as int),
            final(grid).spec_fill_char() == old(grid).spec_fill_char(),
    {
        let lines = split_into_lines(self.content.as_str());
        let ghost ls = split_lines(self.content@);
        let ghost g0 = grid@;
        let ghost w = model_width(self.model());
        let ghost h = model_height(self.model());
        let mut iy: usize = 0;
        while iy < lines.len()
            invariant
                iy <= lines@.len(),
                lines@.len() == ls.len(),
                ls.len() == h,
                forall|k: int| 0 <= k < lines@.len() ==> lines@[k]@ == ls[k],
                0 <= px,
                0 <= py,
                px + w <= i32::MAX,
                py + h <= i32::MAX,
                w == max_line_len(ls),
                grid@ == text_rows(g0, ls, px as int, py as int, iy as nat),
                grid.spec_fill_char() == old(grid).spec_fill_char(),
            decreases lines@.len() - iy,
        {
            proof {
                lemma_line_le_max(ls, iy as int);
            }
            let mut ix: usize = 0;
            while ix < lines[iy].len()
                invariant
                    iy < lines@.len(),
                    ix <= lines@[iy as int]@.len(),
                    lines@.len() == ls.len(),
                    ls.len() == h,
                    forall|k: int| 0 <= k < lines@.len() ==> lines@[k]@ == ls[k],
                    ls[iy as int].len() <= w,
                    0 <= px,
                    0 <= py,
                    px + w <= i32::MAX,
                    py + h <= i32::MAX,
                    grid@ == text_row(
                        text_rows(g0, ls, px as int, py as int, iy as nat),
                        ls[iy as int],
                        px as int,
                        py + iy,
                        ix as nat,
                    ),
                    grid.spec_fill_char() == old(grid).spec_fill_char(),
                decreases lines@[iy as int]@.len() - ix,
            {
                let ch = lines[iy][ix];
                let pos = Position::new(px + ix as i32, py + iy as i32);
                grid.put_char(ch, &pos);
                ix = ix + 1;
            }
            iy = iy + 1;
        }
    }

    /// Writes the text onto `grid` at its stored anchor.
    pub fn draw(&self, grid: &mut AsciiGrid)
        requires
            model_fits(
                self.model(),
                model_pos(self.model()).0,
                model_pos(self.model()).1,
            ),
        ensures
            final(grid)@ == model_draw(
                self.model(),
                old(grid)@,
                model_pos(self.model()).0,
                model_pos(self.model()).1,
            ),
            final(grid).spec_fill_char() == old(grid).spec_fill_char(),
    {
        let p = self.position();
        self.draw_at(grid, p.x, p.y);
    }
}

} // verus!
