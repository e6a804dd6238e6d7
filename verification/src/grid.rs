//! A dynamically growing two-dimensional character buffer addressed by
//! `Position`; the rendering target.
//!
//! Any cell that was never written reads as absent from the snapshot;
//! writing a cell beyond the current bounds grows the buffer.  Newly
//! created rows start empty, while newly created columns within an
//! existing row are filled with a space character (not the grid's
//! configured fill character) — that asymmetry is deliberate and is
//! pinned down by [`grid_put`].

use vstd::prelude::*;

use crate::position::Position;

verus! {

/// The character buffer.  Its view is the sequence of rows written so
/// far, each row a sequence of characters.
#[derive(Debug, Clone)]
pub struct AsciiGrid {
    fill_char: char,
    grid: Vec<Vec<char>>,
}

impl View for AsciiGrid {
    type V = Seq<Seq<char>>;

    closed spec fn view(&self) -> Seq<Seq<char>> {
        Seq::new(self.grid@.len(), |i: int| self.grid@[i]@)
    }
}

/// The snapshot that results from writing `ch` at column `x` of row `y`
/// of `g`: missing rows are appended empty, missing columns of row `y`
/// are appended as spaces, then the cell itself is overwritten.
pub open spec fn grid_put(g: Seq<Seq<char>>, ch: char, x: int, y: int) -> Seq<Seq<char>>
    recommends
        0 <= x,
        0 <= y,
{
    let grown = if y < g.len() {
        g
    } else {
        g + Seq::new((y + 1 - g.len()) as nat, |i: int| Seq::<char>::empty())
    };
    let row = grown[y];
    let padded = if x < row.len() {
        row
    } else {
        row + Seq::new((x + 1 - row.len()) as nat, |i: int| ' ')
    };
    grown.update(y, padded.update(x, ch))
}

/// The text form of a snapshot: every row in order, each followed by a
/// newline character.
pub open spec fn grid_text(rows: Seq<Seq<char>>) -> Seq<char>
    decreases rows.len(),
{
    if rows.len() == 0 {
        Seq::empty()
    } else {
        rows[0] + seq!['\n'] + grid_text(rows.drop_first())
    }
}

impl AsciiGrid {
    /// The fill character this grid was configured with.
    pub closed spec fn spec_fill_char(&self) -> char {
        self.fill_char
    }

    pub fn new(fill_char: char, grid: Vec<Vec<char>>) -> (r: Self)
        ensures
            r.spec_fill_char() == fill_char,
            r@.len() == grid@.len(),
            forall|i: int| 0 <= i < grid@.len() ==> r@[i] == grid@[i]@,
    {
        Self { fill_char, grid }
    }

    pub fn empty(fill_char: char) -> (r: Self)
        ensures
            r.spec_fill_char() == fill_char,
            r@ == Seq::<Seq<char>>::empty(),
    {
        let r = Self { fill_char, grid: Vec::new() };
        proof {
            assert(r@ =~= Seq::<Seq<char>>::empty());
        }
        r
    }

    /// Writes `ch` at `pos`, growing the backing storage as needed.
    /// Negative coordinates are a caller contract violation, which the
    /// precondition rules out.
    pub fn put_char(&mut self, ch: char, pos: &Position)
        requires
            0 <= pos.x,
            0 <= pos.y,
        ensures
            final(self)@ == grid_put(old(self)@, ch, pos.x as int, pos.y as int),
            final(self).spec_fill_char() == old(self).spec_fill_char(),
    {
        let x = pos.x as usize;
        let y = pos.y as usize;
        let ghost old_g = old(self)@;
        let ghost grown = if (pos.y as int) < old_g.len() {
            old_g
        } else {
            old_g + Seq::new((pos.y + 1 - old_g.len()) as nat, |i: int| Seq::<char>::empty())
        };

        while self.grid.len() <= y
            invariant
                old_g.len() <= self.grid@.len(),
                self.grid@.len() <= old_g.len() || self.grid@.len() <= y + 1,
                self.fill_char == old(self).fill_char,
                forall|i: int| 0 <= i < old_g.len() ==> self.grid@[i]@ == old_g[i],
                forall|i: int|
                    old_g.len() <= i < self.grid@.len() ==> self.grid@[i]@
                        == Seq::<char>::empty(),
            decreases y + 1 - self.grid@.len(),
        {
            self.grid.push(Vec::new());
        }
        proof {
            assert(self@ =~~= grown);
        }

        let mut row = self.grid.remove(y);
        let ghost grown_row = grown[pos.y as int];
        proof {
            assert(row@ =~= grown_row);
            assert(row@.subrange(0, grown_row.len() as int) =~= grown_row);
        }
        let ghost padded = if (pos.x as int) < grown_row.len() {
            grown_row
        } else {
            grown_row + Seq::new((pos.x + 1 - grown_row.len()) as nat, |i: int| ' ')
        };

        while row.len() <= x
            invariant
                grown_row.len() <= row@.len(),
                row@.len() <= grown_row.len() || row@.len() <= x + 1,
                row@.subrange(0, grown_row.len() as int) == grown_row,
                forall|i: int| grown_row.len() <= i < row@.len() ==> row@[i] == ' ',
            decreases x + 1 - row@.len(),
        {
            row.push(' ');
        }
        proof {
            assert(row@ =~= padded);
        }
        row.set(x, ch);
        self.grid.insert(y, row);

        proof {
            let gp = grid_put(old_g, ch, pos.x as int, pos.y as int);
            assert(gp == grown.update(pos.y as int, padded.update(pos.x as int, ch)));
            assert(self@ =~~= gp);
        }
    }

    /// An immutable snapshot of all writes so far.
    pub fn get_grid(&self) -> (r: Vec<Vec<char>>)
        ensures
            r@.len() == self@.len(),
            forall|i: int| 0 <= i < r@.len() ==> r@[i]@ == self@[i],
    {
        let mut out: Vec<Vec<char>> = Vec::new();
        let mut i: usize = 0;
        while i < self.grid.len()
            invariant
                i <= self.grid@.len(),
                out@.len() == i,
                forall|k: int| 0 <= k < i ==> out@[k]@ == self@[k],
            decreases self.grid@.len() - i,
        {
            let mut row: Vec<char> = Vec::new();
            let mut j: usize = 0;
            while j < self.grid[i].len()
                invariant
                    i < self.grid@.len(),
                    j <= self.grid@[i as int]@.len(),
                    row@ == self.grid@[i as int]@.subrange(0, j as int),
                decreases self.grid@[i as int]@.len() - j,
            {
                row.push(self.grid[i][j]);
                proof {
                    assert(row@ =~= self.grid@[i as int]@.subrange(0, j + 1));
                }
                j = j + 1;
            }
            proof {
                assert(row@ =~= self@[i as int]);
            }
            out.push(row);
            i = i + 1;
        }
        out
    }

    /// The grid rendered as text: every row in order, each followed by
    /// a newline.
    pub fn to_text(&self) -> (r: String)
        ensures
            r@ == grid_text(self@),
    {
        let mut chars: Vec<char> = Vec::new();
        let mut i: usize = 0;
        proof {
            assert(self@.skip(0) =~= self@);
            assert(chars@ + grid_text(self@) =~= grid_text(self@));
        }
        while i < self.grid.len()
            invariant
                i <= self.grid@.len(),
                chars@ + grid_text(self@.skip(i as int)) == grid_text(self@),
            decreases self.grid@.len() - i,
        {
            let ghost before = chars@;
            let mut j: usize = 0;
            while j < self.grid[i].len()
                invariant
                    i < self.grid@.len(),
                    j <= self.grid@[i as int]@.len(),
                    chars@ == before + self@[i as int].subrange(0, j as int),
                decreases self.grid@[i as int]@.len() - j,
            {
                chars.push(self.grid[i][j]);
                proof {
                    assert(chars@ =~= before + self@[i as int].subrange(0, j + 1));
                }
                j = j + 1;
            }
            chars.push('\n');
            proof {
                let rest = self@.skip(i as int);
                assert(self@[i as int].subrange(0, self@[i as int].len() as int)
                    =~= self@[i as int]);
                assert(rest.drop_first() =~= self@.skip(i + 1));
                assert(rest[0] == self@[i as int]);
                assert(chars@ =~= before + (self@[i as int] + seq!['\n']));
                assert(before + (self@[i as int] + seq!['\n']) + grid_text(self@.skip(i + 1))
                    =~= before + (self@[i as int] + seq!['\n'] + grid_text(self@.skip(i + 1))));
            }
            i = i + 1;
        }
        proof {
            assert(self@.skip(self.grid@.len() as int) =~= Seq::<Seq<char>>::empty());
            assert(chars@ =~= grid_text(self@));
        }
        crate::chars::string_from_chars(&chars)
    }
}

} // verus!

