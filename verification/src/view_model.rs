//! The stringifiable snapshot of a rendered character grid, handed to a
//! presentation layer.

use vstd::prelude::*;

use crate::chars::string_from_chars;

verus! {

/// The rows joined by single newline separators, with no trailing
/// newline.
pub open spec fn joined_rows(rows: Seq<Seq<char>>) -> Seq<char>
    decreases rows.len(),
{
    if rows.len() == 0 {
        Seq::empty()
    } else if rows.len() == 1 {
        rows[0]
    } else {
        rows[0] + seq!['\n'] + joined_rows(rows.drop_first())
    }
}

/// Appending a row appends a separator and the row, except to an empty
/// snapshot.
pub proof fn lemma_joined_rows_push(rows: Seq<Seq<char>>, row: Seq<char>)
    ensures
        joined_rows(rows.push(row)) == if rows.len() == 0 {
            row
        } else {
            joined_rows(rows) + seq!['\n'] + row
        },
    decreases rows.len(),
{
    if rows.len() == 0 {
        assert(rows.push(row)[0] =~= row);
    } else {
        lemma_joined_rows_push(rows.drop_first(), row);
        assert(rows.push(row).drop_first() =~= rows.drop_first().push(row));
        if rows.len() == 1 {
            assert(joined_rows(rows.push(row)) == rows[0] + seq!['\n'] + joined_rows(
                rows.drop_first().push(row),
            ));
            assert(joined_rows(rows.drop_first().push(row)) == row);
            assert(joined_rows(rows) == rows[0]);
        } else {
            assert(joined_rows(rows) + seq!['\n'] + row =~= rows[0] + seq!['\n'] + (joined_rows(
                rows.drop_first(),
            ) + seq!['\n'] + row));
        }
    }
}

/// A snapshot of a rendered grid: a rectangle of characters, row by
/// row.
#[derive(Debug, Clone)]
pub struct AsciiGridViewModel {
    pub grid: Vec<Vec<char>>,
}

impl AsciiGridViewModel {
    /// The rows this snapshot holds.
    pub open spec fn rows(&self) -> Seq<Seq<char>> {
        Seq::new(self.grid@.len(), |i: int| self.grid@[i]@)
    }

    pub fn new(grid: Vec<Vec<char>>) -> (r: Self)
        ensures
            r.rows().len() == grid@.len(),
            forall|i: int| 0 <= i < grid@.len() ==> r.rows()[i] == grid@[i]@,
    {
        Self { grid }
    }

    /// The snapshot with no rows at all.
    pub fn empty() -> (r: Self)
        ensures
            r.rows() == Seq::<Seq<char>>::empty(),
    {
        let r = Self { grid: Vec::new() };
        proof {
            assert(r.rows() =~= Seq::<Seq<char>>::empty());
        }
        r
    }

    /// The rows joined by newlines, with no trailing newline; the
    /// externally visible text form of a rendered diagram.
    pub fn to_string(&self) -> (r: String)
        ensures
            r@ == joined_rows(self.rows()),
    {
        let mut chars: Vec<char> = Vec::new();
        let mut i: usize = 0;
        proof {
            assert(self.rows().take(0) =~= Seq::<Seq<char>>::empty());
        }
        while i < self.grid.len()
            invariant
                i <= self.grid@.len(),
                chars@ == joined_rows(self.rows().take(i as int)),
            decreases self.grid@.len() - i,
        {
            let ghost before_row = self.rows().take(i as int);
            if i > 0 {
                chars.push('\n');
            }
            let ghost with_sep = chars@;
            let mut j: usize = 0;
            while j < self.grid[i].len()
                invariant
                    i < self.grid@.len(),
                    j <= self.grid@[i as int]@.len(),
                    chars@ == with_sep + self.rows()[i as int].subrange(0, j as int),
                decreases self.grid@[i as int]@.len() - j,
            {
                chars.push(self.grid[i][j]);
                proof {
                    assert(chars@ =~= with_sep + self.rows()[i as int].subrange(0, j + 1));
                }
                j = j + 1;
            }
            proof {
                lemma_joined_rows_push(before_row, self.rows()[i as int]);
                assert(self.rows().take(i + 1) =~= before_row.push(self.rows()[i as int]));
                assert(self.rows()[i as int].subrange(0, self.rows()[i as int].len() as int)
                    =~= self.rows()[i as int]);
                assert(chars@ =~= joined_rows(self.rows().take(i + 1)));
            }
            i = i + 1;
        }
        proof {
            assert(self.rows().take(self.grid@.len() as int) =~= self.rows());
        }
        string_from_chars(&chars)
    }
}

} // verus!
