//! The mathematical model of the drawable-element tree.
//!
//! Every drawable element is abstracted by an [`ElemModel`]: a text
//! leaf, a bordered element, or a group of children.  The spec
//! functions in this module say, over that model, how large an element
//! is, where it sits, what moving it does, and — cell by cell — what
//! drawing it writes onto a grid snapshot.  The executable types
//! implement views into this model and their contracts are stated over
//! these functions.

use vstd::prelude::*;

use crate::grid::grid_put;

verus! {

/// The abstract drawable element.
pub enum ElemModel {
    /// A leaf holding multi-line text anchored at `(x, y)`.
    Text { x: int, y: int, content: Seq<char> },
    /// A decorator that frames `wrapped` with a one-cell border and
    /// `hpad`/`vpad` cells of padding filled with `fill`.
    Border { wrapped: Box<ElemModel>, x: int, y: int, hpad: nat, vpad: nat, fill: char },
    /// A composite drawing its children in order.
    Group { children: Seq<ElemModel> },
}

// ---------------------------------------------------------------------
// Splitting text into lines
// ---------------------------------------------------------------------
/// The index of the first newline in `s`, or `s.len()` if there is none.
pub open spec fn newline_index(s: Seq<char>) -> int
    decreases s.len(),
{
    if s.len() == 0 {
        0
    } else if s[0] == '\n' {
        0
    } else {
        1 + newline_index(s.drop_first())
    }
}

pub proof fn lemma_newline_index(s: Seq<char>)
    ensures
        0 <= newline_index(s) <= s.len(),
        newline_index(s) < s.len() ==> s[newline_index(s)] == '\n',
        forall|k: int| 0 <= k < newline_index(s) ==> s[k] != '\n',
    decreases s.len(),
{
    if s.len() != 0 && s[0] != '\n' {
        lemma_newline_index(s.drop_first());
        assert forall|k: int| 0 <= k < newline_index(s) implies s[k] != '\n' by {
            if k > 0 {
                assert(s.drop_first()[k - 1] != '\n');
            }
        }
    }
}

/// The lines of `s`, split at newline characters.  The empty text has
/// no lines, and a final newline does not open an empty last line.
pub open spec fn split_lines(s: Seq<char>) -> Seq<Seq<char>>
    decreases s.len(),
{
    if s.len() == 0 {
        Seq::empty()
    } else {
        let i = newline_index(s);
        if 0 <= i < s.len() {
            seq![s.subrange(0, i)] + split_lines(s.subrange(i + 1, s.len() as int))
        } else {
            seq![s]
        }
    }
}

/// The length of the longest of `lines`; zero if there are none.
pub open spec fn max_line_len(lines: Seq<Seq<char>>) -> nat
    decreases lines.len(),
{
    if lines.len() == 0 {
        0
    } else {
        let rest = max_line_len(lines.drop_last());
        if lines.last().len() > rest {
            lines.last().len()
        } else {
            rest
        }
    }
}

pub proof fn lemma_line_le_max(lines: Seq<Seq<char>>, i: int)
    requires
        0 <= i < lines.len(),
    ensures
        lines[i].len() <= max_line_len(lines),
    decreases lines.len(),
{
    if i < lines.len() - 1 {
        lemma_line_le_max(lines.drop_last(), i);
    }
}

/// The children of a group model; any other element has none.
pub open spec fn group_children(m: ElemModel) -> Seq<ElemModel> {
    match m {
        ElemModel::Group { children } => children,
        _ => Seq::empty(),
    }
}

/// Nothing is longer than a bound that every line respects.
pub proof fn lemma_max_line_len_le(lines: Seq<Seq<char>>, bound: nat)
    requires
        forall|k: int| 0 <= k < lines.len() ==> (#[trigger] lines[k]).len() <= bound,
    ensures
        max_line_len(lines) <= bound,
    decreases lines.len(),
{
    if lines.len() > 0 {
        lemma_max_line_len_le(lines.drop_last(), bound);
    }
}

/// A text has no more lines than characters, and no line longer than
/// the whole text.
pub proof fn lemma_split_lines_le(s: Seq<char>)
    ensures
        split_lines(s).len() <= s.len(),
        forall|k: int|
            0 <= k < split_lines(s).len() ==> (#[trigger] split_lines(s)[k]).len() <= s.len(),
    decreases s.len(),
{
    if s.len() != 0 {
        lemma_newline_index(s);
        let i = newline_index(s);
        if 0 <= i < s.len() {
            lemma_split_lines_le(s.subrange(i + 1, s.len() as int));
        }
    }
}

// ---------------------------------------------------------------------
// Size
// ---------------------------------------------------------------------
/// The width of an element in grid cells.
pub open spec fn model_width(m: ElemModel) -> nat
    decreases m,
{
    match m {
        ElemModel::Text { content, .. } => max_line_len(split_lines(content)),
        ElemModel::Border { wrapped, hpad, .. } => model_width(*wrapped) + 2 * hpad + 2,
        ElemModel::Group { children } => children_max_width(children),
    }
}

/// The widest of `children`; zero if there are none.
pub open spec fn children_max_width(children: Seq<ElemModel>) -> nat
    decreases children,
{
    if children.len() == 0 {
        0
    } else {
        let first = model_width(children[0]);
        let rest = children_max_width(children.drop_first());
        if first > rest {
            first
        } else {
            rest
        }
    }
}

/// The height of an element in grid cells.
pub open spec fn model_height(m: ElemModel) -> nat
    decreases m,
{
    match m {
        ElemModel::Text { content, .. } => split_lines(content).len(),
        ElemModel::Border { wrapped, vpad, .. } => model_height(*wrapped) + 2 * vpad + 2,
        ElemModel::Group { children } => children_max_height(children),
    }
}

/// The tallest of `children`; zero if there are none.
pub open spec fn children_max_height(children: Seq<ElemModel>) -> nat
    decreases children,
{
    if children.len() == 0 {
        0
    } else {
        let first = model_height(children[0]);
        let rest = children_max_height(children.drop_first());
        if first > rest {
            first
        } else {
            rest
        }
    }
}

// ---------------------------------------------------------------------
// Position
// ---------------------------------------------------------------------
/// Whether `(ax, ay)` comes no later than `(bx, by)`, comparing rows
/// first and columns second.
pub open spec fn pos_lex_le(ax: int, ay: int, bx: int, by: int) -> bool {
    ay < by || (ay == by && ax <= bx)
}

/// The anchor of an element: its stored position for a leaf or a
/// border, and the row-then-column minimum over the children's anchors
/// for a group — the origin if the group is empty.
pub open spec fn model_pos(m: ElemModel) -> (int, int)
    decreases m,
{
    match m {
        ElemModel::Text { x, y, .. } => (x, y),
        ElemModel::Border { x, y, .. } => (x, y),
        ElemModel::Group { children } => children_min_pos(children),
    }
}

/// The row-then-column minimum over the children's anchors.
pub open spec fn children_min_pos(children: Seq<ElemModel>) -> (int, int)
    decreases children,
{
    if children.len() == 0 {
        (0, 0)
    } else if children.len() == 1 {
        model_pos(children[0])
    } else {
        let first = model_pos(children[0]);
        let rest = children_min_pos(children.drop_first());
        if pos_lex_le(first.0, first.1, rest.0, rest.1) {
            first
        } else {
            rest
        }
    }
}

/// A non-empty group whose children all anchor at the origin anchors
/// at the origin.
pub proof fn lemma_children_min_pos_origin(children: Seq<ElemModel>)
    requires
        children.len() > 0,
        forall|i: int| 0 <= i < children.len() ==> model_pos(#[trigger] children[i]) == (0int, 0int),
    ensures
        children_min_pos(children) == (0int, 0int),
    decreases children.len(),
{
    if children.len() > 1 {
        lemma_children_min_pos_origin(children.drop_first());
    }
}

// ---------------------------------------------------------------------
// Moving
// ---------------------------------------------------------------------
/// The element after relocating it to `(px, py)`: leaves and borders
/// store the new anchor, and a group shifts every child by the
/// difference between the new anchor and the group's current one.
pub open spec fn model_moved(m: ElemModel, px: int, py: int) -> ElemModel
    decreases m,
{
    match m {
        ElemModel::Text { content, .. } => ElemModel::Text { x: px, y: py, content },
        ElemModel::Border { wrapped, hpad, vpad, fill, .. } => ElemModel::Border {
            wrapped,
            x: px,
            y: py,
            hpad,
            vpad,
            fill,
        },
        ElemModel::Group { children } => {
            let anchor = children_min_pos(children);
            ElemModel::Group { children: moved_children(children, px - anchor.0, py - anchor.1) }
        },
    }
}

/// Every child shifted by `(dx, dy)`, preserving relative offsets.
pub open spec fn moved_children(children: Seq<ElemModel>, dx: int, dy: int) -> Seq<ElemModel>
    decreases children,
{
    if children.len() == 0 {
        Seq::empty()
    } else {
        let first = model_moved(
            children[0],
            model_pos(children[0]).0 + dx,
            model_pos(children[0]).1 + dy,
        );
        seq![first] + moved_children(children.drop_first(), dx, dy)
    }
}

pub proof fn lemma_moved_children(children: Seq<ElemModel>, dx: int, dy: int)
    ensures
        moved_children(children, dx, dy).len() == children.len(),
        forall|i: int|
            #![trigger moved_children(children, dx, dy)[i]]
            #![trigger children[i]]
            0 <= i < children.len() ==> moved_children(children, dx, dy)[i] == model_moved(
                children[i],
                model_pos(children[i]).0 + dx,
                model_pos(children[i]).1 + dy,
            ),
    decreases children.len(),
{
    if children.len() > 0 {
        lemma_moved_children(children.drop_first(), dx, dy);
        assert forall|i: int|
            0 <= i < children.len() implies #[trigger] moved_children(children, dx, dy)[i]
            == model_moved(
            children[i],
            model_pos(children[i]).0 + dx,
            model_pos(children[i]).1 + dy,
        ) by {
            if i > 0 {
                assert(children.drop_first()[i - 1] == children[i]);
                assert(moved_children(children, dx, dy)[i] == moved_children(
                    children.drop_first(),
                    dx,
                    dy,
                )[i - 1]);
            }
        }
    }
}

/// Whether relocating the element can be carried out by the machine:
/// every shifted child anchor must stay within `i32`.
pub open spec fn move_ok(m: ElemModel, px: int, py: int) -> bool
    decreases m, 0int,
{
    match m {
        ElemModel::Text { .. } => true,
        ElemModel::Border { .. } => true,
        ElemModel::Group { children } => {
            let anchor = children_min_pos(children);
            forall|i: int|
                0 <= i < children.len() ==> shifted_move_ok(
                    #[trigger] children[i],
                    px - anchor.0,
                    py - anchor.1,
                )
        },
    }
}

/// Whether child `c`, shifted by `(dx, dy)`, lands on an `i32` anchor
/// and can itself be relocated there.
pub open spec fn shifted_move_ok(c: ElemModel, dx: int, dy: int) -> bool
    decreases c, 1int,
{
    let cx = model_pos(c).0 + dx;
    let cy = model_pos(c).1 + dy;
    &&& i32::MIN <= cx <= i32::MAX
    &&& i32::MIN <= cy <= i32::MAX
    &&& move_ok(c, cx, cy)
}

/// Whether an element always anchors exactly where it is moved to.  A
/// group with no children reports the origin as its position whatever
/// it was moved to, so it is not anchored.
pub open spec fn anchored(m: ElemModel) -> bool
    decreases m,
{
    match m {
        ElemModel::Text { .. } => true,
        ElemModel::Border { .. } => true,
        ElemModel::Group { children } => {
            children.len() > 0 && (forall|i: int|
                0 <= i < children.len() ==> anchored(#[trigger] children[i]))
        },
    }
}

// ---------------------------------------------------------------------
// Laws
// ---------------------------------------------------------------------
/// Law: whatever the wrapped element's width `w` and height `h`, a
/// border with paddings `hpad` and `vpad` measures exactly
/// `w + 2*hpad + 2` by `h + 2*vpad + 2` — the two extra cells on each
/// axis being the border itself.
pub proof fn lemma_border_dimensions(
    wrapped: ElemModel,
    x: int,
    y: int,
    hpad: nat,
    vpad: nat,
    fill: char,
)
    ensures
        model_width((ElemModel::Border { wrapped: Box::new(wrapped), x, y, hpad, vpad, fill }))
            == model_width(wrapped) + 2 * hpad + 2,
        model_height((ElemModel::Border { wrapped: Box::new(wrapped), x, y, hpad, vpad, fill }))
            == model_height(wrapped) + 2 * vpad + 2,
{
}

/// Law: drawing a group with no children writes nothing.
pub proof fn lemma_draw_empty_group(g: Seq<Seq<char>>, px: int, py: int)
    ensures
        model_draw((ElemModel::Group { children: Seq::empty() }), g, px, py) == g,
{
    let anchor = children_min_pos(Seq::<ElemModel>::empty());
    assert(anchor == (0int, 0int));
    assert(draw_children(Seq::<ElemModel>::empty(), g, px - anchor.0, py - anchor.1) == g);
}

/// Shifting every anchor by the same offset shifts the row-then-column
/// minimum by that offset.
proof fn lemma_min_pos_shift(s: Seq<ElemModel>, t: Seq<ElemModel>, dx: int, dy: int)
    requires
        s.len() == t.len(),
        s.len() > 0,
        forall|i: int|
            0 <= i < s.len() ==> model_pos(#[trigger] t[i]).0 == model_pos(s[i]).0 + dx
                && model_pos(t[i]).1 == model_pos(s[i]).1 + dy,
    ensures
        children_min_pos(t).0 == children_min_pos(s).0 + dx,
        children_min_pos(t).1 == children_min_pos(s).1 + dy,
    decreases s.len(),
{
    if s.len() > 1 {
        assert forall|i: int|
            0 <= i < s.drop_first().len() implies model_pos(#[trigger] t.drop_first()[i]).0
            == model_pos(s.drop_first()[i]).0 + dx && model_pos(t.drop_first()[i]).1 == model_pos(
            s.drop_first()[i],
        ).1 + dy by {
            assert(t.drop_first()[i] == t[i + 1]);
            assert(s.drop_first()[i] == s[i + 1]);
        }
        lemma_min_pos_shift(s.drop_first(), t.drop_first(), dx, dy);
    }
}

/// Moving an anchored element places its anchor exactly at the target.
pub proof fn lemma_moved_anchor(m: ElemModel, px: int, py: int)
    requires
        anchored(m),
    ensures
        model_pos(model_moved(m, px, py)) == (px, py),
    decreases m,
{
    match m {
        ElemModel::Group { children } => {
            let anchor = children_min_pos(children);
            let dx = px - anchor.0;
            let dy = py - anchor.1;
            let moved = moved_children(children, dx, dy);
            lemma_moved_children(children, dx, dy);
            assert forall|i: int|
                0 <= i < children.len() implies model_pos(#[trigger] moved[i]).0 == model_pos(
                children[i],
            ).0 + dx && model_pos(moved[i]).1 == model_pos(children[i]).1 + dy by {
                lemma_moved_anchor(
                    children[i],
                    model_pos(children[i]).0 + dx,
                    model_pos(children[i]).1 + dy,
                );
            }
            lemma_min_pos_shift(children, moved, dx, dy);
        },
        _ => {},
    }
}

/// Law: moving a group to `p` and then drawing it leaves each child
/// offset from `p` by exactly the child's original offset from the
/// group's anchor before the move.  Drawing takes the tree immutably,
/// so the offsets that hold after the move still hold when the group is
/// drawn.  A child that is a group with no children is left out: such a
/// child reports the origin as its anchor wherever it is moved to.
pub proof fn lemma_group_move_keeps_offsets(children: Seq<ElemModel>, px: int, py: int, i: int)
    requires
        0 <= i < children.len(),
        anchored(children[i]),
    ensures
        ({
            let anchor = children_min_pos(children);
            let moved = group_children(model_moved((ElemModel::Group { children }), px, py));
            &&& moved.len() == children.len()
            &&& model_pos(moved[i]).0 - px == model_pos(children[i]).0 - anchor.0
            &&& model_pos(moved[i]).1 - py == model_pos(children[i]).1 - anchor.1
        }),
{
    let anchor = children_min_pos(children);
    let dx = px - anchor.0;
    let dy = py - anchor.1;
    lemma_moved_children(children, dx, dy);
    lemma_moved_anchor(children[i], model_pos(children[i]).0 + dx, model_pos(children[i]).1 + dy);
}

// ---------------------------------------------------------------------
// Drawing
// ---------------------------------------------------------------------
/// The grid after writing the first `k` characters of `line` at row
/// `y`, starting in column `x`.
pub open spec fn text_row(g: Seq<Seq<char>>, line: Seq<char>, x: int, y: int, k: nat) -> Seq<
    Seq<char>,
>
    decreases k,
{
    if k == 0 {
        g
    } else {
        grid_put(text_row(g, line, x, y, (k - 1) as nat), line[k - 1], x + k - 1, y)
    }
}

/// The grid after writing the first `n` of `lines`, one per row,
/// starting at `(x, y)`.
pub open spec fn text_rows(
    g: Seq<Seq<char>>,
    lines: Seq<Seq<char>>,
    x: int,
    y: int,
    n: nat,
) -> Seq<Seq<char>>
    decreases n,
{
    if n == 0 {
        g
    } else {
        text_row(
            text_rows(g, lines, x, y, (n - 1) as nat),
            lines[n - 1],
            x,
            y + n - 1,
            lines[n - 1].len(),
        )
    }
}

/// The grid after drawing the text `content` anchored at `(x, y)`.
pub open spec fn draw_text(g: Seq<Seq<char>>, content: Seq<char>, x: int, y: int) -> Seq<
    Seq<char>,
> {
    text_rows(g, split_lines(content), x, y, split_lines(content).len())
}

/// The border character for the cell `(ix, iy)` of a `w` by `h` frame:
/// rounded corners, horizontal and vertical edges, `fill` inside.
pub open spec fn frame_char(ix: int, iy: int, w: nat, h: nat, fill: char) -> char {
    if ix == 0 && iy == 0 {
        '\u{256d}'
    } else if ix == 0 && iy == h - 1 {
        '\u{2570}'
    } else if ix == w - 1 && iy == 0 {
        '\u{256e}'
    } else if ix == w - 1 && iy == h - 1 {
        '\u{256f}'
    } else if iy == 0 || iy == h - 1 {
        '\u{2500}'
    } else if ix == 0 || ix == w - 1 {
        '\u{2502}'
    } else {
        fill
    }
}

/// The grid after writing the first `k` cells of frame row `iy`, whose
/// top-left corner is at `(px, py)`.
pub open spec fn frame_row(
    g: Seq<Seq<char>>,
    px: int,
    py: int,
    iy: int,
    w: nat,
    h: nat,
    fill: char,
    k: nat,
) -> Seq<Seq<char>>
    decreases k,
{
    if k == 0 {
        g
    } else {
        grid_put(
            frame_row(g, px, py, iy, w, h, fill, (k - 1) as nat),
            frame_char(k - 1, iy, w, h, fill),
            px + k - 1,
            py + iy,
        )
    }
}

/// The grid after writing the first `rows` rows of a `w` by `h` frame
/// whose top-left corner is at `(px, py)`.
pub open spec fn frame_rows(
    g: Seq<Seq<char>>,
    px: int,
    py: int,
    w: nat,
    h: nat,
    fill: char,
    rows: nat,
) -> Seq<Seq<char>>
    decreases rows,
{
    if rows == 0 {
        g
    } else {
        frame_row(
            frame_rows(g, px, py, w, h, fill, (rows - 1) as nat),
            px,
            py,
            rows - 1,
            w,
            h,
            fill,
            w,
        )
    }
}

/// The grid after drawing the whole `w` by `h` frame at `(px, py)`.
pub open spec fn draw_frame(
    g: Seq<Seq<char>>,
    px: int,
    py: int,
    w: nat,
    h: nat,
    fill: char,
) -> Seq<Seq<char>> {
    frame_rows(g, px, py, w, h, fill, h)
}

/// The grid after drawing element `m` anchored at `(px, py)`.  A text
/// leaf writes its lines; a border writes its frame row by row and then
/// draws what it wraps inside the padding; a group draws its children
/// in order, each shifted so that the group as a whole anchors at
/// `(px, py)`.
pub open spec fn model_draw(m: ElemModel, g: Seq<Seq<char>>, px: int, py: int) -> Seq<Seq<char>>
    decreases m,
{
    match m {
        ElemModel::Text { content, .. } => draw_text(g, content, px, py),
        ElemModel::Border { wrapped, hpad, vpad, fill, .. } => {
            let w = model_width(m);
            let h = model_height(m);
            let framed = draw_frame(g, px, py, w, h, fill);
            model_draw(*wrapped, framed, px + hpad + 1, py + vpad + 1)
        },
        ElemModel::Group { children } => {
            let anchor = children_min_pos(children);
            draw_children(children, g, px - anchor.0, py - anchor.1)
        },
    }
}

/// The grid after drawing `children` in order, each at its own anchor
/// shifted by `(dx, dy)`.
pub open spec fn draw_children(
    children: Seq<ElemModel>,
    g: Seq<Seq<char>>,
    dx: int,
    dy: int,
) -> Seq<Seq<char>>
    decreases children,
{
    if children.len() == 0 {
        g
    } else {
        let first = model_draw(
            children[0],
            g,
            model_pos(children[0]).0 + dx,
            model_pos(children[0]).1 + dy,
        );
        draw_children(children.drop_first(), first, dx, dy)
    }
}

/// Whether drawing `m` anchored at `(px, py)` stays within the grid's
/// coordinate space: no cell may have a negative coordinate and no
/// coordinate may leave `i32`.
pub open spec fn model_fits(m: ElemModel, px: int, py: int) -> bool
    decreases m, 0int,
{
    match m {
        ElemModel::Text { .. } => {
            &&& 0 <= px
            &&& 0 <= py
            &&& px + model_width(m) <= i32::MAX
            &&& py + model_height(m) <= i32::MAX
        },
        ElemModel::Border { wrapped, hpad, vpad, .. } => {
            &&& 0 <= px
            &&& 0 <= py
            &&& px + model_width(m) <= i32::MAX
            &&& py + model_height(m) <= i32::MAX
            &&& model_fits(*wrapped, px + hpad + 1, py + vpad + 1)
        },
        ElemModel::Group { children } => {
            let anchor = children_min_pos(children);
            forall|i: int|
                0 <= i < children.len() ==> shifted_fits(
                    #[trigger] children[i],
                    px - anchor.0,
                    py - anchor.1,
                )
        },
    }
}

/// Whether child `c`, shifted by `(dx, dy)`, lands on an `i32` anchor
/// and fits on the grid there.
pub open spec fn shifted_fits(c: ElemModel, dx: int, dy: int) -> bool
    decreases c, 1int,
{
    let cx = model_pos(c).0 + dx;
    let cy = model_pos(c).1 + dy;
    &&& i32::MIN <= cx <= i32::MAX
    &&& i32::MIN <= cy <= i32::MAX
    &&& model_fits(c, cx, cy)
}

} // verus!
