//! The composite element: a group that owns an ordered sequence of
//! child elements and treats them as one drawable unit.

use vstd::prelude::*;

use crate::element::{lemma_models_of, models_of, AsciiElement};
use crate::grid::AsciiGrid;
use crate::model::{
    children_max_height, children_max_width, children_min_pos, draw_children, group_children,
    model_draw, model_fits, model_height, model_moved, model_pos, model_width, move_ok,
    moved_children, lemma_moved_children, shifted_fits, shifted_move_ok, ElemModel,
};
use crate::position::Position;

verus! {

/// A drawable group that exclusively owns its children.
pub struct AsciiComposite {
    components: Vec<AsciiElement>,
}

/// The widest element among `v[i..]`.
fn max_width_from(v: &Vec<AsciiElement>, i: usize) -> (r: usize)
    requires
        i <= v@.len(),
        children_max_width(models_of(v@).skip(i as int)) <= usize::MAX,
    ensures
        r == children_max_width(models_of(v@).skip(i as int)),
    decreases v@, v@.len() - i,
{
    proof {
        lemma_models_of(v@);
    }
    let ghost ms = models_of(v@);
    if i == v.len() {
        proof {
            assert(ms.skip(i as int) =~= Seq::<ElemModel>::empty());
        }
        0
    } else {
        proof {
            assert(ms.skip(i as int)[0] == ms[i as int]);
            assert(ms.skip(i as int).drop_first() =~= ms.skip(i + 1));
        }
        let first = v[i].width();
        let rest = max_width_from(v, i + 1);
        if first > rest {
            first
        } else {
            rest
        }
    }
}

/// The tallest element among `v[i..]`.
fn max_height_from(v: &Vec<AsciiElement>, i: usize) -> (r: usize)
    requires
        i <= v@.len(),
        children_max_height(models_of(v@).skip(i as int)) <= usize::MAX,
    ensures
        r == children_max_height(models_of(v@).skip(i as int)),
    decreases v@, v@.len() - i,
{
    proof {
        lemma_models_of(v@);
    }
    let ghost ms = models_of(v@);
    if i == v.len() {
        proof {
            assert(ms.skip(i as int) =~= Seq::<ElemModel>::empty());
        }
        0
    } else {
        proof {
            assert(ms.skip(i as int)[0] == ms[i as int]);
            assert(ms.skip(i as int).drop_first() =~= ms.skip(i + 1));
        }
        let first = v[i].height();
        let rest = max_height_from(v, i + 1);
        if first > rest {
            first
        } else {
            rest
        }
    }
}

/// The row-then-column minimum anchor among `v[i..]`.
fn min_pos_from(v: &Vec<AsciiElement>, i: usize) -> (r: Position)
    requires
        i < v@.len(),
    ensures
        (r.x as int, r.y as int) == children_min_pos(models_of(v@).skip(i as int)),
    decreases v@, v@.len() - i,
{
    proof {
        lemma_models_of(v@);
    }
    let ghost ms = models_of(v@);
    let n = v.len();
    let first = v[i].position();
    if i + 1 == n {
        proof {
            assert(ms.skip(i as int).len() == 1);
            assert(ms.skip(i as int)[0] == ms[i as int]);
        }
        first
    } else {
        proof {
            assert(ms.skip(i as int)[0] == ms[i as int]);
            assert(ms.skip(i as int).drop_first() =~= ms.skip(i + 1));
        }
        let rest = min_pos_from(v, i + 1);
        if first.y < rest.y || (first.y == rest.y && first.x <= rest.x) {
            first
        } else {
            rest
        }
    }
}

/// Every element of `rest` relocated by `(dx, dy)`, in order.
fn move_each(rest: Vec<AsciiElement>, dx: i64, dy: i64) -> (r: Vec<AsciiElement>)
    requires
        forall|k: int|
            0 <= k < rest@.len() ==> shifted_move_ok(
                (#[trigger] rest@[k]).model(),
                dx as int,
                dy as int,
            ),
    ensures
        models_of(r@) == moved_children(models_of(rest@), dx as int, dy as int),
    decreases rest@,
{
    proof {
        lemma_models_of(rest@);
        lemma_moved_children(models_of(rest@), dx as int, dy as int);
    }
    let ghost entry = rest@;
    let mut rest = rest;
    match rest.pop() {
        None => {
            proof {
                assert(models_of(rest@) =~= Seq::<ElemModel>::empty());
                assert(moved_children(models_of(entry), dx as int, dy as int)
                    =~= Seq::<ElemModel>::empty());
            }
            rest
        },
        Some(mut last) => {
            let ghost front_elems = entry.subrange(0, entry.len() - 1);
            proof {
                assert(last == entry[entry.len() - 1]);
                assert(rest@ =~= front_elems);
            }
            let p = last.position();
            let tx = p.x as i64 + dx;
            let ty = p.y as i64 + dy;
            last.move_to(Position::new(tx as i32, ty as i32));
            let mut front = move_each(rest, dx, dy);
            let ghost front_part = front@;
            front.push(last);
            proof {
                lemma_models_of(entry);
                lemma_models_of(front_elems);
                lemma_models_of(front_part);
                lemma_models_of(front@);
                lemma_moved_children(models_of(front_elems), dx as int, dy as int);
                assert(models_of(entry).subrange(0, entry.len() - 1) =~= models_of(front_elems));
                assert forall|k: int| 0 <= k < front@.len() implies #[trigger] models_of(front@)[k]
                    == moved_children(models_of(entry), dx as int, dy as int)[k] by {
                    if k < front@.len() - 1 {
                        assert(front@[k] == front_part[k]);
                        assert(models_of(front_part)[k] == moved_children(
                            models_of(front_elems),
                            dx as int,
                            dy as int,
                        )[k]);
                        assert(models_of(front_elems)[k] == models_of(entry)[k]);
                    } else {
                        assert(front@[k] == last);
                        assert(models_of(entry)[k] == entry[k].model());
                    }
                }
                assert(models_of(front@) =~= moved_children(
                    models_of(entry),
                    dx as int,
                    dy as int,
                ));
            }
            front
        },
    }
}

/// Draws the elements `v[i..]` in order, each at its own anchor
/// shifted by `(dx, dy)`.
fn draw_children_from(v: &Vec<AsciiElement>, i: usize, dx: i64, dy: i64, grid: &mut AsciiGrid)
    requires
        i <= v@.len(),
        forall|k: int|
            i <= k < v@.len() ==> shifted_fits((#[trigger] v@[k]).model(), dx as int, dy as int),
    ensures
        final(grid)@ == draw_children(
            models_of(v@).skip(i as int),
            old(grid)@,
            dx as int,
            dy as int,
        ),
        final(grid).spec_fill_char() == old(grid).spec_fill_char(),
    decreases v@, v@.len() - i,
{
    proof {
        lemma_models_of(v@);
    }
    let ghost ms = models_of(v@);
    if i == v.len() {
        proof {
            assert(ms.skip(i as int) =~= Seq::<ElemModel>::empty());
        }
    } else {
        proof {
            assert(ms.skip(i as int)[0] == ms[i as int]);
            assert(ms.skip(i as int).drop_first() =~= ms.skip(i + 1));
        }
        let child = &v[i];
        let p = child.position();
        let tx = p.x as i64 + dx;
        let ty = p.y as i64 + dy;
        child.draw_at(grid, tx as i32, ty as i32);
        draw_children_from(v, i + 1, dx, dy, grid);
    }
}

impl AsciiComposite {
    /// The abstract element this group stands for.
    pub closed spec fn model(&self) -> ElemModel
        decreases self,
    {
        ElemModel::Group { children: models_of(self.components@) }
    }

    pub fn new(components: Vec<AsciiElement>) -> (r: Self)
        ensures
            r.model() == (ElemModel::Group { children: models_of(components@) }),
    {
        Self { components }
    }

    /// A group with no children.
    pub fn empty() -> (r: Self)
        ensures
            r.model() == (ElemModel::Group { children: Seq::<ElemModel>::empty() }),
    {
        let r = Self { components: Vec::new() };
        proof {
            assert(models_of(r.components@) =~= Seq::<ElemModel>::empty());
        }
        r
    }

    /// Appends a child; it is drawn after all current children.
    pub fn add(&mut self, component: AsciiElement)
        ensures
            final(self).model() == (ElemModel::Group {
                children: group_children(old(self).model()).push(component.model()),
            }),
    {
        proof {
            lemma_models_of(self.components@.push(component));
            lemma_models_of(self.components@);
        }
        let ghost before = self.components@;
        self.components.push(component);
        proof {
            assert(models_of(before.push(component)) =~= models_of(before).push(
                component.model(),
            ));
        }
    }

    /// The greatest width among the children; zero if there are none.
    pub fn width(&self) -> (r: usize)
        requires
            model_width(self.model()) <= usize::MAX,
        ensures
            r == model_width(self.model()),
        decreases self,
    {
        proof {
            assert(models_of(self.components@).skip(0) =~= models_of(self.components@));
        }
        max_width_from(&self.components, 0)
    }

    /// The greatest height among the children; zero if there are none.
    pub fn height(&self) -> (r: usize)
        requires
            model_height(self.model()) <= usize::MAX,
        ensures
            r == model_height(self.model()),
        decreases self,
    {
        proof {
            assert(models_of(self.components@).skip(0) =~= models_of(self.components@));
        }
        max_height_from(&self.components, 0)
    }

    /// The row-then-column minimum over the children's anchors, or the
    /// origin for an empty group.
    pub fn position(&self) -> (r: Position)
        ensures
            (r.x as int, r.y as int) == model_pos(self.model()),
        decreases self,
    {
        if self.components.is_empty() {
            proof {
                assert(models_of(self.components@) =~= Seq::<ElemModel>::empty());
            }
            Position::new(0, 0)
        } else {
            proof {
                assert(models_of(self.components@).skip(0) =~= models_of(self.components@));
            }
            min_pos_from(&self.components, 0)
        }
    }

    /// Relocates the group: every child is shifted by the difference
    /// between `new_position` and the group's current anchor, which
    /// preserves the children's offsets relative to one another.
    pub fn move_to(&mut self, new_position: Position)
        requires
            move_ok(old(self).model(), new_position.x as int, new_position.y as int),
        ensures
            final(self).model() == model_moved(
                old(self).model(),
                new_position.x as int,
                new_position.y as int,
            ),
        decreases *old(self),
    {
        let cur = self.position();
        let dx = new_position.x as i64 - cur.x as i64;
        let dy = new_position.y as i64 - cur.y as i64;
        let mut taken: Vec<AsciiElement> = Vec::new();
        core::mem::swap(&mut self.components, &mut taken);
        proof {
            lemma_models_of(taken@);
        }
        let moved = move_each(taken, dx, dy);
        self.components = moved;
    }

    /// Paints the group onto `grid`, anchored at `(px, py)`: children
    /// are drawn in order, each shifted by the difference between
    /// `(px, py)` and the group's anchor.
    pub fn draw_at(&self, grid: &mut AsciiGrid, px: i32, py: i32)
        requires
            model_fits(self.model(), px as int, py as int),
        ensures
            final(grid)@ == model_draw(self.model(), old(grid)@, px as int, py as int),
            final(grid).spec_fill_char() == old(grid).spec_fill_char(),
        decreases self,
    {
        let anchor = self.position();
        let dx = px as i64 - anchor.x as i64;
        let dy = py as i64 - anchor.y as i64;
        proof {
            lemma_models_of(self.components@);
            assert(models_of(self.components@).skip(0) =~= models_of(self.components@));
        }
        draw_children_from(&self.components, 0, dx, dy, grid);
    }

    /// Paints the group onto `grid` at its own anchor.
    pub fn draw(&self, grid: &mut AsciiGrid)
        requires
            model_fits(self.model(), model_pos(self.model()).0, model_pos(self.model()).1),
        ensures
            final(grid)@ == model_draw(
                self.model(),
                old(grid)@,
                model_pos(self.model()).0,
                model_pos(self.model()).1,
            ),
            final(grid).spec_fill_char() == old(grid).spec_fill_char(),
    {
        let p = self.position();
        self.draw_at(grid, p.x, p.y);
    }
}

} // verus!
