//! Placement: where the children of a combinator go inside the rectangle
//! that the combinator was given.

use vstd::prelude::*;
use crate::folds::{centered_row_total, col_total, root_values, row_total, stack_from};
use crate::graphics::rect::{Area, Rect, Vec2, COORD_LIMIT};
use crate::needed_space::{NeededSpace, Space};
use crate::sized_tree::Tree;

verus! {

/// The area of extent `size` whose top-left corner is `(x0, y0)`.
pub open spec fn area_at(x0: int, y0: int, size: Space) -> Area {
    Area { x0, y0, x1: x0 + size.x, y1: y0 + size.height() }
}

/// `area` is at least as large as `size`.
pub open spec fn holds(area: Area, size: Space) -> bool {
    area.x0 + size.x <= area.x1 && area.y0 + size.height() <= area.y1
}

/// Whether `rect` lies within the coordinate limit and is at least as
/// large as `size`: what drawing asks of the rectangle it is given.
pub fn has_room(rect: &Rect, size: &NeededSpace) -> (r: bool)
    ensures
        r == (rect.bounded() && holds(rect@, size@)),
{
    let bounded = -COORD_LIMIT <= rect.min.x && rect.min.x <= COORD_LIMIT && -COORD_LIMIT
        <= rect.min.y && rect.min.y <= COORD_LIMIT && -COORD_LIMIT <= rect.max.x && rect.max.x
        <= COORD_LIMIT && -COORD_LIMIT <= rect.max.y && rect.max.y <= COORD_LIMIT;
    if !bounded {
        return false;
    }
    let extent = size.size();
    rect.min.x + extent.x <= rect.max.x && rect.min.y + extent.y <= rect.max.y
}

/// The widths of the sizes, added up.
pub open spec fn widths(s: Seq<Space>) -> nat
    decreases s.len(),
{
    if s.len() == 0 {
        0
    } else {
        widths(s.drop_last()) + s.last().x
    }
}

/// The total heights of the sizes, added up.
pub open spec fn heights(s: Seq<Space>) -> nat
    decreases s.len(),
{
    if s.len() == 0 {
        0
    } else {
        heights(s.drop_last()) + s.last().height()
    }
}

/// The size by which child number `i` of a row is placed: its own, or its
/// centred one.
pub open spec fn row_item(vals: Seq<Space>, i: int, centered: bool) -> Space {
    if centered {
        vals[i].center_y()
    } else {
        vals[i]
    }
}

/// Where child number `i` of a row goes: to the right of those before it,
/// and as far down as makes its alignment line meet the row's, which lies
/// `line` below the origin.
pub open spec fn row_area(
    x0: int,
    y0: int,
    line: int,
    vals: Seq<Space>,
    i: int,
    centered: bool,
) -> Area {
    let item = row_item(vals, i, centered);
    area_at(x0 + widths(vals.take(i)), y0 + line - item.above, item)
}

/// Where child number `i` of a column goes: below those before it, at the
/// left edge or, in a centred column of the given width, in the middle.
pub open spec fn col_area(x0: int, y0: int, width: int, vals: Seq<Space>, i: int, centered: bool) -> Area {
    let shift = if centered {
        (width - vals[i].x) / 2
    } else {
        0
    };
    area_at(x0 + shift, y0 + heights(vals.take(i)), vals[i])
}

/// The leading sizes are together no wider than all of them.
pub proof fn lemma_widths_prefix(s: Seq<Space>, k: int)
    requires
        0 <= k <= s.len(),
    ensures
        widths(s.take(k)) <= widths(s),
    decreases s.len(),
{
    if k == s.len() {
        assert(s.take(k) =~= s);
    } else {
        assert(s.drop_last().take(k) =~= s.take(k));
        lemma_widths_prefix(s.drop_last(), k);
    }
}

/// The leading sizes are together no higher than all of them.
pub proof fn lemma_heights_prefix(s: Seq<Space>, k: int)
    requires
        0 <= k <= s.len(),
    ensures
        heights(s.take(k)) <= heights(s),
    decreases s.len(),
{
    if k == s.len() {
        assert(s.take(k) =~= s);
    } else {
        assert(s.drop_last().take(k) =~= s.take(k));
        lemma_heights_prefix(s.drop_last(), k);
    }
}

/// A row is as wide as its parts together, and reaches as far up and down
/// as any of them.
pub proof fn lemma_row_covers(s: Seq<Space>)
    ensures
        row_total(s).x == widths(s),
        forall|i: int|
            0 <= i < s.len() ==> (#[trigger] s[i]).above <= row_total(s).above && s[i].below
                <= row_total(s).below,
    decreases s.len(),
{
    if s.len() > 0 {
        lemma_row_covers(s.drop_last());
        assert forall|i: int| 0 <= i < s.len() implies (#[trigger] s[i]).above <= row_total(
            s,
        ).above && s[i].below <= row_total(s).below by {
            if i < s.len() - 1 {
                assert(s.drop_last()[i] == s[i]);
            }
        }
    }
}

/// A centred row is as wide as its parts together, reaches equally far up
/// and down, and as far as the centred form of any of its parts.
pub proof fn lemma_centered_row_covers(s: Seq<Space>)
    ensures
        centered_row_total(s).x == widths(s),
        centered_row_total(s).above == centered_row_total(s).below,
        forall|i: int|
            0 <= i < s.len() ==> (#[trigger] s[i]).center_y().above <= centered_row_total(s).above,
    decreases s.len(),
{
    if s.len() > 0 {
        lemma_centered_row_covers(s.drop_last());
        assert forall|i: int| 0 <= i < s.len() implies (#[trigger] s[i]).center_y().above
            <= centered_row_total(s).above by {
            if i < s.len() - 1 {
                assert(s.drop_last()[i] == s[i]);
            }
        }
    }
}

/// A stack is as high as its parts together and as wide as the widest.
pub proof fn lemma_stack_covers(init: Space, s: Seq<Space>)
    ensures
        stack_from(init, s).above == init.above,
        stack_from(init, s).height() == init.height() + heights(s),
        init.x <= stack_from(init, s).x,
        forall|i: int| 0 <= i < s.len() ==> (#[trigger] s[i]).x <= stack_from(init, s).x,
    decreases s.len(),
{
    if s.len() > 0 {
        lemma_stack_covers(init, s.drop_last());
        assert forall|i: int| 0 <= i < s.len() implies (#[trigger] s[i]).x <= stack_from(
            init,
            s,
        ).x by {
            if i < s.len() - 1 {
                assert(s.drop_last()[i] == s[i]);
            }
        }
    }
}

/// The heights together are the first height and those of the rest.
pub proof fn lemma_heights_first(s: Seq<Space>)
    requires
        s.len() > 0,
    ensures
        heights(s) == s[0].height() + heights(s.skip(1)),
    decreases s.len(),
{
    if s.len() == 1 {
        assert(s.drop_last() =~= Seq::<Space>::empty());
        assert(s.skip(1) =~= Seq::<Space>::empty());
    } else {
        lemma_heights_first(s.drop_last());
        assert(s.drop_last().skip(1) =~= s.skip(1).drop_last());
    }
}

/// A column is as high as its parts together and as wide as the widest.
pub proof fn lemma_col_covers(s: Seq<Space>)
    ensures
        col_total(s).height() == heights(s),
        forall|i: int| 0 <= i < s.len() ==> (#[trigger] s[i]).x <= col_total(s).x,
{
    if s.len() > 0 {
        lemma_stack_covers(s[0], s.skip(1));
        lemma_heights_first(s);
        assert forall|i: int| 0 <= i < s.len() implies (#[trigger] s[i]).x <= col_total(s).x by {
            if i > 0 {
                assert(s.skip(1)[i - 1] == s[i]);
            }
        }
    }
}

/// The rectangles of the first `count` trees, side by side from `origin`
/// on, each moved down until its alignment line lies `line` below the
/// origin.
pub fn place_row(
    origin: Vec2,
    line: u32,
    kids: &Vec<Tree<NeededSpace>>,
    count: usize,
    centered: bool,
) -> (r: Vec<Rect>)
    requires
        origin.bounded(),
        count <= kids.len(),
        origin.x + widths(root_values(kids@).take(count as int)) <= COORD_LIMIT,
    ensures
        r.len() == count,
        forall|i: int|
            0 <= i < count ==> (#[trigger] r[i])@ == row_area(
                origin.x as int,
                origin.y as int,
                line as int,
                root_values(kids@),
                i,
                centered,
            ),
{
    let ghost vals = root_values(kids@);
    let mut rects: Vec<Rect> = Vec::new();
    let mut x: i64 = origin.x;
    let mut i: usize = 0;
    while i < count
        invariant
            i <= count <= kids.len(),
            origin.bounded(),
            vals == root_values(kids@),
            origin.x + widths(vals.take(count as int)) <= COORD_LIMIT,
            x == origin.x + widths(vals.take(i as int)),
            rects.len() == i,
            forall|j: int|
                0 <= j < i ==> (#[trigger] rects[j])@ == row_area(
                    origin.x as int,
                    origin.y as int,
                    line as int,
                    vals,
                    j,
                    centered,
                ),
        decreases count - i,
    {
        let item = if centered {
            kids[i].value.center_y()
        } else {
            kids[i].value
        };
        proof {
            let next = vals.take(i + 1);
            assert(next.drop_last() =~= vals.take(i as int));
            assert(next.last() == vals[i as int]);
            assert(vals.take(count as int).take(i + 1) =~= next);
            lemma_widths_prefix(vals.take(count as int), i + 1);
        }
        let y: i64 = origin.y + (line as i64 - item.size_y_above as i64);
        let size = item.size();
        rects.push(Rect { min: Vec2 { x, y }, max: Vec2 { x: x + size.x, y: y + size.y } });
        x = x + size.x;
        i += 1;
    }
    rects
}

/// The rectangles of the trees from index `from` on, one below the other
/// from `origin` on; in a centred column each is moved to the middle of
/// `width`.
pub fn place_col(
    origin: Vec2,
    width: i64,
    kids: &Vec<Tree<NeededSpace>>,
    from: usize,
    centered: bool,
) -> (r: Vec<Rect>)
    requires
        origin.bounded(),
        from <= kids.len(),
        origin.y + heights(root_values(kids@).skip(from as int)) <= COORD_LIMIT,
        centered ==> 0 <= width && origin.x + width <= COORD_LIMIT,
        centered ==> forall|i: int| from <= i < kids.len() ==> (#[trigger] kids[i]).value.size_x <= width,
    ensures
        r.len() == kids.len() - from,
        forall|i: int|
            0 <= i < r.len() ==> (#[trigger] r[i])@ == col_area(
                origin.x as int,
                origin.y as int,
                width as int,
                root_values(kids@).skip(from as int),
                i,
                centered,
            ),
{
    let ghost vals = root_values(kids@).skip(from as int);
    let mut rects: Vec<Rect> = Vec::new();
    let mut y: i64 = origin.y;
    let mut i: usize = from;
    while i < kids.len()
        invariant
            from <= i <= kids.len(),
            origin.bounded(),
            vals == root_values(kids@).skip(from as int),
            origin.y + heights(vals) <= COORD_LIMIT,
            centered ==> 0 <= width && origin.x + width <= COORD_LIMIT,
            centered ==> forall|j: int|
                from <= j < kids.len() ==> (#[trigger] kids[j]).value.size_x <= width,
            y == origin.y + heights(vals.take(i - from)),
            rects.len() == i - from,
            forall|j: int|
                0 <= j < i - from ==> (#[trigger] rects[j])@ == col_area(
                    origin.x as int,
                    origin.y as int,
                    width as int,
                    vals,
                    j,
                    centered,
                ),
        decreases kids.len() - i,
    {
        let item = kids[i].value;
        proof {
            let next = vals.take(i - from + 1);
            assert(next.drop_last() =~= vals.take(i - from));
            assert(next.last() == vals[i - from]);
            assert(vals[i - from] == item@);
            lemma_heights_prefix(vals, i - from + 1);
        }
        let size = item.size();
        let x: i64 = if centered {
            origin.x + (width - size.x) / 2
        } else {
            origin.x
        };
        rects.push(Rect { min: Vec2 { x, y }, max: Vec2 { x: x + size.x, y: y + size.y } });
        y = y + size.y;
        i += 1;
    }
    rects
}

} // verus!
