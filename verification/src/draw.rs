//! Drawing: what a render function paints into its rectangle, as a list of
//! drawing commands for a graphics backend to carry out.

use vstd::prelude::*;
use crate::expr::Expr;
use crate::folds::{
    col_total, lemma_root_values, lemma_row_elem_count_bound, root_values, row_elem_count,
    row_fill, row_total, ROW_LIMIT,
};
use crate::graphics::rect::{Area, Rect, Vec2};
use crate::measure::TextMeasure;
use crate::needed_space::{NeededSpace, Space};
use crate::place::{
    col_area, heights, holds, lemma_centered_row_covers, lemma_col_covers, lemma_heights_prefix,
    lemma_row_covers, lemma_stack_covers, lemma_widths_prefix, place_col, place_row, row_area,
    widths,
};
use crate::renderfns::mapping::Mapped;
use crate::renderfns::{
    col_node, each_layout, pad, padded_general, row_centered_node, row_node, sexpr_size,
    LayoutFn, ListRenderFn, Paint, RenderFn, FRACT_OVERHANG, INDENT, PADDING, SEXPR_PADDING,
};
use crate::sized_tree::{sized_seq, values_of, SizedTree, Tree};

verus! {

#[derive(Clone, Copy, Debug, PartialEq, Eq, Structural)]
pub enum Color {
    White,
    Gray,
    Red,
}

/// One drawing primitive for the graphics backend.
#[derive(Debug, PartialEq, Eq)]
pub enum DrawCmd {
    /// `text` with its top-left corner at `pos`.
    Text { text: String, pos: Vec2, color: Color },
    /// The outline of `rect` with rounded corners. The roundness of the
    /// corners is the quotient of `roundness_num` and `roundness_den`; the
    /// line is `thickness_halves` half units thick.
    RoundedRect {
        rect: Rect,
        roundness_num: i64,
        roundness_den: i64,
        segments: u32,
        thickness_halves: u32,
        color: Color,
    },
    /// A straight line, one unit thick.
    Line { from: Vec2, to: Vec2, color: Color },
}

/// The mathematical form of a drawing command.
pub enum Shape {
    Text { text: Seq<char>, x: int, y: int, color: Color },
    RoundedRect {
        area: Area,
        roundness_num: int,
        roundness_den: int,
        segments: nat,
        thickness_halves: nat,
        color: Color,
    },
    Line { x0: int, y0: int, x1: int, y1: int, color: Color },
}

impl View for DrawCmd {
    type V = Shape;

    open spec fn view(&self) -> Shape {
        match *self {
            DrawCmd::Text { text, pos, color } => Shape::Text {
                text: text@,
                x: pos.x as int,
                y: pos.y as int,
                color,
            },
            DrawCmd::RoundedRect {
                rect,
                roundness_num,
                roundness_den,
                segments,
                thickness_halves,
                color,
            } => Shape::RoundedRect {
                area: rect@,
                roundness_num: roundness_num as int,
                roundness_den: roundness_den as int,
                segments: segments as nat,
                thickness_halves: thickness_halves as nat,
                color,
            },
            DrawCmd::Line { from, to, color } => Shape::Line {
                x0: from.x as int,
                y0: from.y as int,
                x1: to.x as int,
                y1: to.y as int,
                color,
            },
        }
    }
}

/// The mathematical forms of a sequence of commands.
pub open spec fn shapes(cmds: Seq<DrawCmd>) -> Seq<Shape> {
    Seq::new(cmds.len(), |i: int| cmds[i]@)
}

/// The mathematical forms of a sequence of rectangles.
pub open spec fn areas_of(rects: Seq<Rect>) -> Seq<Area> {
    Seq::new(rects.len(), |i: int| rects[i]@)
}

/// The smaller of an area's width and height.
pub open spec fn smaller_side(area: Area) -> int {
    if area.x1 - area.x0 <= area.y1 - area.y0 {
        area.x1 - area.x0
    } else {
        area.y1 - area.y0
    }
}

/// The outline that a group draws round itself: white and thin, with a
/// corner roundness of ten over the smaller side.
pub open spec fn group_outline(area: Area) -> Shape {
    Shape::RoundedRect {
        area,
        roundness_num: 10,
        roundness_den: smaller_side(area),
        segments: 10,
        thickness_halves: 1,
        color: Color::White,
    }
}

/// What a wrapper paints round its content.
pub open spec fn paint_shapes(paint: Paint, outer: Area) -> Seq<Shape> {
    match paint {
        Paint::Nothing => Seq::empty(),
        Paint::Border => seq![
            Shape::RoundedRect {
                area: outer,
                roundness_num: 5,
                roundness_den: 1,
                segments: 10,
                thickness_halves: 4,
                color: Color::Gray,
            },
        ],
    }
}

/// Where element number `i` of a group goes: one of the first
/// `row_elem_count` in the row, a later one in the indented column below
/// the row.
pub open spec fn sexpr_area(area: Area, vals: Seq<Space>, i: int) -> Area {
    let inner = area.shrink(SEXPR_PADDING as int);
    let n = row_elem_count(vals, ROW_LIMIT as nat) as int;
    let row = row_total(vals.take(n));
    if i < n {
        row_area(inner.x0, inner.y0, row.above as int, vals, i, false)
    } else {
        col_area(inner.x0 + INDENT, inner.y0 + row.height(), 0, vals.skip(n), i - n, false)
    }
}

/// Where part number `i` of a fraction goes: below the parts before it, in
/// the middle of the area's width.
pub open spec fn fract_area(area: Area, vals: Seq<Space>, i: int) -> Area {
    col_area(area.x0, area.y0, area.x1 - area.x0, vals, i, true)
}

/// The divider below part number `i` of a fraction: along the part's lower
/// edge, as far beyond the part to the right as the part lies from the
/// area's left edge, where the line starts.
pub open spec fn fract_rule(area: Area, vals: Seq<Space>, i: int) -> Shape {
    let part = fract_area(area, vals, i);
    Shape::Line {
        x0: area.x0,
        y0: part.y1,
        x1: part.x1 + (part.x0 - area.x0),
        y1: part.y1,
        color: Color::White,
    }
}

/// The dividers of a fraction: one below each part but the last.
pub open spec fn fract_rules(area: Area, vals: Seq<Space>) -> Seq<Shape> {
    Seq::new(
        if vals.len() >= 1 {
            (vals.len() - 1) as nat
        } else {
            0
        },
        |i: int| fract_rule(area, vals, i),
    )
}

/// What `f` draws for `n` elements of `data`, the first `skip` left out:
/// the element at `skip + i` into `areas[i]` by the layout `kids[i]`.
pub open spec fn each_draw(
    f: RenderFn,
    data: Seq<Expr>,
    skip: nat,
    areas: Seq<Area>,
    kids: Seq<SizedTree>,
    n: nat,
) -> Seq<Shape>
    decreases data, 0nat, n,
{
    if n == 0 || skip + n > data.len() {
        Seq::empty()
    } else {
        each_draw(f, data, skip, areas, kids, (n - 1) as nat) + f.draw_spec(
            data[skip + n - 1],
            areas[n - 1],
            kids[n - 1],
        )
    }
}

impl RenderFn {
    /// What this strategy draws for `e` into `area`, by the layout `tree`.
    pub open spec fn draw_spec(self, e: Expr, area: Area, tree: SizedTree) -> Seq<Shape>
        decreases e, self.rank(), 0nat,
    {
        match self {
            RenderFn::Symbol => seq![
                Shape::Text { text: e.text(), x: area.x0, y: area.y0, color: Color::White },
            ],
            RenderFn::General => match e {
                Expr::Atom(_) => RenderFn::Symbol.draw_spec(e, area, tree),
                Expr::List(_) => RenderFn::Sexpr.draw_spec(e, area, tree),
            },
            RenderFn::Sexpr => match e {
                Expr::Atom(_) => Seq::empty(),
                Expr::List(items) => each_draw(
                    padded_general(),
                    items@,
                    0,
                    Seq::new(
                        items.len() as nat,
                        |i: int| sexpr_area(area, tree.child_values(), i),
                    ),
                    tree.children,
                    items.len() as nat,
                ) + seq![group_outline(area.shrink(SEXPR_PADDING as int))],
            },
            RenderFn::Fract => match e {
                Expr::Atom(_) => Seq::empty(),
                Expr::List(items) => each_draw(
                    RenderFn::General,
                    items@,
                    1,
                    Seq::new(
                        (items.len() - 1) as nat,
                        |i: int| fract_area(area, tree.child_values(), i),
                    ),
                    tree.children,
                    (items.len() - 1) as nat,
                ) + fract_rules(area, tree.child_values()),
            },
            RenderFn::Wrap { inner, padding, paint } => paint_shapes(paint, area)
                + inner.draw_spec(e, area.shrink(padding as int), tree.children[0]),
            RenderFn::TryMap { select, inner } => {
                if select is Second && e is List && e->List_0.len() >= 2 {
                    inner.draw_spec(e->List_0[1], area, tree)
                } else {
                    seq![Shape::Text { text: e.text(), x: area.x0, y: area.y0, color: Color::Red }]
                }
            },
        }
    }
}

/// Every element of a group is placed inside the group's rectangle, in an
/// area of exactly its own size, provided the rectangle is at least as
/// large as the group.
pub proof fn lemma_sexpr_children_inside(area: Area, vals: Seq<Space>, i: int)
    requires
        holds(area, sexpr_size(vals)),
        0 <= i < vals.len(),
    ensures
        area.contains(sexpr_area(area, vals, i)),
        sexpr_area(area, vals, i).x1 == sexpr_area(area, vals, i).x0 + vals[i].x,
        sexpr_area(area, vals, i).y1 == sexpr_area(area, vals, i).y0 + vals[i].height(),
{
    let n = row_elem_count(vals, ROW_LIMIT as nat) as int;
    lemma_row_elem_count_bound(vals, ROW_LIMIT as nat);
    let head = vals.take(n);
    let rest = vals.skip(n);
    lemma_row_covers(head);
    lemma_stack_covers(Space::zero(), rest);
    if i < n {
        assert(head[i] == vals[i]);
        assert(head.take(i + 1) =~= vals.take(i + 1));
        assert(vals.take(i + 1).drop_last() =~= vals.take(i));
        lemma_widths_prefix(head, i + 1);
    } else {
        let j = i - n;
        assert(rest[j] == vals[i]);
        assert(rest.take(j + 1).drop_last() =~= rest.take(j));
        lemma_heights_prefix(rest, j + 1);
    }
}

/// Every part of a fraction is placed inside the fraction's rectangle, in
/// an area of exactly its own size, and so is every divider.
pub proof fn lemma_fract_children_inside(area: Area, vals: Seq<Space>, i: int)
    requires
        holds(area, col_total(vals).expand_x(FRACT_OVERHANG as nat)),
        0 <= i < vals.len(),
    ensures
        area.contains(fract_area(area, vals, i)),
        fract_area(area, vals, i).x1 == fract_area(area, vals, i).x0 + vals[i].x,
        fract_area(area, vals, i).y1 == fract_area(area, vals, i).y0 + vals[i].height(),
        fract_area(area, vals, i).x1 + (fract_area(area, vals, i).x0 - area.x0) <= area.x1,
{
    lemma_col_covers(vals);
    assert(vals.take(i + 1).drop_last() =~= vals.take(i));
    lemma_heights_prefix(vals, i + 1);
}

impl ListRenderFn {
    /// Where element number `i` goes inside `area`, by the layout `tree`.
    pub open spec fn child_area(self, area: Area, tree: SizedTree, i: int) -> Area {
        let vals = tree.child_values();
        match self {
            ListRenderFn::Row(_) => row_area(
                area.x0,
                area.y0,
                tree.value.above as int,
                vals,
                i,
                false,
            ),
            ListRenderFn::RowCentered(_) => row_area(
                area.x0,
                area.y0,
                tree.value.above as int,
                vals,
                i,
                true,
            ),
            ListRenderFn::Col(_) => col_area(area.x0, area.y0, 0, vals, i, false),
            ListRenderFn::ColCentered(_) => col_area(
                area.x0,
                area.y0,
                area.x1 - area.x0,
                vals,
                i,
                true,
            ),
        }
    }

    /// What this strategy draws for `data` into `area`, by the layout
    /// `tree`: what the element strategy draws for each element in its
    /// place, in order.
    pub open spec fn draw_spec(self, data: Seq<Expr>, area: Area, tree: SizedTree) -> Seq<Shape> {
        each_draw(
            self.elem(),
            data,
            0,
            Seq::new(data.len(), |i: int| self.child_area(area, tree, i)),
            tree.children,
            data.len(),
        )
    }

    /// Every element is placed inside the rectangle, in an area at least as
    /// large as the element, provided the rectangle is at least as large as
    /// the whole.
    pub proof fn lemma_children_inside(self, area: Area, kids: Seq<SizedTree>, value: Space, i: int)
        requires
            value == (match self {
                ListRenderFn::Row(_) => row_node(kids),
                ListRenderFn::RowCentered(_) => row_centered_node(kids),
                ListRenderFn::Col(_) => col_node(kids),
                ListRenderFn::ColCentered(_) => col_node(kids),
            }).value,
            holds(area, value),
            0 <= i < kids.len(),
        ensures
            area.contains(self.child_area(area, SizedTree { value, children: kids }, i)),
            holds(self.child_area(area, SizedTree { value, children: kids }, i), kids[i].value),
    {
        let vals = values_of(kids);
        assert(vals[i] == kids[i].value);
        assert(vals.take(i + 1).drop_last() =~= vals.take(i));
        lemma_widths_prefix(vals, i + 1);
        lemma_heights_prefix(vals, i + 1);
        match self {
            ListRenderFn::Row(_) => {
                lemma_row_covers(vals);
            },
            ListRenderFn::RowCentered(_) => {
                lemma_centered_row_covers(vals);
            },
            ListRenderFn::Col(_) => {
                lemma_col_covers(vals);
            },
            ListRenderFn::ColCentered(_) => {
                lemma_col_covers(vals);
            },
        }
    }

    /// Draws `data` into `rect` by the layout `space`, which is the one
    /// that `layout` gave for the same data and measurements.
    pub fn draw<M: TextMeasure>(
        &self,
        data: &[Expr],
        m: &M,
        rect: Rect,
        space: &Tree<NeededSpace>,
    ) -> (r: Vec<DrawCmd>)
        requires
            self.accepts(data@),
            space.sized() == self.layout_spec(data@, m),
            rect.bounded(),
            holds(rect@, space.value@),
        ensures
            shapes(r@) == self.draw_spec(data@, rect@, space.sized()),
    {
        let kids = &space.children;
        let ghost tree = space.sized();
        let ghost vals = root_values(kids@);
        proof {
            lemma_root_values(kids@);
            assert(tree.children =~= sized_seq(kids@));
            assert(vals.take(vals.len() as int) =~= vals);
            assert(vals.skip(0) =~= vals);
            lemma_row_covers(vals);
            lemma_centered_row_covers(vals);
            lemma_col_covers(vals);
            assert forall|i: int| 0 <= i < kids.len() implies (#[trigger] kids[i]).value.size_x
                <= col_total(vals).x by {
                assert(vals[i] == kids[i].value@);
            }
        }
        let f = match self {
            ListRenderFn::Row(f) => f,
            ListRenderFn::RowCentered(f) => f,
            ListRenderFn::Col(f) => f,
            ListRenderFn::ColCentered(f) => f,
        };
        let rects = match self {
            ListRenderFn::Row(_) => place_row(
                rect.min,
                space.value.size_y_above,
                kids,
                kids.len(),
                false,
            ),
            ListRenderFn::RowCentered(_) => place_row(
                rect.min,
                space.value.size_y_above,
                kids,
                kids.len(),
                true,
            ),
            ListRenderFn::Col(_) => place_col(rect.min, 0, kids, 0, false),
            ListRenderFn::ColCentered(_) => place_col(rect.min, rect.size().x, kids, 0, true),
        };
        proof {
            let wanted = Seq::new(data@.len(), |i: int| self.child_area(rect@, tree, i));
            assert forall|i: int| 0 <= i < rects.len() implies (#[trigger] rects[i])@ == wanted[i]
                && rects[i].bounded() && holds(rects[i]@, kids[i].value@) by {
                self.lemma_children_inside(rect@, tree.children, tree.value, i);
                assert(tree.children[i].value == kids[i].value@);
            }
            assert(areas_of(rects@) =~= wanted);
            assert forall|i: int| 0 <= i < kids.len() implies (#[trigger] kids[i]).sized()
                == f.layout_spec(data@[0 + i], m) by {
                assert(tree.children[i] == kids[i].sized());
            }
        }
        draw_each(f, data, 0, m, &rects, kids)
    }
}

impl RenderFn {
    /// Draws `e` into `rect` by the layout `space`, which is the one that
    /// `layout` gave for the same expression and measurements. The
    /// rectangle is at least as large as the layout asks.
    pub fn draw<M: TextMeasure>(&self, e: &Expr, m: &M, rect: Rect, space: &Tree<NeededSpace>) -> (r:
        Vec<DrawCmd>)
        requires
            self.accepts(*e),
            space.sized() == self.layout_spec(*e, m),
            rect.bounded(),
            holds(rect@, space.value@),
        ensures
            shapes(r@) == self.draw_spec(*e, rect@, space.sized()),
        decreases *e, self.rank(), 0nat,
    {
        match self {
            RenderFn::Symbol => text_cmd(e, rect.min, Color::White),
            RenderFn::General => match e {
                Expr::Atom(_) => RenderFn::Symbol.draw(e, m, rect, space),
                Expr::List(_) => RenderFn::Sexpr.draw(e, m, rect, space),
            },
            RenderFn::Sexpr => match e {
                // Not reached: a group accepts lists only.
                Expr::Atom(_) => Vec::new(),
                Expr::List(items) => {
                    let kids = &space.children;
                    let ghost tree = space.sized();
                    let ghost vals = root_values(kids@);
                    let f = pad(RenderFn::General, PADDING);
                    proof {
                        lemma_root_values(kids@);
                        assert(tree.children =~= sized_seq(kids@));
                        assert(tree.children =~= each_layout(f, items@, m));
                        lemma_row_elem_count_bound(vals, ROW_LIMIT as nat);
                    }
                    let inner = rect.shrink(SEXPR_PADDING as i64);
                    let (row, count) = row_fill(kids);
                    proof {
                        lemma_row_covers(vals.take(count as int));
                        lemma_stack_covers(Space::zero(), vals.skip(count as int));
                    }
                    let mut rects = place_row(inner.min, row.size_y_above, kids, count, false);
                    let below = Vec2 {
                        x: inner.min.x + INDENT as i64,
                        y: inner.min.y + row.size().y,
                    };
                    let mut rest = place_col(below, 0, kids, count, false);
                    let ghost head = rects@;
                    let ghost wrapped = rest@;
                    rects.append(&mut rest);
                    proof {
                        let wanted = Seq::new(
                            items.len() as nat,
                            |i: int| sexpr_area(rect@, vals, i),
                        );
                        assert forall|i: int| 0 <= i < rects.len() implies (#[trigger] rects[i])@
                            == wanted[i] && rects[i].bounded() && holds(
                            rects[i]@,
                            kids[i].value@,
                        ) by {
                            lemma_sexpr_children_inside(rect@, vals, i);
                            if i < count {
                                assert(rects[i] == head[i]);
                            } else {
                                assert(rects[i] == wrapped[i - count]);
                            }
                            assert(vals[i] == kids[i].value@);
                        }
                        assert(areas_of(rects@) =~= wanted);
                        assert forall|i: int| 0 <= i < items@.len() implies f.accepts(
                            #[trigger] items@[i],
                        ) by {
                            assert(RenderFn::General.accepts(items@[i]));
                        }
                        assert forall|i: int| 0 <= i < kids.len() implies (#[trigger] kids[i]).sized()
                            == f.layout_spec(items@[0 + i], m) by {
                            assert(tree.children[i] == kids[i].sized());
                        }
                    }
                    let mut cmds = draw_each(&f, items.as_slice(), 0, m, &rects, kids);
                    let ghost drawn = cmds@;
                    cmds.push(
                        DrawCmd::RoundedRect {
                            rect: inner,
                            roundness_num: 10,
                            roundness_den: inner.size().smaller_comp(),
                            segments: 10,
                            thickness_halves: 1,
                            color: Color::White,
                        },
                    );
                    proof {
                        assert(shapes(cmds@) =~= shapes(drawn) + seq![group_outline(inner@)]);
                    }
                    cmds
                },
            },
            RenderFn::Fract => match e {
                // Not reached: a fraction accepts lists only.
                Expr::Atom(_) => Vec::new(),
                Expr::List(items) => {
                    let kids = &space.children;
                    let ghost tree = space.sized();
                    let ghost vals = root_values(kids@);
                    let f = RenderFn::General;
                    proof {
                        lemma_root_values(kids@);
                        assert(tree.children =~= sized_seq(kids@));
                        lemma_col_covers(vals);
                        assert(vals.skip(0) =~= vals);
                        assert forall|i: int| 0 <= i < kids.len() implies (
                        #[trigger] kids[i]).value.size_x <= col_total(vals).x by {
                            assert(vals[i] == kids[i].value@);
                        }
                    }
                    let rects = place_col(rect.min, rect.size().x, kids, 0, true);
                    proof {
                        let wanted = Seq::new(
                            (items.len() - 1) as nat,
                            |i: int| fract_area(rect@, vals, i),
                        );
                        assert forall|i: int| 0 <= i < rects.len() implies (#[trigger] rects[i])@
                            == wanted[i] && rects[i].bounded() && holds(
                            rects[i]@,
                            kids[i].value@,
                        ) by {
                            lemma_fract_children_inside(rect@, vals, i);
                            assert(vals[i] == kids[i].value@);
                        }
                        assert(areas_of(rects@) =~= wanted);
                        assert forall|i: int| 0 <= i < kids.len() implies (#[trigger] kids[i]).sized()
                            == f.layout_spec(items@[1 + i], m) by {
                            assert(tree.children[i] == kids[i].sized());
                        }
                    }
                    let mut cmds = draw_each(&f, items.as_slice(), 1, m, &rects, kids);
                    let ghost drawn = cmds@;
                    let rules: usize = if rects.len() > 0 {
                        rects.len() - 1
                    } else {
                        0
                    };
                    let mut i: usize = 0;
                    while i < rules
                        invariant
                            i <= rules,
                            rules == fract_rules(rect@, vals).len(),
                            rules < rects.len() || rects.len() == 0,
                            rect.bounded(),
                            vals == root_values(kids@),
                            rects.len() == vals.len(),
                            holds(rect@, col_total(vals).expand_x(FRACT_OVERHANG as nat)),
                            forall|j: int|
                                0 <= j < rects.len() ==> (#[trigger] rects[j])@ == fract_area(
                                    rect@,
                                    vals,
                                    j,
                                ),
                            cmds@.len() == drawn.len() + i,
                            shapes(cmds@) == shapes(drawn) + fract_rules(rect@, vals).take(i as int),
                        decreases rules - i,
                    {
                        proof {
                            lemma_fract_children_inside(rect@, vals, i as int);
                        }
                        let part = rects[i];
                        let ghost before = cmds@;
                        cmds.push(
                            DrawCmd::Line {
                                from: Vec2 { x: rect.min.x, y: part.max.y },
                                to: Vec2 {
                                    x: part.max.x + (part.min.x - rect.min.x),
                                    y: part.max.y,
                                },
                                color: Color::White,
                            },
                        );
                        proof {
                            let rules = fract_rules(rect@, vals);
                            assert(rules.take(i + 1) =~= rules.take(i as int).push(rules[i as int]));
                            assert(shapes(cmds@) =~= shapes(before).push(rules[i as int]));
                        }
                        i += 1;
                    }
                    proof {
                        let rules = fract_rules(rect@, vals);
                        assert(rules.take(i as int) =~= rules);
                    }
                    cmds
                },
            },
            RenderFn::Wrap { inner, padding, paint } => {
                let ghost tree = space.sized();
                assert(tree.children.len() == 1);
                assert(tree.children[0] == space.children[0].sized());
                let inner_rect = rect.shrink(*padding as i64);
                let mut cmds = paint_cmds(*paint, rect);
                let mut content = inner.draw(e, m, inner_rect, &space.children[0]);
                let ghost painted = cmds@;
                let ghost drawn = content@;
                cmds.append(&mut content);
                proof {
                    assert(shapes(painted + drawn) =~= shapes(painted) + shapes(drawn));
                }
                cmds
            },
            RenderFn::TryMap { select, inner } => match select.pick(e) {
                Some(part) => inner.draw(part, m, rect, space),
                None => text_cmd(e, rect.min, Color::Red),
            },
        }
    }
}

/// The painting half of a rendering strategy over `Data`: it draws the data
/// into a rectangle by the tree of sizes that the measuring half gave.
pub trait DrawFn<Data: View + ?Sized, M: TextMeasure>: LayoutFn<Data, M> {
    /// What the strategy draws for `data` into `area`, by the layout `tree`.
    spec fn shapes_of(&self, data: Data::V, area: Area, tree: SizedTree) -> Seq<Shape>;

    /// Draws `data` into `rect` by the layout `space`, which is the one
    /// that `layout_data` gave for the same data and measurements. The
    /// rectangle is at least as large as the layout asks.
    fn draw_data(
        &self,
        data: &Data,
        m: &M,
        rect: Rect,
        space: &Tree<NeededSpace>,
    ) -> (r: Vec<DrawCmd>)
        requires
            self.accepts_data(data@),
            space.sized() == self.layout_of(data@, m),
            rect.bounded(),
            holds(rect@, space.value@),
        ensures
            shapes(r@) == self.shapes_of(data@, rect@, space.sized()),
    ;
}

impl<M: TextMeasure> DrawFn<Expr, M> for RenderFn {
    open spec fn shapes_of(&self, data: Expr, area: Area, tree: SizedTree) -> Seq<Shape> {
        self.draw_spec(data, area, tree)
    }

    fn draw_data(
        &self,
        data: &Expr,
        m: &M,
        rect: Rect,
        space: &Tree<NeededSpace>,
    ) -> (r: Vec<DrawCmd>) {
        self.draw(data, m, rect, space)
    }
}

impl<M: TextMeasure> DrawFn<[Expr], M> for ListRenderFn {
    open spec fn shapes_of(&self, data: Seq<Expr>, area: Area, tree: SizedTree) -> Seq<Shape> {
        self.draw_spec(data, area, tree)
    }

    fn draw_data(
        &self,
        data: &[Expr],
        m: &M,
        rect: Rect,
        space: &Tree<NeededSpace>,
    ) -> (r: Vec<DrawCmd>) {
        self.draw(data, m, rect, space)
    }
}

impl<M: TextMeasure, F: DrawFn<[Expr], M>> DrawFn<Expr, M> for Mapped<F> {
    open spec fn shapes_of(&self, data: Expr, area: Area, tree: SizedTree) -> Seq<Shape> {
        self.inner.shapes_of(self.reshape.apply_spec(data), area, tree)
    }

    fn draw_data(
        &self,
        data: &Expr,
        m: &M,
        rect: Rect,
        space: &Tree<NeededSpace>,
    ) -> (r: Vec<DrawCmd>) {
        self.inner.draw_data(self.reshape.apply(data), m, rect, space)
    }
}

impl Expr {
    /// Draws the expression into `rect` by the layout `space`, which is
    /// the one that `needed_space` gave for the same measurements.
    pub fn draw<M: TextMeasure>(&self, m: &M, rect: Rect, space: &Tree<NeededSpace>) -> (r: Vec<
        DrawCmd,
    >)
        requires
            space.sized() == RenderFn::General.layout_spec(*self, m),
            rect.bounded(),
            holds(rect@, space.value@),
        ensures
            shapes(r@) == RenderFn::General.draw_spec(*self, rect@, space.sized()),
    {
        RenderFn::General.draw(self, m, rect, space)
    }
}

/// The one command that writes the textual form of `e` at `pos`.
pub fn text_cmd(e: &Expr, pos: Vec2, color: Color) -> (r: Vec<DrawCmd>)
    ensures
        shapes(r@) == seq![
            Shape::Text { text: e.text(), x: pos.x as int, y: pos.y as int, color },
        ],
{
    let mut cmds: Vec<DrawCmd> = Vec::new();
    cmds.push(DrawCmd::Text { text: e.to_text(), pos, color });
    assert(shapes(cmds@) =~= seq![
        Shape::Text { text: e.text(), x: pos.x as int, y: pos.y as int, color },
    ]);
    cmds
}

/// The commands for what a wrapper paints round its content.
pub fn paint_cmds(paint: Paint, outer: Rect) -> (r: Vec<DrawCmd>)
    ensures
        shapes(r@) == paint_shapes(paint, outer@),
{
    let mut cmds: Vec<DrawCmd> = Vec::new();
    match paint {
        Paint::Nothing => {
            assert(shapes(cmds@) =~= paint_shapes(paint, outer@));
        },
        Paint::Border => {
            cmds.push(
                DrawCmd::RoundedRect {
                    rect: outer,
                    roundness_num: 5,
                    roundness_den: 1,
                    segments: 10,
                    thickness_halves: 4,
                    color: Color::Gray,
                },
            );
            assert(shapes(cmds@) =~= paint_shapes(paint, outer@));
        },
    }
    cmds
}

/// Draws the elements of `data` from index `skip` on with `f`, each into
/// its rectangle by its layout, in order.
pub fn draw_each<M: TextMeasure>(
    f: &RenderFn,
    data: &[Expr],
    skip: usize,
    m: &M,
    rects: &Vec<Rect>,
    kids: &Vec<Tree<NeededSpace>>,
) -> (r: Vec<DrawCmd>)
    requires
        skip + rects.len() == data@.len(),
        kids.len() == rects.len(),
        forall|i: int| 0 <= i < data@.len() ==> f.accepts(#[trigger] data@[i]),
        forall|i: int|
            0 <= i < kids.len() ==> (#[trigger] kids[i]).sized() == f.layout_spec(
                data@[skip + i],
                m,
            ),
        forall|i: int|
            0 <= i < rects.len() ==> (#[trigger] rects[i]).bounded() && holds(
                rects[i]@,
                kids[i].value@,
            ),
    ensures
        shapes(r@) == each_draw(
            *f,
            data@,
            skip as nat,
            areas_of(rects@),
            sized_seq(kids@),
            rects.len() as nat,
        ),
    decreases data@, 0nat, 0nat,
{
    let mut cmds: Vec<DrawCmd> = Vec::new();
    let mut i: usize = 0;
    assert(shapes(cmds@) =~= Seq::<Shape>::empty());
    while i < rects.len()
        invariant
            i <= rects.len(),
            skip + rects.len() == data.len(),
            kids.len() == rects.len(),
            forall|j: int| 0 <= j < data@.len() ==> f.accepts(#[trigger] data@[j]),
            forall|j: int|
                0 <= j < kids.len() ==> (#[trigger] kids[j]).sized() == f.layout_spec(
                    data@[skip + j],
                    m,
                ),
            forall|j: int|
                0 <= j < rects.len() ==> (#[trigger] rects[j]).bounded() && holds(
                    rects[j]@,
                    kids[j].value@,
                ),
            shapes(cmds@) == each_draw(
                *f,
                data@,
                skip as nat,
                areas_of(rects@),
                sized_seq(kids@),
                i as nat,
            ),
        decreases rects.len() - i,
    {
        let mut part = f.draw(&data[skip + i], m, rects[i], &kids[i]);
        let ghost before = cmds@;
        let ghost added = part@;
        cmds.append(&mut part);
        proof {
            assert(shapes(before + added) =~= shapes(before) + shapes(added));
        }
        i += 1;
    }
    cmds
}

} // verus!
