use sexpr_layout::draw::{Color, DrawCmd};
use sexpr_layout::folds::{centered_row_size, col_size, row_fill, row_size, stack_size};
use sexpr_layout::graphics::{vec2, Rect, COORD_LIMIT};
use sexpr_layout::place::has_room;
use sexpr_layout::renderfns::{
    boxed, col, col_centered, error, fract_tree, pad, row, row_centered, sexpr_tree, try_map,
    wrap, wrap_tree,
};
use sexpr_layout::{Expr, FixedMeasure, NeededSpace, Paint, RenderFn, Select, TextMeasure,
    TextSize, Tree};

fn atom(s: &str) -> Expr {
    Expr::Atom(s.to_string())
}

fn mock() -> FixedMeasure {
    FixedMeasure { width: 10, height: 12 }
}

fn leaf(x: u32, above: u32, below: u32) -> Tree<NeededSpace> {
    Tree::leaf(NeededSpace::new(x, above, below))
}

fn text(s: &str, x: i64, y: i64, color: Color) -> DrawCmd {
    DrawCmd::Text { text: s.to_string(), pos: vec2(x, y), color }
}

#[test]
fn fixed_measure_ignores_the_text() {
    let m = mock();
    assert_eq!(m.measure(""), TextSize { width: 10, height: 12 });
    assert_eq!(m.measure("a long text"), TextSize { width: 10, height: 12 });
}

#[test]
fn text_of_atoms_and_lists() {
    assert_eq!(atom("x").to_text(), "x");
    assert_eq!(Expr::List(vec![]).to_text(), "()");
    assert_eq!(Expr::List(vec![atom("a")]).to_text(), "(a)");
    let nested = Expr::List(vec![atom("a"), Expr::List(vec![atom("b"), atom("c")]), atom("d")]);
    assert_eq!(nested.to_text(), "(a (b c) d)");
}

#[test]
fn car_cdr_lst_sym() {
    let a = atom("a");
    let l = Expr::List(vec![atom("h"), atom("t1"), atom("t2")]);
    let empty = Expr::List(vec![]);
    assert_eq!(a.car(), None);
    assert_eq!(a.cdr(), None);
    assert_eq!(a.lst(), None);
    assert_eq!(a.sym(), Some(&"a".to_string()));
    assert_eq!(l.sym(), None);
    assert_eq!(l.car(), Some(&atom("h")));
    assert_eq!(l.cdr().unwrap(), &[atom("t1"), atom("t2")][..]);
    assert_eq!(l.cdr_unwrap(), &[atom("t1"), atom("t2")][..]);
    assert_eq!(l.lst().unwrap().len(), 3);
    assert_eq!(empty.car(), None);
    assert_eq!(empty.cdr(), None);
    assert_eq!(empty.lst().unwrap().len(), 0);
}

#[test]
fn render_fn_by_variant() {
    assert!(matches!(atom("a").render_fn(), RenderFn::Symbol));
    assert!(matches!(Expr::List(vec![]).render_fn(), RenderFn::Sexpr));
}

#[test]
fn atom_layout_is_measured_text_above_the_line() {
    let tree = atom("x").needed_space(&mock()).unwrap();
    assert_eq!(tree, leaf(10, 12, 0));
    let tree = RenderFn::Symbol.layout(&atom("x"), &mock()).unwrap();
    assert_eq!(tree, leaf(10, 12, 0));
}

#[test]
fn row_of_two_atoms() {
    let data = vec![atom("x"), atom("y")];
    let m = mock();
    let f = row(RenderFn::General);
    let tree = f.layout(&data, &m).unwrap();
    assert_eq!(tree.value, NeededSpace::new(20, 12, 0));
    assert_eq!(tree.children, vec![leaf(10, 12, 0), leaf(10, 12, 0)]);
    let rect = Rect::from_min_size(vec2(50, 50), tree.value.size());
    let cmds = f.draw(&data, &m, rect, &tree);
    assert_eq!(cmds, vec![text("x", 50, 50, Color::White), text("y", 60, 50, Color::White)]);
}

#[test]
fn row_aligns_on_the_shared_line() {
    let kids = vec![leaf(10, 12, 0), leaf(5, 20, 3), leaf(7, 1, 9)];
    assert_eq!(row_size(&kids), Some(NeededSpace::new(22, 20, 9)));
    assert_eq!(row_size(&vec![]), Some(NeededSpace::zero()));
    assert_eq!(row_size(&vec![leaf(u32::MAX, 0, 0), leaf(1, 0, 0)]), None);
}

#[test]
fn centered_row_aligns_on_the_middle() {
    let kids = vec![leaf(10, 12, 0), leaf(5, 3, 4)];
    assert_eq!(centered_row_size(&kids), Some(NeededSpace::new(15, 6, 6)));
    assert_eq!(centered_row_size(&vec![leaf(u32::MAX, 0, 0), leaf(1, 0, 0)]), None);
    let data = vec![atom("x"), atom("y")];
    let m = mock();
    let f = row_centered(RenderFn::General);
    let tree = f.layout(&data, &m).unwrap();
    assert_eq!(tree.value, NeededSpace::new(20, 6, 6));
    let rect = Rect::from_min_size(vec2(0, 0), tree.value.size());
    let cmds = f.draw(&data, &m, rect, &tree);
    assert_eq!(cmds, vec![text("x", 0, 0, Color::White), text("y", 10, 0, Color::White)]);
}

#[test]
fn column_stacks_and_keeps_the_first_line() {
    let kids = vec![leaf(10, 12, 1), leaf(30, 3, 4), leaf(7, 1, 9)];
    assert_eq!(col_size(&kids), Some(NeededSpace::new(30, 12, 18)));
    assert_eq!(col_size(&vec![]), Some(NeededSpace::zero()));
    assert_eq!(stack_size(NeededSpace::zero(), &kids, 1), Some(NeededSpace::new(30, 0, 17)));
    assert_eq!(stack_size(NeededSpace::new(1, 2, 3), &kids, 3), Some(NeededSpace::new(1, 2, 3)));
    assert_eq!(col_size(&vec![leaf(1, 1, u32::MAX), leaf(1, 1, 0)]), None);
}

#[test]
fn column_draws_top_to_bottom() {
    let data = vec![atom("x"), atom("y"), atom("z")];
    let m = mock();
    let f = col(RenderFn::General);
    let tree = f.layout(&data, &m).unwrap();
    assert_eq!(tree.value, NeededSpace::new(10, 12, 24));
    let rect = Rect::from_min_size(vec2(5, 7), vec2(30, 36));
    let cmds = f.draw(&data, &m, rect, &tree);
    assert_eq!(
        cmds,
        vec![
            text("x", 5, 7, Color::White),
            text("y", 5, 19, Color::White),
            text("z", 5, 31, Color::White)
        ]
    );
    let g = col_centered(RenderFn::General);
    let tree = g.layout(&data, &m).unwrap();
    assert_eq!(tree.value, NeededSpace::new(10, 12, 24));
    let cmds = g.draw(&data, &m, rect, &tree);
    assert_eq!(
        cmds,
        vec![
            text("x", 15, 7, Color::White),
            text("y", 15, 19, Color::White),
            text("z", 15, 31, Color::White)
        ]
    );
}

#[test]
fn pad_nests_and_expands() {
    let m = mock();
    let f = pad(RenderFn::Symbol, 4);
    let tree = f.layout(&atom("x"), &m).unwrap();
    assert_eq!(tree, Tree::new(NeededSpace::new(18, 16, 4), vec![leaf(10, 12, 0)]));
    let rect = Rect::from_min_size(vec2(50, 50), tree.value.size());
    assert_eq!(f.draw(&atom("x"), &m, rect, &tree), vec![text("x", 54, 54, Color::White)]);
    assert_eq!(wrap_tree(leaf(10, 12, 0), 4), Some(tree));
    assert_eq!(wrap_tree(leaf(u32::MAX - 7, 0, 0), 4), None);
    assert_eq!(wrap_tree(leaf(0, u32::MAX, 0), 1), None);
    assert_eq!(wrap_tree(leaf(0, 0, u32::MAX), 1), None);
}

#[test]
fn wrap_paints_the_border_round_the_outer_rectangle() {
    let m = mock();
    let f = wrap(RenderFn::Symbol, 4, Paint::Border);
    let tree = f.layout(&atom("x"), &m).unwrap();
    let rect = Rect::from_min_size(vec2(0, 0), tree.value.size());
    assert_eq!(
        f.draw(&atom("x"), &m, rect, &tree),
        vec![
            DrawCmd::RoundedRect {
                rect,
                roundness_num: 5,
                roundness_den: 1,
                segments: 10,
                thickness_halves: 4,
                color: Color::Gray
            },
            text("x", 4, 4, Color::White)
        ]
    );
}

#[test]
fn greedy_row_stops_before_the_threshold() {
    let kids = vec![leaf(50, 1, 0), leaf(60, 2, 0), leaf(70, 3, 0), leaf(80, 4, 0)];
    assert_eq!(row_fill(&kids), (NeededSpace::new(180, 3, 0), 3));
    let exact = vec![leaf(100, 1, 0), leaf(100, 1, 0), leaf(1, 1, 0)];
    assert_eq!(row_fill(&exact), (NeededSpace::new(100, 1, 0), 1));
    let under = vec![leaf(100, 1, 0), leaf(99, 1, 0), leaf(1, 1, 0)];
    assert_eq!(row_fill(&under), (NeededSpace::new(199, 1, 0), 2));
    let wide = vec![leaf(200, 1, 0), leaf(1, 1, 0)];
    assert_eq!(row_fill(&wide), (NeededSpace::zero(), 0));
    let later_fits = vec![leaf(150, 1, 0), leaf(60, 1, 0), leaf(10, 1, 0)];
    assert_eq!(row_fill(&later_fits), (NeededSpace::new(150, 1, 0), 1));
    assert_eq!(row_fill(&vec![]), (NeededSpace::zero(), 0));
    let huge = vec![leaf(u32::MAX, 1, 0), leaf(u32::MAX, 1, 0)];
    assert_eq!(row_fill(&huge), (NeededSpace::zero(), 0));
}

#[test]
fn group_size_is_row_over_indented_column() {
    let kids = vec![leaf(50, 10, 0), leaf(60, 10, 0), leaf(70, 10, 0), leaf(80, 10, 0)];
    let tree = sexpr_tree(kids).unwrap();
    assert_eq!(tree.value, NeededSpace::new(180, 10, 10));
    let kids = vec![leaf(50, 10, 0), leaf(60, 10, 0), leaf(70, 10, 0), leaf(80, 10, 0)];
    assert_eq!(tree.children, kids);
    let wide_column = vec![leaf(50, 10, 2), leaf(190, 3, 4), leaf(10, 1, 1)];
    let tree = sexpr_tree(wide_column).unwrap();
    assert_eq!(tree.value, NeededSpace::new(200, 10, 11));
    assert_eq!(sexpr_tree(vec![]).unwrap().value, NeededSpace::new(10, 0, 0));
    assert_eq!(sexpr_tree(vec![leaf(u32::MAX - 9, 0, 0)]), None);
    assert_eq!(sexpr_tree(vec![leaf(1, 0, u32::MAX), leaf(300, 1, 0)]), None);
    assert_eq!(sexpr_tree(vec![leaf(300, 1, u32::MAX), leaf(300, 1, 0)]), None);
}

#[test]
fn group_of_two_atoms_end_to_end() {
    let e = Expr::List(vec![atom("x"), atom("y")]);
    let m = mock();
    let tree = e.needed_space(&m).unwrap();
    let kid = || Tree::new(NeededSpace::new(18, 16, 4), vec![leaf(10, 12, 0)]);
    assert_eq!(tree, Tree::new(NeededSpace::new(36, 16, 4), vec![kid(), kid()]));
    let rect = Rect::from_min_size(vec2(50, 50), tree.value.size());
    let cmds = e.draw(&m, rect, &tree);
    assert_eq!(
        cmds,
        vec![
            text("x", 54, 54, Color::White),
            text("y", 72, 54, Color::White),
            DrawCmd::RoundedRect {
                rect,
                roundness_num: 10,
                roundness_den: 20,
                segments: 10,
                thickness_halves: 1,
                color: Color::White
            }
        ]
    );
}

#[test]
fn long_group_wraps_into_an_indented_column() {
    let m = FixedMeasure { width: 60, height: 12 };
    let e = Expr::List(vec![atom("a"), atom("b"), atom("c"), atom("d")]);
    let tree = e.needed_space(&m).unwrap();
    assert_eq!(tree.children.len(), 4);
    assert_eq!(tree.value, NeededSpace::new(136, 16, 44));
    let rect = Rect::from_min_size(vec2(0, 0), tree.value.size());
    let cmds = e.draw(&m, rect, &tree);
    assert_eq!(
        cmds[..4],
        [
            text("a", 4, 4, Color::White),
            text("b", 72, 4, Color::White),
            text("c", 14, 24, Color::White),
            text("d", 14, 44, Color::White)
        ]
    );
    assert_eq!(cmds.len(), 5);
}

#[test]
fn nested_groups_mirror_the_expression() {
    let e = Expr::List(vec![atom("f"), Expr::List(vec![atom("g"), atom("x")]), Expr::List(vec![])]);
    let tree = e.needed_space(&mock()).unwrap();
    assert_eq!(tree.children.len(), 3);
    assert_eq!(tree.children[0].children.len(), 1);
    assert_eq!(tree.children[0].children[0].children.len(), 0);
    assert_eq!(tree.children[1].children.len(), 1);
    assert_eq!(tree.children[1].children[0].children.len(), 2);
    assert_eq!(tree.children[2].children[0].children.len(), 0);
    assert_eq!(tree.children[2].children[0].value, NeededSpace::new(10, 0, 0));
}

#[test]
fn try_map_without_a_match_renders_the_text_as_an_error() {
    let m = mock();
    let f = try_map(Select::Never, RenderFn::General);
    let e = atom("abc");
    let tree = f.layout(&e, &m).unwrap();
    assert_eq!(tree, leaf(10, 12, 0));
    let rect = Rect::from_min_size(vec2(3, 4), tree.value.size());
    assert_eq!(f.draw(&e, &m, rect, &tree), vec![text("abc", 3, 4, Color::Red)]);
    let l = Expr::List(vec![atom("a"), atom("b")]);
    let tree = error().layout(&l, &m).unwrap();
    assert_eq!(tree, leaf(10, 12, 0));
    assert_eq!(error().draw(&l, &m, rect, &tree), vec![text("(a b)", 3, 4, Color::Red)]);
}

#[test]
fn boxed_renders_the_second_element_or_the_error_text() {
    let m = mock();
    let f = boxed();
    let e = Expr::List(vec![atom("b"), atom("x")]);
    let tree = f.layout(&e, &m).unwrap();
    assert_eq!(tree, Tree::new(NeededSpace::new(18, 16, 4), vec![leaf(10, 12, 0)]));
    let rect = Rect::from_min_size(vec2(0, 0), tree.value.size());
    let cmds = f.draw(&e, &m, rect, &tree);
    assert_eq!(cmds.len(), 2);
    assert_eq!(cmds[1], text("x", 4, 4, Color::White));
    let short = Expr::List(vec![atom("b")]);
    let tree = f.layout(&short, &m).unwrap();
    assert_eq!(tree, leaf(10, 12, 0));
    assert_eq!(f.draw(&short, &m, rect, &tree), vec![text("(b)", 0, 0, Color::Red)]);
    assert_eq!(Select::Second.pick(&e), Some(&atom("x")));
    assert_eq!(Select::Second.pick(&short), None);
    assert_eq!(Select::Second.pick(&atom("x")), None);
    assert_eq!(Select::Never.pick(&e), None);
}

#[test]
fn fraction_stacks_centres_and_rules() {
    let m = mock();
    let e = Expr::List(vec![atom("/"), atom("a"), atom("b")]);
    let tree = RenderFn::Fract.layout(&e, &m).unwrap();
    assert_eq!(tree.value, NeededSpace::new(20, 12, 12));
    assert_eq!(tree.children, vec![leaf(10, 12, 0), leaf(10, 12, 0)]);
    let rect = Rect::from_min_size(vec2(0, 0), tree.value.size());
    let cmds = RenderFn::Fract.draw(&e, &m, rect, &tree);
    assert_eq!(
        cmds,
        vec![
            text("a", 5, 0, Color::White),
            text("b", 5, 12, Color::White),
            DrawCmd::Line { from: vec2(0, 12), to: vec2(20, 12), color: Color::White }
        ]
    );
    let single = Expr::List(vec![atom("/"), atom("a")]);
    let tree = RenderFn::Fract.layout(&single, &m).unwrap();
    assert_eq!(RenderFn::Fract.draw(&single, &m, rect, &tree), vec![text("a", 5, 0, Color::White)]);
    let none = Expr::List(vec![atom("/")]);
    let tree = RenderFn::Fract.layout(&none, &m).unwrap();
    assert_eq!(tree, leaf(10, 0, 0));
    assert_eq!(RenderFn::Fract.draw(&none, &m, rect, &tree), vec![]);
    assert_eq!(fract_tree(vec![leaf(u32::MAX - 9, 1, 1)]), None);
}

#[test]
fn sizes_beyond_the_machine_are_refused() {
    let m = FixedMeasure { width: u32::MAX, height: 1 };
    assert!(RenderFn::Symbol.layout(&atom("x"), &m).is_some());
    assert_eq!(pad(RenderFn::Symbol, 4).layout(&atom("x"), &m), None);
    assert_eq!(Expr::List(vec![atom("x")]).needed_space(&m), None);
    assert_eq!(row(RenderFn::General).layout(&vec![atom("x"), atom("y")], &m), None);
}

#[test]
fn strategies_say_what_they_can_render() {
    let a = atom("a");
    let empty = Expr::List(vec![]);
    let two = Expr::List(vec![atom("h"), atom("x")]);
    let nested = Expr::List(vec![atom("h"), Expr::List(vec![])]);
    assert!(RenderFn::Symbol.can_render(&a) && RenderFn::Symbol.can_render(&two));
    assert!(RenderFn::General.can_render(&a) && RenderFn::General.can_render(&empty));
    assert!(!RenderFn::Sexpr.can_render(&a));
    assert!(RenderFn::Sexpr.can_render(&empty));
    assert!(!RenderFn::Fract.can_render(&a));
    assert!(!RenderFn::Fract.can_render(&empty));
    assert!(RenderFn::Fract.can_render(&two));
    assert!(!pad(RenderFn::Sexpr, 1).can_render(&a));
    assert!(pad(RenderFn::Sexpr, 1).can_render(&two));
    let second_as_fraction = try_map(Select::Second, RenderFn::Fract);
    assert!(second_as_fraction.can_render(&a));
    assert!(!second_as_fraction.can_render(&two));
    assert!(!second_as_fraction.can_render(&nested));
    assert!(try_map(Select::Never, RenderFn::Fract).can_render(&two));
    assert!(row(RenderFn::Sexpr).can_render(&[]));
    assert!(!row(RenderFn::Sexpr).can_render(&[Expr::List(vec![]), atom("a")]));
    assert!(col(RenderFn::General).can_render(&[Expr::List(vec![]), atom("a")]));
}

#[test]
fn room_for_a_layout() {
    let size = NeededSpace::new(10, 12, 3);
    assert!(has_room(&Rect::from_min_size(vec2(50, 50), vec2(10, 15)), &size));
    assert!(has_room(&Rect::from_min_size(vec2(-50, -50), vec2(100, 100)), &size));
    assert!(!has_room(&Rect::from_min_size(vec2(50, 50), vec2(9, 15)), &size));
    assert!(!has_room(&Rect::from_min_size(vec2(50, 50), vec2(10, 14)), &size));
    let far = Rect::from_min_max(vec2(0, 0), vec2(COORD_LIMIT + 1, 100));
    assert!(!has_room(&far, &size));
    let edge = Rect::from_min_max(vec2(-COORD_LIMIT, -COORD_LIMIT), vec2(COORD_LIMIT, COORD_LIMIT));
    assert!(has_room(&edge, &size));
}
