use sexpr_layout::graphics::{vec2, Rect, Vec2};
use sexpr_layout::NeededSpace;

#[test]
fn zero_is_empty() {
    assert_eq!(NeededSpace::zero(), NeededSpace::new(0, 0, 0));
    assert_eq!(NeededSpace::default(), NeededSpace::zero());
}

#[test]
fn above_counts_everything_above_the_line() {
    let s = NeededSpace::above(vec2(10, 12));
    assert_eq!(s.size_x, 10);
    assert_eq!(s.size_y_above, 12);
    assert_eq!(s.size_y_below, 0);
}

#[test]
fn new_takes_width_above_below() {
    let s = NeededSpace::new(1, 2, 3);
    assert_eq!(s.size_x, 1);
    assert_eq!(s.size_y_above, 2);
    assert_eq!(s.size_y_below, 3);
}

#[test]
fn add_x_sums_widths_and_takes_maxima() {
    let a = NeededSpace::new(10, 5, 1);
    let b = NeededSpace::new(7, 3, 4);
    assert_eq!(a.add_x(b), NeededSpace::new(17, 5, 4));
    assert_eq!(b.add_x(a), NeededSpace::new(17, 5, 4));
}

#[test]
fn stack_below_keeps_the_top_line() {
    let a = NeededSpace::new(10, 5, 1);
    let b = NeededSpace::new(17, 3, 4);
    let s = a.stack_below(b);
    assert_eq!(s, NeededSpace::new(17, 5, 8));
    assert_eq!(s.size().y, a.size().y + b.size().y);
    assert_eq!(s.size_y_above, a.size_y_above);
}

#[test]
fn expand_pads_all_sides() {
    let a = NeededSpace::new(10, 5, 1);
    assert_eq!(a.expand(4), NeededSpace::new(18, 9, 5));
    assert_eq!(a.expand(0), a);
    let e = a.expand(3);
    assert!(e.size_x >= a.size_x && e.size_y_above >= a.size_y_above);
    assert!(e.size_y_below >= a.size_y_below);
}

#[test]
fn expand_x_widens_only() {
    let a = NeededSpace::new(10, 5, 1);
    assert_eq!(a.expand_x(10), NeededSpace::new(20, 5, 1));
}

#[test]
fn size_is_width_and_total_height() {
    let a = NeededSpace::new(10, 5, 1);
    assert_eq!(a.size(), Vec2 { x: 10, y: 6 });
}

#[test]
fn center_y_halves_the_height() {
    assert_eq!(NeededSpace::new(9, 12, 0).center_y(), NeededSpace::new(9, 6, 6));
    assert_eq!(NeededSpace::new(9, 2, 3).center_y(), NeededSpace::new(9, 3, 3));
    assert_eq!(NeededSpace::new(9, 0, 0).center_y(), NeededSpace::new(9, 0, 0));
    let big = NeededSpace::new(1, u32::MAX, u32::MAX).center_y();
    assert_eq!(big, NeededSpace::new(1, u32::MAX, u32::MAX));
}

#[test]
fn center_y_is_idempotent() {
    for (a, b) in [(0u32, 0u32), (1, 0), (2, 3), (12, 0), (7, 7), (u32::MAX, 1)] {
        let once = NeededSpace::new(5, a, b).center_y();
        assert_eq!(once.center_y(), once);
    }
}

#[test]
fn rect_from_min_size_and_shrink() {
    let r = Rect::from_min_size(vec2(50, 50), vec2(36, 20));
    assert_eq!(r.min, vec2(50, 50));
    assert_eq!(r.max, vec2(86, 70));
    assert_eq!(r.size(), vec2(36, 20));
    assert_eq!(r.width(), 36);
    assert_eq!(r.height(), 20);
    let s = r.shrink(4);
    assert_eq!(s.min, vec2(54, 54));
    assert_eq!(s.max, vec2(82, 66));
    let t = r.shrink2(vec2(1, 2));
    assert_eq!(t, Rect::from_min_max(vec2(51, 52), vec2(85, 68)));
    assert_eq!(Rect::new(1, 2, 3, 4), Rect::from_min_max(vec2(1, 2), vec2(4, 6)));
}

#[test]
fn rect_edges_and_corners() {
    let mut r = Rect::from_min_max(vec2(1, 2), vec2(3, 4));
    assert_eq!((r.left(), r.top(), r.right(), r.bottom()), (1, 2, 3, 4));
    assert_eq!(r.left_top(), vec2(1, 2));
    assert_eq!(r.right_top(), vec2(3, 2));
    assert_eq!(r.left_bottom(), vec2(1, 4));
    assert_eq!(r.right_bottom(), vec2(3, 4));
    r.set_left(0);
    r.set_top(-1);
    r.set_right(10);
    r.set_bottom(11);
    assert_eq!(r, Rect::from_min_max(vec2(0, -1), vec2(10, 11)));
    let (l, rr) = r.split_left_right_at_x(4);
    assert_eq!(l, Rect::from_min_max(vec2(0, -1), vec2(4, 11)));
    assert_eq!(rr, Rect::from_min_max(vec2(4, -1), vec2(10, 11)));
    let (t, b) = r.split_top_bottom_at_y(5);
    assert_eq!(t, Rect::from_min_max(vec2(0, -1), vec2(10, 5)));
    assert_eq!(b, Rect::from_min_max(vec2(0, 5), vec2(10, 11)));
    assert_eq!(Vec2::splat(3), vec2(3, 3));
    assert_eq!(vec2(36, 20).smaller_comp(), 20);
    assert_eq!(vec2(-1, 20).smaller_comp(), -1);
}

#[test]
fn vec2_arithmetic() {
    assert_eq!(vec2(1, 2) + vec2(3, 4), vec2(4, 6));
    assert_eq!(vec2(1, 2) - vec2(3, 4), vec2(-2, -2));
    assert_eq!(-vec2(1, -2), vec2(-1, 2));
    assert_eq!(vec2(2, 3) * vec2(4, -5), vec2(8, -15));
    assert_eq!(vec2(2, 3) * 4, vec2(8, 12));
    assert_eq!(4 * vec2(2, 3), vec2(8, 12));
    assert_eq!(vec2(7, -7) / vec2(2, 2), vec2(3, -3));
    assert_eq!(vec2(7, -7) / vec2(-2, -2), vec2(-3, 3));
    assert_eq!(vec2(9, -9) / 2, vec2(4, -4));
    let mut v = vec2(1, 2);
    v.add_assign(vec2(10, 20));
    assert_eq!(v, vec2(11, 22));
    v.sub_assign(vec2(1, 2));
    assert_eq!(v, vec2(10, 20));
    v.mul_assign(-3);
    assert_eq!(v, vec2(-30, -60));
    assert_eq!(Vec2::zero(), vec2(0, 0));
    assert_eq!(Vec2::new(1, 2), vec2(1, 2));
}

#[test]
fn rect_center_points() {
    let r = Rect::from_min_max(vec2(1, 2), vec2(4, 8));
    assert_eq!(r.center(), vec2(2, 5));
    assert_eq!(r.center_top(), vec2(2, 2));
    assert_eq!(r.center_bottom(), vec2(2, 8));
    assert_eq!(r.left_center(), vec2(1, 5));
    assert_eq!(r.right_center(), vec2(4, 5));
    let n = Rect::from_min_max(vec2(-4, -7), vec2(1, 2));
    assert_eq!(n.center(), vec2(-1, -2));
}

#[test]
fn rect_edges_by_reference() {
    let mut r = Rect::from_min_max(vec2(1, 2), vec2(3, 4));
    *r.left_mut() += 10;
    *r.top_mut() = -5;
    *r.right_mut() -= 1;
    *r.bottom_mut() = 40;
    assert_eq!(r, Rect::from_min_max(vec2(11, -5), vec2(2, 40)));
}
