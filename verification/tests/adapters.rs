use sexpr_layout::draw::{Color, DrawCmd, DrawFn};
use sexpr_layout::graphics::{vec2, Rect};
use sexpr_layout::renderfns::mapping::Reshape;
use sexpr_layout::renderfns::{col, pad, row, LayoutFn};
use sexpr_layout::tree::Tree;
use sexpr_layout::{Expr, FixedMeasure, NeededSpace, RenderFn};

fn atom(s: &str) -> Expr {
    Expr::Atom(s.to_string())
}

#[test]
fn map_leafs_keeps_nodes_and_order() {
    let t: Tree<u32, &str> = Tree::Node(
        "root",
        vec![
            Tree::Leaf(2),
            Tree::Node("inner", vec![Tree::Leaf(4), Tree::Leaf(5)]),
            Tree::Node("empty", vec![]),
            Tree::Leaf(7),
        ],
    );
    let mapped = t.map_leafs(&|x: u32| x as u64 * 10);
    let expected: Tree<u64, &str> = Tree::Node(
        "root",
        vec![
            Tree::Leaf(20),
            Tree::Node("inner", vec![Tree::Leaf(40), Tree::Leaf(50)]),
            Tree::Node("empty", vec![]),
            Tree::Leaf(70),
        ],
    );
    assert_eq!(mapped, expected);
    let single: Tree<u8, ()> = Tree::Leaf(1);
    assert_eq!(single.map_leafs(&|x: u8| x + 1), Tree::Leaf(2));
}

#[test]
fn map_hands_the_tail_to_a_row() {
    let m = FixedMeasure { width: 10, height: 12 };
    let e = Expr::List(vec![atom("r"), atom("x"), atom("y")]);
    let f = sexpr_layout::renderfns::mapping::map(Reshape::Tail, row(RenderFn::General));
    let tree = f.layout_data(&e, &m).unwrap();
    assert_eq!(tree.value, NeededSpace::new(20, 12, 0));
    assert_eq!(tree.children.len(), 2);
    let rect = Rect::from_min_size(vec2(50, 50), tree.value.size());
    let cmds = f.draw_data(&e, &m, rect, &tree);
    assert_eq!(
        cmds,
        vec![
            DrawCmd::Text { text: "x".to_string(), pos: vec2(50, 50), color: Color::White },
            DrawCmd::Text { text: "y".to_string(), pos: vec2(60, 50), color: Color::White }
        ]
    );
}

#[test]
fn map_hands_all_elements_to_a_padded_column() {
    let m = FixedMeasure { width: 10, height: 12 };
    let e = Expr::List(vec![atom("x"), atom("y")]);
    let f = sexpr_layout::renderfns::mapping::map(Reshape::All, col(pad(RenderFn::General, 4)));
    let tree = f.layout_data(&e, &m).unwrap();
    assert_eq!(tree.value, NeededSpace::new(18, 16, 24));
    let rect = Rect::from_min_size(vec2(0, 0), tree.value.size());
    let cmds = f.draw_data(&e, &m, rect, &tree);
    assert_eq!(
        cmds,
        vec![
            DrawCmd::Text { text: "x".to_string(), pos: vec2(4, 4), color: Color::White },
            DrawCmd::Text { text: "y".to_string(), pos: vec2(4, 24), color: Color::White }
        ]
    );
    assert_eq!(Reshape::Tail.apply(&e), &[atom("y")][..]);
    assert_eq!(Reshape::All.apply(&e).len(), 2);
}

#[test]
fn strategies_render_through_the_shared_interface() {
    let m = FixedMeasure { width: 10, height: 12 };
    let tree = RenderFn::Symbol.layout_data(&atom("x"), &m).unwrap();
    assert_eq!(tree.value, NeededSpace::new(10, 12, 0));
    let data = [atom("x"), atom("y")];
    let tree = row(RenderFn::Symbol).layout_data(&data[..], &m).unwrap();
    assert_eq!(tree.value, NeededSpace::new(20, 12, 0));
}
