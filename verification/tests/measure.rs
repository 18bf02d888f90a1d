use sexpr_layout::{Expr, NeededSpace, TextMeasure, TextSize, TextTable};

fn atom(s: &str) -> Expr {
    Expr::Atom(s.to_string())
}

fn size(width: u32, height: u32) -> TextSize {
    TextSize { width, height }
}

#[test]
fn table_gives_the_first_entry_or_the_default() {
    let table = TextTable {
        entries: vec![
            ("a".to_string(), size(7, 9)),
            ("bc".to_string(), size(14, 9)),
            ("a".to_string(), size(100, 100)),
        ],
        missing: size(1, 2),
    };
    assert_eq!(table.measure("a"), size(7, 9));
    assert_eq!(table.measure("bc"), size(14, 9));
    assert_eq!(table.measure("b"), size(1, 2));
    assert_eq!(table.measure(""), size(1, 2));
    let empty = TextTable { entries: vec![], missing: size(3, 4) };
    assert_eq!(empty.measure("a"), size(3, 4));
}

#[test]
fn atom_labels_in_reading_order() {
    let e = Expr::List(vec![
        atom("f"),
        Expr::List(vec![atom("g"), atom("x"), Expr::List(vec![])]),
        atom("f"),
    ]);
    assert_eq!(e.atom_labels(), vec!["f", "g", "x", "f"]);
    assert_eq!(atom("x").atom_labels(), vec!["x"]);
    assert_eq!(Expr::List(vec![]).atom_labels(), Vec::<String>::new());
}

#[test]
fn layout_by_measured_labels() {
    let e = Expr::List(vec![atom("a"), atom("bc")]);
    let table = TextTable {
        entries: vec![("a".to_string(), size(7, 9)), ("bc".to_string(), size(14, 10))],
        missing: size(0, 0),
    };
    let tree = e.needed_space(&table).unwrap();
    assert_eq!(tree.children[0].children[0].value, NeededSpace::new(7, 9, 0));
    assert_eq!(tree.children[1].children[0].value, NeededSpace::new(14, 10, 0));
    assert_eq!(tree.value, NeededSpace::new(37, 14, 4));
}
