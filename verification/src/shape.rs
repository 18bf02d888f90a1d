//! The shape of a layout: how many children each node has, which mirrors
//! the expression that was laid out.

use vstd::prelude::*;
use crate::expr::Expr;
use crate::measure::TextMeasure;
use crate::needed_space::Space;
use crate::renderfns::{each_layout, padded_general, text_leaf, ListRenderFn, RenderFn, Select};
use crate::sized_tree::SizedTree;

verus! {

impl RenderFn {
    /// `tree` has the shape that this strategy gives `e`: a text is a leaf,
    /// a group has one child for each element of its list, a fraction one
    /// for each element after the head, a wrapper exactly one, and each
    /// child has the shape of what it stands for.
    pub open spec fn shape_matches(self, e: Expr, tree: SizedTree) -> bool
        decreases e, self.rank(),
    {
        match self {
            RenderFn::Symbol => tree.children.len() == 0,
            RenderFn::General => match e {
                Expr::Atom(_) => RenderFn::Symbol.shape_matches(e, tree),
                Expr::List(_) => RenderFn::Sexpr.shape_matches(e, tree),
            },
            RenderFn::Sexpr => match e {
                Expr::Atom(_) => tree.children.len() == 0,
                Expr::List(items) => {
                    &&& tree.children.len() == items.len()
                    &&& forall|i: int|
                        0 <= i < items.len() ==> padded_general().shape_matches(
                            #[trigger] items[i],
                            tree.children[i],
                        )
                },
            },
            RenderFn::Fract => match e {
                Expr::Atom(_) => tree.children.len() == 0,
                Expr::List(items) => {
                    &&& tree.children.len() == (items.len() - 1) as nat
                    &&& forall|i: int|
                        1 <= i < items.len() ==> RenderFn::General.shape_matches(
                            #[trigger] items[i],
                            tree.children[i - 1],
                        )
                },
            },
            RenderFn::Wrap { inner, .. } => {
                &&& tree.children.len() == 1
                &&& inner.shape_matches(e, tree.children[0])
            },
            RenderFn::TryMap { select, inner } => {
                if select is Second && e is List && e->List_0.len() >= 2 {
                    inner.shape_matches(e->List_0[1], tree)
                } else {
                    tree.children.len() == 0
                }
            },
        }
    }

    /// A layout has the shape of the expression that it was made for, by
    /// whatever strategy and measurements.
    pub proof fn lemma_layout_shape<M: TextMeasure>(self, e: Expr, m: &M)
        ensures
            self.shape_matches(e, self.layout_spec(e, m)),
        decreases e, self.rank(),
    {
        match self {
            RenderFn::Symbol => {},
            RenderFn::General => match e {
                Expr::Atom(_) => RenderFn::Symbol.lemma_layout_shape(e, m),
                Expr::List(_) => RenderFn::Sexpr.lemma_layout_shape(e, m),
            },
            RenderFn::Sexpr => match e {
                Expr::Atom(_) => {},
                Expr::List(items) => {
                    let tree = self.layout_spec(e, m);
                    assert forall|i: int| 0 <= i < items.len() implies padded_general().shape_matches(
                        #[trigger] items[i],
                        tree.children[i],
                    ) by {
                        padded_general().lemma_layout_shape(items[i], m);
                    }
                },
            },
            RenderFn::Fract => match e {
                Expr::Atom(_) => {},
                Expr::List(items) => {
                    let tree = self.layout_spec(e, m);
                    assert forall|i: int| 1 <= i < items.len() implies RenderFn::General.shape_matches(
                        #[trigger] items[i],
                        tree.children[i - 1],
                    ) by {
                        RenderFn::General.lemma_layout_shape(items[i], m);
                    }
                },
            },
            RenderFn::Wrap { inner, .. } => {
                inner.lemma_layout_shape(e, m);
            },
            RenderFn::TryMap { select, inner } => {
                if select is Second && e is List && e->List_0.len() >= 2 {
                    inner.lemma_layout_shape(e->List_0[1], m);
                }
            },
        }
    }

    /// Where the adapter selects nothing, the layout is a single leaf of the
    /// measured size of the expression's text, all of it above the line,
    /// whatever the inner strategy is.
    pub proof fn lemma_fallback_is_leaf<M: TextMeasure>(inner: RenderFn, e: Expr, m: &M)
        ensures
            (RenderFn::TryMap { select: Select::Never, inner: Box::new(inner) }).layout_spec(e, m)
                == text_leaf(m, e),
            text_leaf(m, e).children.len() == 0,
            text_leaf(m, e).value == (Space {
                x: m.text_size(e.text()).width as nat,
                above: m.text_size(e.text()).height as nat,
                below: 0,
            }),
    {
    }
}

impl ListRenderFn {
    /// `tree` has the shape that this strategy gives `data`: one child for
    /// each element, each of the shape of its element.
    pub open spec fn shape_matches(self, data: Seq<Expr>, tree: SizedTree) -> bool {
        &&& tree.children.len() == data.len()
        &&& forall|i: int|
            0 <= i < data.len() ==> self.elem().shape_matches(#[trigger] data[i], tree.children[i])
    }

    /// A layout of a sequence has one child for each element, of the shape
    /// of that element.
    pub proof fn lemma_layout_shape<M: TextMeasure>(self, data: Seq<Expr>, m: &M)
        ensures
            self.shape_matches(data, self.layout_spec(data, m)),
    {
        let tree = self.layout_spec(data, m);
        assert(tree.children == each_layout(self.elem(), data, m));
        assert forall|i: int| 0 <= i < data.len() implies self.elem().shape_matches(
            #[trigger] data[i],
            tree.children[i],
        ) by {
            self.elem().lemma_layout_shape(data[i], m);
        }
    }
}

} // verus!
