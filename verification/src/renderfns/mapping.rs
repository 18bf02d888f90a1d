use vstd::prelude::*;
use crate::expr::Expr;
use crate::measure::TextMeasure;
use crate::needed_space::NeededSpace;
use crate::renderfns::LayoutFn;
use crate::sized_tree::{SizedTree, Tree};

verus! {

/// How a list is reshaped before a strategy for sequences gets it.
#[derive(Clone, Copy, Debug, PartialEq, Eq, Structural)]
pub enum Reshape {
    /// What follows the head of the list.
    Tail,
    /// All the elements of the list.
    All,
}

impl Reshape {
    /// The expressions that can be reshaped: lists, and for `Tail` those
    /// with a head.
    pub open spec fn applies(self, e: Expr) -> bool {
        e is List && (self is Tail ==> e.items().len() > 0)
    }

    /// The sequence that is handed on.
    pub open spec fn apply_spec(self, e: Expr) -> Seq<Expr> {
        match self {
            Reshape::Tail => e.items().skip(1),
            Reshape::All => e.items(),
        }
    }

    pub fn apply<'a>(&self, e: &'a Expr) -> (r: &'a [Expr])
        requires
            self.applies(*e),
        ensures
            r@ == self.apply_spec(*e),
    {
        match self {
            Reshape::Tail => e.cdr_unwrap(),
            Reshape::All => match e.lst() {
                Some(all) => all,
                None => {
                    proof {
                        assert(false);
                    }
                    vstd::pervasive::unreached()
                },
            },
        }
    }
}

/// A strategy for sequences, applied to a reshaped list.
pub struct Mapped<F> {
    pub reshape: Reshape,
    pub inner: F,
}

/// `f` applied to what `reshape` makes of a list: pure reshaping, with no
/// fallback for an expression that cannot be reshaped.
pub fn map<F>(reshape: Reshape, f: F) -> (r: Mapped<F>)
    ensures
        r.reshape == reshape,
        r.inner == f,
{
    Mapped { reshape, inner: f }
}

impl<M: TextMeasure, F: LayoutFn<[Expr], M>> LayoutFn<Expr, M> for Mapped<F> {
    open spec fn accepts_data(&self, data: Expr) -> bool {
        self.reshape.applies(data) && self.inner.accepts_data(self.reshape.apply_spec(data))
    }

    open spec fn layout_of(&self, data: Expr, m: &M) -> SizedTree {
        self.inner.layout_of(self.reshape.apply_spec(data), m)
    }

    fn layout_data(&self, data: &Expr, m: &M) -> (r: Option<Tree<NeededSpace>>) {
        self.inner.layout_data(self.reshape.apply(data), m)
    }
}

} // verus!
