use vstd::prelude::*;
use crate::needed_space::{NeededSpace, Space};

verus! {

/// A value with an ordered sequence of child trees of the same kind.
#[derive(Debug, PartialEq, Eq)]
pub struct Tree<T> {
    pub value: T,
    pub children: Vec<Tree<T>>,
}

impl<T> Tree<T> {
    /// A tree without children.
    pub fn leaf(value: T) -> (r: Self)
        ensures
            r.value == value,
            r.children@ == Seq::<Tree<T>>::empty(),
    {
        Tree { value, children: Vec::new() }
    }

    pub fn new(value: T, children: Vec<Tree<T>>) -> (r: Self)
        ensures
            r.value == value,
            r.children == children,
    {
        Tree { value, children }
    }
}

/// The mathematical form of a tree of sizes: what a layout pass produces.
pub struct SizedTree {
    pub value: Space,
    pub children: Seq<SizedTree>,
}

impl SizedTree {
    pub open spec fn leaf(value: Space) -> SizedTree {
        SizedTree { value, children: Seq::empty() }
    }

    /// The sizes at the roots of the children, in order.
    pub open spec fn child_values(self) -> Seq<Space> {
        values_of(self.children)
    }

    /// Every size in the tree can be held in machine integers.
    pub open spec fn fits(self) -> bool
        decreases self,
    {
        &&& self.value.fits()
        &&& forall|i: int| 0 <= i < self.children.len() ==> (#[trigger] self.children[i]).fits()
    }
}

/// The root sizes of a sequence of trees.
pub open spec fn values_of(kids: Seq<SizedTree>) -> Seq<Space> {
    Seq::new(kids.len(), |i: int| kids[i].value)
}

/// The mathematical forms of a sequence of trees.
pub open spec fn sized_seq(trees: Seq<Tree<NeededSpace>>) -> Seq<SizedTree> {
    Seq::new(trees.len(), |i: int| trees[i].sized())
}

impl Tree<NeededSpace> {
    /// The mathematical form of this tree.
    pub open spec fn sized(self) -> SizedTree
        decreases self,
    {
        SizedTree {
            value: self.value@,
            children: Seq::new(
                self.children.len() as nat,
                |i: int|
                    if 0 <= i < self.children.len() {
                        self.children[i].sized()
                    } else {
                        SizedTree::leaf(Space::zero())
                    },
            ),
        }
    }
}

/// A tree held in machine integers fits them, at every node.
pub proof fn lemma_sized_fits(tree: Tree<NeededSpace>)
    ensures
        tree.sized().fits(),
    decreases tree,
{
    let s = tree.sized();
    assert forall|i: int| 0 <= i < s.children.len() implies (#[trigger] s.children[i]).fits() by {
        lemma_sized_fits(tree.children[i]);
    }
}

} // verus!
