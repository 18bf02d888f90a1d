//! A tree with separate kinds of data at its leaves and at its inner nodes.

use vstd::prelude::*;

verus! {

#[derive(Debug, PartialEq, Eq)]
pub enum Tree<LeafData, NodeData> {
    Leaf(LeafData),
    Node(NodeData, Vec<Tree<LeafData, NodeData>>),
}

impl<LeafData, NodeData> Tree<LeafData, NodeData> {
    /// `f` can be called on every leaf of the tree.
    pub open spec fn leaves_allowed<NewLeafData, F: Fn(LeafData) -> NewLeafData>(
        self,
        f: &F,
    ) -> bool
        decreases self,
    {
        match self {
            Tree::Leaf(v) => f.requires((v,)),
            Tree::Node(_, children) => forall|i: int|
                0 <= i < children.len() ==> (#[trigger] children[i]).leaves_allowed(f),
        }
    }

    /// `mapped` is this tree with each leaf replaced by a result of `f` on
    /// it: the same nodes with the same data and as many children, in the
    /// same order.
    pub open spec fn leaves_mapped<NewLeafData, F: Fn(LeafData) -> NewLeafData>(
        self,
        f: &F,
        mapped: Tree<NewLeafData, NodeData>,
    ) -> bool
        decreases self,
    {
        match self {
            Tree::Leaf(v) => mapped is Leaf && f.ensures((v,), mapped->Leaf_0),
            Tree::Node(v, children) => {
                &&& mapped is Node
                &&& mapped->Node_0 == v
                &&& mapped->Node_1.len() == children.len()
                &&& forall|i: int|
                    0 <= i < children.len() ==> (#[trigger] children[i]).leaves_mapped(
                        f,
                        mapped->Node_1[i],
                    )
            },
        }
    }

    /// Replaces every leaf by what `f` makes of it and keeps the nodes.
    pub fn map_leafs<NewLeafData, F: Fn(LeafData) -> NewLeafData>(self, f: &F) -> (r: Tree<
        NewLeafData,
        NodeData,
    >)
        requires
            self.leaves_allowed(f),
        ensures
            self.leaves_mapped(f, r),
        decreases self,
    {
        let ghost whole = self;
        match self {
            Tree::Leaf(v) => Tree::Leaf(f(v)),
            Tree::Node(v, children) => {
                let ghost kids = children@;
                let mut rest = children;
                let mut reversed: Vec<Tree<NewLeafData, NodeData>> = Vec::new();
                while rest.len() > 0
                    invariant
                        whole == self,
                        whole is Node,
                        whole->Node_1@ == kids,
                        rest.len() <= kids.len(),
                        rest@ == kids.take(rest.len() as int),
                        reversed.len() == kids.len() - rest.len(),
                        forall|i: int|
                            0 <= i < kids.len() ==> (#[trigger] kids[i]).leaves_allowed(f),
                        forall|j: int|
                            0 <= j < reversed.len() ==> kids[kids.len() - 1 - j].leaves_mapped(
                                f,
                                #[trigger] reversed[j],
                            ),
                    decreases rest.len(),
                {
                    let ghost k = rest.len() - 1;
                    let child = rest.pop().unwrap();
                    assert(child == kids[k]);
                    let mapped = child.map_leafs(f);
                    reversed.push(mapped);
                    assert(rest@ =~= kids.take(rest.len() as int));
                }
                let mut out: Vec<Tree<NewLeafData, NodeData>> = Vec::new();
                while reversed.len() > 0
                    invariant
                        reversed.len() + out.len() == kids.len(),
                        forall|j: int|
                            0 <= j < reversed.len() ==> kids[kids.len() - 1 - j].leaves_mapped(
                                f,
                                #[trigger] reversed[j],
                            ),
                        forall|i: int|
                            0 <= i < out.len() ==> kids[i].leaves_mapped(f, #[trigger] out[i]),
                    decreases reversed.len(),
                {
                    let mapped = reversed.pop().unwrap();
                    out.push(mapped);
                }
                Tree::Node(v, out)
            },
        }
    }
}

} // verus!
