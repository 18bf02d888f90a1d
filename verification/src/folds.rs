//! The folds by which a combinator turns the sizes of its children into its
//! own size.

use vstd::prelude::*;
use crate::needed_space::{NeededSpace, Space};
use crate::sized_tree::{sized_seq, values_of, Tree};

verus! {

/// The width that the leading row of a flow-wrapped group must stay under.
pub const ROW_LIMIT: u32 = 200;

/// The root sizes of a sequence of trees.
pub open spec fn root_values(trees: Seq<Tree<NeededSpace>>) -> Seq<Space> {
    Seq::new(trees.len(), |i: int| trees[i].value@)
}

/// The sizes side by side on a shared alignment line, left to right.
pub open spec fn row_total(s: Seq<Space>) -> Space
    decreases s.len(),
{
    if s.len() == 0 {
        Space::zero()
    } else {
        row_total(s.drop_last()).add_x(s.last())
    }
}

/// The sizes side by side, each centred vertically before it is added.
pub open spec fn centered_row_total(s: Seq<Space>) -> Space
    decreases s.len(),
{
    if s.len() == 0 {
        Space::zero()
    } else {
        centered_row_total(s.drop_last()).center_y().add_x(s.last().center_y())
    }
}

/// The sizes stacked below `init`, top to bottom.
pub open spec fn stack_from(init: Space, s: Seq<Space>) -> Space
    decreases s.len(),
{
    if s.len() == 0 {
        init
    } else {
        stack_from(init, s.drop_last()).stack_below(s.last())
    }
}

/// The sizes stacked top to bottom; the first one gives the alignment line.
pub open spec fn col_total(s: Seq<Space>) -> Space {
    if s.len() == 0 {
        Space::zero()
    } else {
        stack_from(s[0], s.skip(1))
    }
}

/// How many leading sizes the greedy row takes: the row grows for as long as
/// its width with the next size added stays under `limit`.
pub open spec fn row_elem_count(s: Seq<Space>, limit: nat) -> nat
    decreases s.len(),
{
    if s.len() == 0 {
        0
    } else {
        let before = row_elem_count(s.drop_last(), limit);
        if before == s.len() - 1 && row_total(s).x < limit {
            s.len()
        } else {
            before
        }
    }
}

/// The root sizes of trees are the root values of their mathematical forms.
pub proof fn lemma_root_values(trees: Seq<Tree<NeededSpace>>)
    ensures
        values_of(sized_seq(trees)) == root_values(trees),
{
    assert(values_of(sized_seq(trees)) =~= root_values(trees));
}

/// A row is at least as wide as any of its leading parts.
pub proof fn lemma_row_total_prefix(s: Seq<Space>, k: int)
    requires
        0 <= k <= s.len(),
    ensures
        row_total(s.take(k)).x <= row_total(s).x,
    decreases s.len(),
{
    if k == s.len() {
        assert(s.take(k) =~= s);
    } else {
        lemma_row_total_prefix(s.drop_last(), k);
        assert(s.drop_last().take(k) =~= s.take(k));
    }
}

/// A centred row is at least as wide as any of its leading parts.
pub proof fn lemma_centered_row_total_prefix(s: Seq<Space>, k: int)
    requires
        0 <= k <= s.len(),
    ensures
        centered_row_total(s.take(k)).x <= centered_row_total(s).x,
    decreases s.len(),
{
    if k == s.len() {
        assert(s.take(k) =~= s);
    } else {
        lemma_centered_row_total_prefix(s.drop_last(), k);
        assert(s.drop_last().take(k) =~= s.take(k));
    }
}

/// A stack reaches at least as far down as any of its leading parts.
pub proof fn lemma_stack_from_prefix(init: Space, s: Seq<Space>, k: int)
    requires
        0 <= k <= s.len(),
    ensures
        stack_from(init, s.take(k)).below <= stack_from(init, s).below,
        stack_from(init, s).above == init.above,
    decreases s.len(),
{
    if k == s.len() {
        assert(s.take(k) =~= s);
        if s.len() > 0 {
            lemma_stack_from_prefix(init, s.drop_last(), 0);
        }
    } else {
        lemma_stack_from_prefix(init, s.drop_last(), k);
        assert(s.drop_last().take(k) =~= s.take(k));
    }
}

/// The greedy row never takes more than there is.
pub proof fn lemma_row_elem_count_bound(s: Seq<Space>, limit: nat)
    ensures
        row_elem_count(s, limit) <= s.len(),
    decreases s.len(),
{
    if s.len() > 0 {
        lemma_row_elem_count_bound(s.drop_last(), limit);
    }
}

/// Once the greedy row has refused a size, it takes none of the later ones.
pub proof fn lemma_row_elem_count_stops(s: Seq<Space>, limit: nat, j: int)
    requires
        0 <= j <= s.len(),
        row_elem_count(s.take(j), limit) < j,
    ensures
        row_elem_count(s, limit) == row_elem_count(s.take(j), limit),
    decreases s.len(),
{
    if j == s.len() {
        assert(s.take(j) =~= s);
    } else {
        assert(s.drop_last().take(j) =~= s.take(j));
        lemma_row_elem_count_stops(s.drop_last(), limit, j);
    }
}

/// The greedy row holds exactly the leading sizes whose cumulative width
/// stays strictly under the limit: every leading part of the row is under
/// it, and where a size is left over, the row with that size added is not.
pub proof fn lemma_row_elem_count_threshold(s: Seq<Space>, limit: nat)
    ensures
        row_elem_count(s, limit) <= s.len(),
        forall|k: int|
            1 <= k <= row_elem_count(s, limit) ==> (#[trigger] row_total(s.take(k))).x < limit,
        row_elem_count(s, limit) < s.len() ==> row_total(
            s.take(row_elem_count(s, limit) + 1 as int),
        ).x >= limit,
    decreases s.len(),
{
    if s.len() > 0 {
        let t = s.drop_last();
        let before = row_elem_count(t, limit);
        lemma_row_elem_count_threshold(t, limit);
        assert forall|k: int| 1 <= k <= row_elem_count(s, limit) implies (#[trigger] row_total(
            s.take(k),
        )).x < limit by {
            if k == s.len() {
                assert(s.take(k) =~= s);
            } else {
                assert(t.take(k) =~= s.take(k));
            }
        }
        if row_elem_count(s, limit) < s.len() {
            if before == s.len() - 1 {
                assert(s.take(before + 1 as int) =~= s);
            } else {
                assert(t.take(before + 1 as int) =~= s.take(before + 1 as int));
            }
        }
    }
}

/// The size of a row of the given trees, if it can be held.
pub fn row_size(layouts: &Vec<Tree<NeededSpace>>) -> (r: Option<NeededSpace>)
    ensures
        match r {
            Some(total) => total@ == row_total(root_values(layouts@)),
            None => !row_total(root_values(layouts@)).fits(),
        },
{
    let ghost vals = root_values(layouts@);
    let mut acc = NeededSpace::zero();
    let mut i: usize = 0;
    while i < layouts.len()
        invariant
            i <= layouts.len(),
            vals == root_values(layouts@),
            acc@ == row_total(vals.take(i as int)),
        decreases layouts.len() - i,
    {
        let child = layouts[i].value;
        proof {
            let next = vals.take(i + 1);
            assert(next.drop_last() =~= vals.take(i as int));
            assert(next.last() == child@);
            lemma_row_total_prefix(vals, i + 1);
        }
        if child.size_x > u32::MAX - acc.size_x {
            return None;
        }
        acc = acc.add_x(child);
        i += 1;
    }
    proof {
        assert(vals.take(i as int) =~= vals);
    }
    Some(acc)
}

/// The size of a vertically centred row of the given trees, if it can be
/// held.
pub fn centered_row_size(layouts: &Vec<Tree<NeededSpace>>) -> (r: Option<NeededSpace>)
    ensures
        match r {
            Some(total) => total@ == centered_row_total(root_values(layouts@)),
            None => !centered_row_total(root_values(layouts@)).fits(),
        },
{
    let ghost vals = root_values(layouts@);
    let mut acc = NeededSpace::zero();
    let mut i: usize = 0;
    while i < layouts.len()
        invariant
            i <= layouts.len(),
            vals == root_values(layouts@),
            acc@ == centered_row_total(vals.take(i as int)),
        decreases layouts.len() - i,
    {
        let child = layouts[i].value.center_y();
        proof {
            let next = vals.take(i + 1);
            assert(next.drop_last() =~= vals.take(i as int));
            assert(next.last().center_y() == child@);
            lemma_centered_row_total_prefix(vals, i + 1);
        }
        if child.size_x > u32::MAX - acc.size_x {
            return None;
        }
        acc = acc.center_y().add_x(child);
        i += 1;
    }
    proof {
        assert(vals.take(i as int) =~= vals);
    }
    Some(acc)
}

/// The size of `init` with the trees from index `from` on stacked below it,
/// if it can be held.
pub fn stack_size(init: NeededSpace, layouts: &Vec<Tree<NeededSpace>>, from: usize) -> (r: Option<
    NeededSpace,
>)
    requires
        from <= layouts.len(),
    ensures
        match r {
            Some(total) => total@ == stack_from(init@, root_values(layouts@).skip(from as int)),
            None => !stack_from(init@, root_values(layouts@).skip(from as int)).fits(),
        },
{
    let ghost vals = root_values(layouts@).skip(from as int);
    let mut acc = init;
    let mut i: usize = from;
    while i < layouts.len()
        invariant
            from <= i <= layouts.len(),
            vals == root_values(layouts@).skip(from as int),
            acc@ == stack_from(init@, vals.take(i - from)),
        decreases layouts.len() - i,
    {
        let child = layouts[i].value;
        proof {
            let next = vals.take(i - from + 1);
            assert(next.drop_last() =~= vals.take(i - from));
            assert(next.last() == child@);
            lemma_stack_from_prefix(init@, vals, i - from + 1);
        }
        let below: u64 = acc.size_y_below as u64 + child.size_y_below as u64
            + child.size_y_above as u64;
        if below > u32::MAX as u64 {
            return None;
        }
        acc = acc.stack_below(child);
        i += 1;
    }
    proof {
        assert(vals.take(i - from) =~= vals);
    }
    Some(acc)
}

/// The size of a column of the given trees, if it can be held.
pub fn col_size(layouts: &Vec<Tree<NeededSpace>>) -> (r: Option<NeededSpace>)
    ensures
        match r {
            Some(total) => total@ == col_total(root_values(layouts@)),
            None => !col_total(root_values(layouts@)).fits(),
        },
{
    if layouts.len() == 0 {
        Some(NeededSpace::zero())
    } else {
        stack_size(layouts[0].value, layouts, 1)
    }
}

/// The greedy row of a flow-wrapped group: its size and how many of the
/// leading trees it holds.
pub fn row_fill(layouts: &Vec<Tree<NeededSpace>>) -> (r: (NeededSpace, usize))
    ensures
        r.1 == row_elem_count(root_values(layouts@), ROW_LIMIT as nat),
        r.1 <= layouts.len(),
        r.0@ == row_total(root_values(layouts@).take(r.1 as int)),
        r.1 > 0 ==> r.0.size_x < ROW_LIMIT,
{
    let ghost vals = root_values(layouts@);
    let ghost limit = ROW_LIMIT as nat;
    let mut acc = NeededSpace::zero();
    let mut i: usize = 0;
    let mut open = true;
    while open && i < layouts.len()
        invariant
            i <= layouts.len(),
            vals == root_values(layouts@),
            limit == ROW_LIMIT as nat,
            acc@ == row_total(vals.take(i as int)),
            acc.size_x < ROW_LIMIT,
            row_elem_count(vals.take(i as int), limit) == i,
            !open ==> i < layouts.len() && row_elem_count(vals.take(i + 1), limit) == i,
        decreases layouts.len() - i + if open { 1int } else { 0int },
    {
        let child = layouts[i].value;
        proof {
            let next = vals.take(i + 1);
            assert(next.drop_last() =~= vals.take(i as int));
            assert(next.last() == child@);
        }
        if acc.size_x as u64 + child.size_x as u64 >= ROW_LIMIT as u64 {
            open = false;
        } else {
            acc = acc.add_x(child);
            i += 1;
        }
    }
    proof {
        if open {
            assert(vals.take(i as int) =~= vals);
        } else {
            lemma_row_elem_count_stops(vals, limit, i + 1);
        }
    }
    (acc, i)
}

} // verus!
