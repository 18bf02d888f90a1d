use vstd::prelude::*;
use crate::graphics::Vec2;

verus! {

/// The mathematical size of a laid-out subtree: a width and the two vertical
/// extents above and below the alignment line, without machine limits.
pub struct Space {
    pub x: nat,
    pub above: nat,
    pub below: nat,
}

impl Space {
    pub open spec fn zero() -> Space {
        Space { x: 0, above: 0, below: 0 }
    }

    /// Total height: both vertical extents together.
    pub open spec fn height(self) -> nat {
        self.above + self.below
    }

    /// `other` placed to the right of `self` on a shared alignment line.
    pub open spec fn add_x(self, other: Space) -> Space {
        Space {
            x: self.x + other.x,
            above: if self.above >= other.above { self.above } else { other.above },
            below: if self.below >= other.below { self.below } else { other.below },
        }
    }

    /// `other` placed below `self`; the alignment line stays that of `self`.
    pub open spec fn stack_below(self, other: Space) -> Space {
        Space {
            x: if self.x >= other.x { self.x } else { other.x },
            above: self.above,
            below: self.below + other.height(),
        }
    }

    /// Symmetric padding: `amount` on each of the four sides.
    pub open spec fn expand(self, amount: nat) -> Space {
        Space { x: self.x + 2 * amount, above: self.above + amount, below: self.below + amount }
    }

    /// Extra width only.
    pub open spec fn expand_x(self, amount: nat) -> Space {
        Space { x: self.x + amount, above: self.above, below: self.below }
    }

    /// Both vertical extents become half of the total height. An odd total is
    /// rounded up, so that the centred size never cuts the content.
    pub open spec fn center_y(self) -> Space {
        let half = ((self.above + self.below + 1) / 2) as nat;
        Space { x: self.x, above: half, below: half }
    }

    /// Every field can be held in a `u32`.
    pub open spec fn fits(self) -> bool {
        self.x <= u32::MAX && self.above <= u32::MAX && self.below <= u32::MAX
    }
}

/// The room a subtree asks for, in whole layout units.
#[derive(Debug, Clone, Copy, PartialEq, Eq, Structural)]
pub struct NeededSpace {
    pub size_x: u32,
    pub size_y_below: u32,
    pub size_y_above: u32,
}

impl View for NeededSpace {
    type V = Space;

    open spec fn view(&self) -> Space {
        Space {
            x: self.size_x as nat,
            above: self.size_y_above as nat,
            below: self.size_y_below as nat,
        }
    }
}

impl Default for NeededSpace {
    fn default() -> (r: Self)
        ensures
            r@ == Space::zero(),
    {
        NeededSpace { size_x: 0, size_y_below: 0, size_y_above: 0 }
    }
}

impl NeededSpace {
    /// No space at all.
    pub fn zero() -> (r: Self)
        ensures
            r@ == Space::zero(),
    {
        NeededSpace { size_x: 0, size_y_below: 0, size_y_above: 0 }
    }

    /// A size that lies wholly above the alignment line, as plain text does.
    pub fn above(size: Vec2) -> (r: Self)
        requires
            0 <= size.x <= u32::MAX,
            0 <= size.y <= u32::MAX,
        ensures
            r@ == (Space { x: size.x as nat, above: size.y as nat, below: 0 }),
    {
        NeededSpace { size_x: size.x as u32, size_y_below: 0, size_y_above: size.y as u32 }
    }

    pub fn new(size_x: u32, size_y_above: u32, size_y_below: u32) -> (r: Self)
        ensures
            r.size_x == size_x,
            r.size_y_above == size_y_above,
            r.size_y_below == size_y_below,
    {
        NeededSpace { size_x, size_y_below, size_y_above }
    }

    /// Pads all four sides by `amnt`.
    pub fn expand(self, amnt: u32) -> (r: Self)
        requires
            self@.expand(amnt as nat).fits(),
        ensures
            r@ == self@.expand(amnt as nat),
    {
        NeededSpace {
            size_x: self.size_x + amnt + amnt,
            size_y_below: self.size_y_below + amnt,
            size_y_above: self.size_y_above + amnt,
        }
    }

    /// Widens by `x` and leaves the vertical extents alone.
    pub fn expand_x(self, x: u32) -> (r: Self)
        requires
            self@.expand_x(x as nat).fits(),
        ensures
            r@ == self@.expand_x(x as nat),
    {
        NeededSpace { size_x: self.size_x + x, ..self }
    }

    /// Places `other` to the right of `self`.
    pub fn add_x(self, other: Self) -> (r: Self)
        requires
            self@.add_x(other@).fits(),
        ensures
            r@ == self@.add_x(other@),
    {
        NeededSpace {
            size_x: self.size_x + other.size_x,
            size_y_below: if self.size_y_below >= other.size_y_below {
                self.size_y_below
            } else {
                other.size_y_below
            },
            size_y_above: if self.size_y_above >= other.size_y_above {
                self.size_y_above
            } else {
                other.size_y_above
            },
        }
    }

    /// Width and total height.
    pub fn size(&self) -> (r: Vec2)
        ensures
            r.x == self@.x,
            r.y == self@.height(),
    {
        Vec2 { x: self.size_x as i64, y: self.size_y_below as i64 + self.size_y_above as i64 }
    }

    /// Places `other` below `self`.
    pub fn stack_below(self, other: Self) -> (r: Self)
        requires
            self@.stack_below(other@).fits(),
        ensures
            r@ == self@.stack_below(other@),
    {
        NeededSpace {
            size_x: if self.size_x >= other.size_x { self.size_x } else { other.size_x },
            size_y_below: self.size_y_below + other.size_y_below + other.size_y_above,
            size_y_above: self.size_y_above,
        }
    }

    /// Splits the total height evenly over both sides of the alignment line.
    pub fn center_y(self) -> (r: Self)
        ensures
            r@ == self@.center_y(),
    {
        let total: u64 = self.size_y_below as u64 + self.size_y_above as u64 + 1;
        let y: u32 = (total / 2) as u32;
        NeededSpace { size_x: self.size_x, size_y_below: y, size_y_above: y }
    }
}

/// Horizontal composition adds the widths; vertical composition keeps the top
/// block's alignment line and adds the total heights.
pub proof fn lemma_additivity(a: NeededSpace, b: NeededSpace)
    ensures
        a@.add_x(b@).x == a@.x + b@.x,
        a@.stack_below(b@).above == a@.above,
        a@.stack_below(b@).height() == a@.height() + b@.height(),
{
}

/// Centring a size that is already centred changes nothing.
pub proof fn lemma_center_y_idempotent(a: NeededSpace)
    ensures
        a@.center_y().center_y() == a@.center_y(),
{
}

/// Padding never makes any of the three dimensions smaller.
pub proof fn lemma_expand_never_shrinks(a: NeededSpace, amount: u32)
    ensures
        a@.expand(amount as nat).x >= a@.x,
        a@.expand(amount as nat).above >= a@.above,
        a@.expand(amount as nat).below >= a@.below,
        a@.expand_x(amount as nat).x >= a@.x,
        a@.expand_x(amount as nat).above == a@.above,
        a@.expand_x(amount as nat).below == a@.below,
{
}

} // verus!
