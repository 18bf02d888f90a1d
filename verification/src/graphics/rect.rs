use vstd::prelude::*;

verus! {

/// The largest magnitude of a coordinate for which sums and differences of
/// two coordinates are sure to be representable.
pub const COORD_LIMIT: i64 = 0x3fff_ffff_ffff_ffff;

/// A point or an extent in whole layout units.
#[derive(Clone, Copy, Debug, PartialEq, Eq, Structural)]
pub struct Vec2 {
    pub x: i64,
    pub y: i64,
}

/// An axis-aligned rectangle given by its two corners. A rectangle whose
/// `min` lies beyond its `max` is degenerate and tolerated.
#[derive(Clone, Copy, Debug, PartialEq, Eq, Structural)]
pub struct Rect {
    pub min: Vec2,
    pub max: Vec2,
}

/// The mathematical form of a rectangle: its four edges.
pub struct Area {
    pub x0: int,
    pub y0: int,
    pub x1: int,
    pub y1: int,
}

impl Area {
    /// Every edge moved inwards by `amount`.
    pub open spec fn shrink(self, amount: int) -> Area {
        Area {
            x0: self.x0 + amount,
            y0: self.y0 + amount,
            x1: self.x1 - amount,
            y1: self.y1 - amount,
        }
    }

    /// `other` lies within `self`.
    pub open spec fn contains(self, other: Area) -> bool {
        &&& self.x0 <= other.x0
        &&& other.x1 <= self.x1
        &&& self.y0 <= other.y0
        &&& other.y1 <= self.y1
    }
}

impl View for Rect {
    type V = Area;

    open spec fn view(&self) -> Area {
        Area {
            x0: self.min.x as int,
            y0: self.min.y as int,
            x1: self.max.x as int,
            y1: self.max.y as int,
        }
    }
}

/// The quotient of `a` by `b`, rounded towards zero.
pub open spec fn quotient(a: int, b: int) -> int {
    if a >= 0 {
        a / b
    } else {
        -((-a) / b)
    }
}

pub fn vec2(x: i64, y: i64) -> (r: Vec2)
    ensures
        r == (Vec2 { x, y }),
{
    Vec2 { x, y }
}

pub fn pos2(x: i64, y: i64) -> (r: Vec2)
    ensures
        r == (Vec2 { x, y }),
{
    Vec2 { x, y }
}

impl Vec2 {
    /// Both components lie within `COORD_LIMIT` of zero.
    pub open spec fn bounded(self) -> bool {
        &&& -COORD_LIMIT <= self.x <= COORD_LIMIT
        &&& -COORD_LIMIT <= self.y <= COORD_LIMIT
    }

    pub fn new(x: i64, y: i64) -> (r: Vec2)
        ensures
            r == (Vec2 { x, y }),
    {
        Vec2 { x, y }
    }

    /// The same value in both components.
    pub fn splat(v: i64) -> (r: Vec2)
        ensures
            r == (Vec2 { x: v, y: v }),
    {
        Vec2 { x: v, y: v }
    }

    pub fn zero() -> (r: Vec2)
        ensures
            r == (Vec2 { x: 0, y: 0 }),
    {
        Vec2 { x: 0, y: 0 }
    }

    /// Adds `rhs` to both components in place.
    pub fn add_assign(&mut self, rhs: Vec2)
        requires
            old(self).bounded(),
            rhs.bounded(),
        ensures
            final(self).x == old(self).x + rhs.x,
            final(self).y == old(self).y + rhs.y,
    {
        self.x = self.x + rhs.x;
        self.y = self.y + rhs.y;
    }

    /// Subtracts `rhs` from both components in place.
    pub fn sub_assign(&mut self, rhs: Vec2)
        requires
            old(self).bounded(),
            rhs.bounded(),
        ensures
            final(self).x == old(self).x - rhs.x,
            final(self).y == old(self).y - rhs.y,
    {
        self.x = self.x - rhs.x;
        self.y = self.y - rhs.y;
    }

    /// Multiplies both components by `rhs` in place.
    pub fn mul_assign(&mut self, rhs: i64)
        requires
            i64::MIN <= old(self).x * rhs <= i64::MAX,
            i64::MIN <= old(self).y * rhs <= i64::MAX,
        ensures
            final(self).x == old(self).x * rhs,
            final(self).y == old(self).y * rhs,
    {
        self.x = self.x * rhs;
        self.y = self.y * rhs;
    }

    /// The smaller of the two components.
    pub fn smaller_comp(&self) -> (r: i64)
        ensures
            r <= self.x,
            r <= self.y,
            r == self.x || r == self.y,
    {
        if self.x <= self.y {
            self.x
        } else {
            self.y
        }
    }

}

impl core::ops::Add for Vec2 {
    type Output = Vec2;

    fn add(self, rhs: Vec2) -> (r: Vec2) {
        Vec2 { x: self.x + rhs.x, y: self.y + rhs.y }
    }
}

impl vstd::std_specs::ops::AddSpecImpl for Vec2 {
    open spec fn obeys_add_spec() -> bool {
        true
    }

    open spec fn add_req(self, rhs: Vec2) -> bool {
        self.bounded() && rhs.bounded()
    }

    open spec fn add_spec(self, rhs: Vec2) -> Vec2 {
        Vec2 { x: (self.x + rhs.x) as i64, y: (self.y + rhs.y) as i64 }
    }
}

impl core::ops::Sub for Vec2 {
    type Output = Vec2;

    fn sub(self, rhs: Vec2) -> (r: Vec2) {
        Vec2 { x: self.x - rhs.x, y: self.y - rhs.y }
    }
}

impl vstd::std_specs::ops::SubSpecImpl for Vec2 {
    open spec fn obeys_sub_spec() -> bool {
        true
    }

    open spec fn sub_req(self, rhs: Vec2) -> bool {
        self.bounded() && rhs.bounded()
    }

    open spec fn sub_spec(self, rhs: Vec2) -> Vec2 {
        Vec2 { x: (self.x - rhs.x) as i64, y: (self.y - rhs.y) as i64 }
    }
}

impl core::ops::Neg for Vec2 {
    type Output = Vec2;

    fn neg(self) -> (r: Vec2) {
        Vec2 { x: -self.x, y: -self.y }
    }
}

impl vstd::std_specs::ops::NegSpecImpl for Vec2 {
    open spec fn obeys_neg_spec() -> bool {
        true
    }

    open spec fn neg_req(self) -> bool {
        self.bounded()
    }

    open spec fn neg_spec(self) -> Vec2 {
        Vec2 { x: (-self.x) as i64, y: (-self.y) as i64 }
    }
}

/// Element-wise multiplication
impl core::ops::Mul<Vec2> for Vec2 {
    type Output = Vec2;

    fn mul(self, vec: Vec2) -> (r: Vec2) {
        Vec2 { x: self.x * vec.x, y: self.y * vec.y }
    }
}

impl vstd::std_specs::ops::MulSpecImpl<Vec2> for Vec2 {
    open spec fn obeys_mul_spec() -> bool {
        true
    }

    open spec fn mul_req(self, vec: Vec2) -> bool {
        &&& i64::MIN <= self.x * vec.x <= i64::MAX
        &&& i64::MIN <= self.y * vec.y <= i64::MAX
    }

    open spec fn mul_spec(self, vec: Vec2) -> Vec2 {
        Vec2 { x: (self.x * vec.x) as i64, y: (self.y * vec.y) as i64 }
    }
}

/// Multiplication of both components by one factor
impl core::ops::Mul<i64> for Vec2 {
    type Output = Vec2;

    fn mul(self, factor: i64) -> (r: Vec2) {
        Vec2 { x: self.x * factor, y: self.y * factor }
    }
}

impl vstd::std_specs::ops::MulSpecImpl<i64> for Vec2 {
    open spec fn obeys_mul_spec() -> bool {
        true
    }

    open spec fn mul_req(self, factor: i64) -> bool {
        &&& i64::MIN <= self.x * factor <= i64::MAX
        &&& i64::MIN <= self.y * factor <= i64::MAX
    }

    open spec fn mul_spec(self, factor: i64) -> Vec2 {
        Vec2 { x: (self.x * factor) as i64, y: (self.y * factor) as i64 }
    }
}

/// Multiplication of both components of a vector by one factor
impl core::ops::Mul<Vec2> for i64 {
    type Output = Vec2;

    fn mul(self, vec: Vec2) -> (r: Vec2) {
        Vec2 { x: self * vec.x, y: self * vec.y }
    }
}

impl vstd::std_specs::ops::MulSpecImpl<Vec2> for i64 {
    open spec fn obeys_mul_spec() -> bool {
        true
    }

    open spec fn mul_req(self, vec: Vec2) -> bool {
        &&& i64::MIN <= self * vec.x <= i64::MAX
        &&& i64::MIN <= self * vec.y <= i64::MAX
    }

    open spec fn mul_spec(self, vec: Vec2) -> Vec2 {
        Vec2 { x: (self * vec.x) as i64, y: (self * vec.y) as i64 }
    }
}

/// Element-wise division, rounded towards zero
impl core::ops::Div<Vec2> for Vec2 {
    type Output = Vec2;

    fn div(self, rhs: Vec2) -> (r: Vec2) {
        Vec2 { x: self.x / rhs.x, y: self.y / rhs.y }
    }
}

impl vstd::std_specs::ops::DivSpecImpl<Vec2> for Vec2 {
    open spec fn obeys_div_spec() -> bool {
        true
    }

    open spec fn div_req(self, rhs: Vec2) -> bool {
        self.bounded() && rhs.x != 0 && rhs.y != 0
    }

    open spec fn div_spec(self, rhs: Vec2) -> Vec2 {
        Vec2 {
            x: quotient(self.x as int, rhs.x as int) as i64,
            y: quotient(self.y as int, rhs.y as int) as i64,
        }
    }
}

/// Division of both components by one divisor, rounded towards zero
impl core::ops::Div<i64> for Vec2 {
    type Output = Vec2;

    fn div(self, factor: i64) -> (r: Vec2) {
        Vec2 { x: self.x / factor, y: self.y / factor }
    }
}

impl vstd::std_specs::ops::DivSpecImpl<i64> for Vec2 {
    open spec fn obeys_div_spec() -> bool {
        true
    }

    open spec fn div_req(self, factor: i64) -> bool {
        self.bounded() && factor != 0
    }

    open spec fn div_spec(self, factor: i64) -> Vec2 {
        Vec2 {
            x: quotient(self.x as int, factor as int) as i64,
            y: quotient(self.y as int, factor as int) as i64,
        }
    }
}

impl Rect {
    /// Both corners lie within `COORD_LIMIT` of the origin.
    pub open spec fn bounded(self) -> bool {
        self.min.bounded() && self.max.bounded()
    }

    /// The point midway between the two corners, each coordinate rounded
    /// towards zero.
    pub fn center(&self) -> (r: Vec2)
        requires
            self.bounded(),
        ensures
            r.x == quotient(self.min.x + self.max.x, 2),
            r.y == quotient(self.min.y + self.max.y, 2),
    {
        Vec2 { x: (self.min.x + self.max.x) / 2, y: (self.min.y + self.max.y) / 2 }
    }

    /// The rectangle with its top-left corner at `(x, y)` and the given
    /// extent.
    pub fn new(x: i64, y: i64, width: i64, height: i64) -> (r: Rect)
        requires
            (Vec2 { x, y }).bounded(),
            (Vec2 { x: width, y: height }).bounded(),
        ensures
            r.min == (Vec2 { x, y }),
            r.max.x == x + width,
            r.max.y == y + height,
    {
        Rect { min: vec2(x, y), max: vec2(x + width, y + height) }
    }

    pub fn from_min_max(min: Vec2, max: Vec2) -> (r: Rect)
        ensures
            r == (Rect { min, max }),
    {
        Rect { min, max }
    }

    /// The rectangle of extent `size` whose top-left corner is `min`.
    pub fn from_min_size(min: Vec2, size: Vec2) -> (r: Rect)
        requires
            min.bounded(),
            size.bounded(),
        ensures
            r.min == min,
            r.max.x == min.x + size.x,
            r.max.y == min.y + size.y,
    {
        Rect { min, max: min + size }
    }

    /// Moves every edge inwards by `amnt`.
    #[must_use]
    pub fn shrink(self, amnt: i64) -> (r: Rect)
        requires
            self.bounded(),
            -COORD_LIMIT <= amnt <= COORD_LIMIT,
        ensures
            r.min.x == self.min.x + amnt,
            r.min.y == self.min.y + amnt,
            r.max.x == self.max.x - amnt,
            r.max.y == self.max.y - amnt,
    {
        self.shrink2(Vec2::splat(amnt))
    }

    /// Moves the vertical edges inwards by `amnt.x` and the horizontal ones
    /// by `amnt.y`.
    #[must_use]
    pub fn shrink2(self, amnt: Vec2) -> (r: Rect)
        requires
            self.bounded(),
            amnt.bounded(),
        ensures
            r.min.x == self.min.x + amnt.x,
            r.min.y == self.min.y + amnt.y,
            r.max.x == self.max.x - amnt.x,
            r.max.y == self.max.y - amnt.y,
    {
        Rect::from_min_max(self.min + amnt, self.max - amnt)
    }

    pub fn size(&self) -> (r: Vec2)
        requires
            self.bounded(),
        ensures
            r.x == self.max.x - self.min.x,
            r.y == self.max.y - self.min.y,
    {
        self.max - self.min
    }

    pub fn width(&self) -> (r: i64)
        requires
            self.bounded(),
        ensures
            r == self.max.x - self.min.x,
    {
        self.max.x - self.min.x
    }

    pub fn height(&self) -> (r: i64)
        requires
            self.bounded(),
        ensures
            r == self.max.y - self.min.y,
    {
        self.max.y - self.min.y
    }

    /// `min.x`
    pub fn left(&self) -> (r: i64)
        ensures
            r == self.min.x,
    {
        self.min.x
    }

    /// `min.x`
    pub fn left_mut(&mut self) -> (r: &mut i64)
        ensures
            *r == old(self).min.x,
            *final(self) == (Rect { min: Vec2 { x: *final(r), y: old(self).min.y }, max: old(self).max }),
    {
        &mut self.min.x
    }

    /// `min.x`
    pub fn set_left(&mut self, x: i64)
        ensures
            *final(self) == (Rect { min: Vec2 { x, y: old(self).min.y }, max: old(self).max }),
    {
        self.min.x = x;
    }

    /// `max.x`
    pub fn right(&self) -> (r: i64)
        ensures
            r == self.max.x,
    {
        self.max.x
    }

    /// `max.x`
    pub fn right_mut(&mut self) -> (r: &mut i64)
        ensures
            *r == old(self).max.x,
            *final(self) == (Rect { min: old(self).min, max: Vec2 { x: *final(r), y: old(self).max.y } }),
    {
        &mut self.max.x
    }

    /// `max.x`
    pub fn set_right(&mut self, x: i64)
        ensures
            *final(self) == (Rect { min: old(self).min, max: Vec2 { x, y: old(self).max.y } }),
    {
        self.max.x = x;
    }

    /// `min.y`
    pub fn top(&self) -> (r: i64)
        ensures
            r == self.min.y,
    {
        self.min.y
    }

    /// `min.y`
    pub fn top_mut(&mut self) -> (r: &mut i64)
        ensures
            *r == old(self).min.y,
            *final(self) == (Rect { min: Vec2 { x: old(self).min.x, y: *final(r) }, max: old(self).max }),
    {
        &mut self.min.y
    }

    /// `min.y`
    pub fn set_top(&mut self, y: i64)
        ensures
            *final(self) == (Rect { min: Vec2 { x: old(self).min.x, y }, max: old(self).max }),
    {
        self.min.y = y;
    }

    /// `max.y`
    pub fn bottom(&self) -> (r: i64)
        ensures
            r == self.max.y,
    {
        self.max.y
    }

    /// `max.y`
    pub fn bottom_mut(&mut self) -> (r: &mut i64)
        ensures
            *r == old(self).max.y,
            *final(self) == (Rect { min: old(self).min, max: Vec2 { x: old(self).max.x, y: *final(r) } }),
    {
        &mut self.max.y
    }

    /// `max.y`
    pub fn set_bottom(&mut self, y: i64)
        ensures
            *final(self) == (Rect { min: old(self).min, max: Vec2 { x: old(self).max.x, y } }),
    {
        self.max.y = y;
    }

    pub fn left_top(&self) -> (r: Vec2)
        ensures
            r == (Vec2 { x: self.min.x, y: self.min.y }),
    {
        pos2(self.left(), self.top())
    }

    pub fn center_top(&self) -> (r: Vec2)
        requires
            self.bounded(),
        ensures
            r == (Vec2 { x: quotient(self.min.x + self.max.x, 2) as i64, y: self.min.y }),
    {
        pos2(self.center().x, self.top())
    }

    pub fn left_center(&self) -> (r: Vec2)
        requires
            self.bounded(),
        ensures
            r == (Vec2 { x: self.min.x, y: quotient(self.min.y + self.max.y, 2) as i64 }),
    {
        pos2(self.left(), self.center().y)
    }

    pub fn right_center(&self) -> (r: Vec2)
        requires
            self.bounded(),
        ensures
            r == (Vec2 { x: self.max.x, y: quotient(self.min.y + self.max.y, 2) as i64 }),
    {
        pos2(self.right(), self.center().y)
    }

    pub fn center_bottom(&self) -> (r: Vec2)
        requires
            self.bounded(),
        ensures
            r == (Vec2 { x: quotient(self.min.x + self.max.x, 2) as i64, y: self.max.y }),
    {
        pos2(self.center().x, self.bottom())
    }

    pub fn right_top(&self) -> (r: Vec2)
        ensures
            r == (Vec2 { x: self.max.x, y: self.min.y }),
    {
        pos2(self.right(), self.top())
    }

    pub fn left_bottom(&self) -> (r: Vec2)
        ensures
            r == (Vec2 { x: self.min.x, y: self.max.y }),
    {
        pos2(self.left(), self.bottom())
    }

    pub fn right_bottom(&self) -> (r: Vec2)
        ensures
            r == (Vec2 { x: self.max.x, y: self.max.y }),
    {
        pos2(self.right(), self.bottom())
    }

    /// The left and the right part of the rectangle, cut at `split_x`.
    pub fn split_left_right_at_x(&self, split_x: i64) -> (r: (Rect, Rect))
        ensures
            r.0 == (Rect { min: self.min, max: Vec2 { x: split_x, y: self.max.y } }),
            r.1 == (Rect { min: Vec2 { x: split_x, y: self.min.y }, max: self.max }),
    {
        let left = Rect::from_min_max(self.min, Vec2::new(split_x, self.max.y));
        let right = Rect::from_min_max(Vec2::new(split_x, self.min.y), self.max);
        (left, right)
    }

    /// The top and the bottom part of the rectangle, cut at `split_y`.
    pub fn split_top_bottom_at_y(&self, split_y: i64) -> (r: (Rect, Rect))
        ensures
            r.0 == (Rect { min: self.min, max: Vec2 { x: self.max.x, y: split_y } }),
            r.1 == (Rect { min: Vec2 { x: self.min.x, y: split_y }, max: self.max }),
    {
        let top = Rect::from_min_max(self.min, Vec2::new(self.max.x, split_y));
        let bottom = Rect::from_min_max(Vec2::new(self.min.x, split_y), self.max);
        (top, bottom)
    }
}

} // verus!
