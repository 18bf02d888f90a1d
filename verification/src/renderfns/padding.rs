use vstd::prelude::*;
use crate::renderfns::{Paint, RenderFn};

verus! {

/// `f` with `padding` units of room on all four sides, decorated by `paint`.
pub fn wrap(f: RenderFn, padding: u32, paint: Paint) -> (r: RenderFn)
    ensures
        r == (RenderFn::Wrap { inner: Box::new(f), padding, paint }),
{
    RenderFn::Wrap { inner: Box::new(f), padding, paint }
}

/// `f` with `padding` units of room on all four sides and no decoration.
pub fn pad(f: RenderFn, padding: u32) -> (r: RenderFn)
    ensures
        r == (RenderFn::Wrap { inner: Box::new(f), padding, paint: Paint::Nothing }),
{
    wrap(f, padding, Paint::Nothing)
}

} // verus!
