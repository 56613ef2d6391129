//! Which corner of a panel its position names.
use vstd::prelude::*;
use crate::world::vector::{in_pos_range, in_scalar_range};

verus! {

#[derive(Debug, Clone, Copy, PartialEq, Eq, Structural)]
pub enum Anchor {
    TopLeft,
    BottomLeft,
    BottomRight,
}

impl Anchor {
    /// The top-left corner of a `w` by `h` panel anchored at `(x, y)`.
    pub fn absolute(&self, x: i64, y: i64, w: i64, h: i64) -> (r: (i64, i64))
        requires
            in_pos_range(x as int),
            in_pos_range(y as int),
            in_scalar_range(w as int),
            in_scalar_range(h as int),
        ensures
            r == match *self {
                Anchor::TopLeft => (x, y),
                Anchor::BottomLeft => (x, (y - h) as i64),
                Anchor::BottomRight => ((x - w) as i64, (y - h) as i64),
            },
    {
        match self {
            Anchor::TopLeft => (x, y),
            Anchor::BottomLeft => (x, y - h),
            Anchor::BottomRight => (x - w, y - h),
        }
    }
}

} // verus!
