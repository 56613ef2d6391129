//! Shapes an entity can be drawn and indexed as.
use vstd::prelude::*;

verus! {

#[derive(Debug, Clone, Copy, PartialEq, Eq, Structural)]
pub enum BodyShape {
    Circle,
    Square,
}

} // verus!
