//! Mouse state shared between input handling and the camera.
use vstd::prelude::*;

verus! {

#[derive(Debug, Clone, Copy, PartialEq, Eq, Structural)]
pub enum MouseScrollDir {
    Up,
    Down,
    /// No turn since input was last handled.
    Idle,
}

impl Default for MouseScrollDir {
    fn default() -> (d: Self)
        ensures
            d == MouseScrollDir::Idle,
    {
        MouseScrollDir::Idle
    }
}

impl MouseScrollDir {
    /// Whether the wheel turned up (a zoom in).
    pub fn is_up(&self) -> (r: bool)
        ensures
            r == (*self == MouseScrollDir::Up),
    {
        match self {
            MouseScrollDir::Up => true,
            _ => false,
        }
    }
}

impl<'a> From<&'a MouseScrollDir> for bool {
    fn from(dir: &'a MouseScrollDir) -> (r: bool) {
        dir.is_up()
    }
}

impl<'a> vstd::std_specs::convert::FromSpecImpl<&'a MouseScrollDir> for bool {
    open spec fn obeys_from_spec() -> bool {
        true
    }

    open spec fn from_spec(dir: &'a MouseScrollDir) -> bool {
        *dir == MouseScrollDir::Up
    }
}

#[derive(Debug, Clone, Copy, PartialEq, Eq, Structural)]
pub enum MousePressedState {
    Down,
    Up,
    /// Released since input was last handled.
    JustReleased,
}

impl Default for MousePressedState {
    fn default() -> (d: Self)
        ensures
            d == MousePressedState::Up,
    {
        MousePressedState::Up
    }
}

} // verus!
