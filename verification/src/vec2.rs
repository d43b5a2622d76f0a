use vstd::prelude::*;

verus! {

/// A pair of coordinates on the screen or in the world.
#[derive(Clone, Copy, Debug, PartialEq, Eq)]
pub struct Vec2<T> {
    pub x: T,
    pub y: T,
}

} // verus!
