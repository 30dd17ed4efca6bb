use vstd::prelude::*;

verus! {

/// A discrete position on a two-dimensional grid.
#[derive(Clone, Copy, Debug, PartialEq, Eq, Hash, Structural)]
pub struct Int2D {
    pub x: i32,
    pub y: i32,
}

} // verus!
