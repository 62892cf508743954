//! Conway's Game of Life on a fixed-size toroidal grid, with a double-buffered
//! generation step whose result is stated and proved over a mathematical model.
use vstd::prelude::*;

pub mod cell;
pub mod grid;
pub mod patterns;
pub mod universe;

pub use cell::Cell;
pub use universe::{Universe, HEIGHT, WIDTH};

verus! {

/// The number of columns of the default universe.
pub fn width() -> (r: u32)
    ensures
        r == WIDTH,
{
    WIDTH
}

/// The number of rows of the default universe.
pub fn height() -> (r: u32)
    ensures
        r == HEIGHT,
{
    HEIGHT
}

} // verus!
