//! A full-screen overlay for dragging out a rectangular region: the selection state
//! machine, the input translator, and the dirty-region renderer with its two
//! presentation slots. Display-session plumbing lives outside this library.
use vstd::prelude::*;

pub mod geometry;
pub mod selection;
pub mod frame;
pub mod session;
pub mod laws;
pub mod cursor;

verus! {

} // verus!
