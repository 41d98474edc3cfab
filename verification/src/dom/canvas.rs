//! The canvas that the puzzle is drawn on.
use vstd::prelude::*;

verus! {

/// The canvas element of the page; it holds no state of its own.
pub struct Canvas {}

} // verus!
