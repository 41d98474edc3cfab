//! The logic of a jigsaw puzzle: preparing the pieces and their texture atlas,
//! and the state machines that turn pointer, key and wheel input into moves of
//! the pieces and of the camera.
use vstd::prelude::*;

pub mod atlas;
pub mod piece_list;
pub mod queue;
pub mod pointer;
pub mod pieces;
pub mod controller;
pub mod reset;
pub mod picker;
pub mod media;
pub mod config;
pub mod dom;

verus! {

} // verus!
