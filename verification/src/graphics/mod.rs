//! What the engine decides about GPU resources, frames and the window, apart
//! from the calls that carry it out.
use vstd::prelude::*;

pub mod input;
pub mod outside;
pub mod pipeline;
pub mod render;
pub mod types;
pub mod window;

verus! {

} // verus!
