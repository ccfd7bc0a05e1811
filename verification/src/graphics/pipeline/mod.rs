//! GPU resources: buffers, bind groups and textures.
use vstd::prelude::*;

pub mod buffers;
pub mod mipmap;
pub mod pixels;
pub mod textures;
pub mod views;

verus! {

} // verus!
