//! Recording a frame, and timing its passes.
use vstd::prelude::*;

pub mod frame;
pub mod timestamps;

verus! {

} // verus!
