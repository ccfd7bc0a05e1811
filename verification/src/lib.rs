//! A low-level game engine core: an entity-component schedule ([`ecs`]) plus
//! the planning half of a GPU renderer and window loop ([`graphics`]), wired
//! together by [`app::App`].
use vstd::prelude::*;

pub mod aging;
pub mod app;
pub mod assets;
pub mod ecs;
pub mod graphics;
pub mod prelude;
pub mod promises;

verus! {

} // verus!
