//! What almost every application names, in one import. Every item here is
//! re-exported from its own module.
use vstd::prelude::*;

pub use hecs::Entity;

pub use crate::app::{App, AppExit, AppHandle, BackendReady, Plugin};
pub use crate::assets::Handle;
pub use crate::ecs::condition::{not, resource_exists, ConditionExt};
pub use crate::ecs::events::Events;
pub use crate::ecs::function_condition::{Local, SystemParam};
pub use crate::ecs::resources::Resources;
pub use crate::ecs::stream::{Emitter, Stream, StreamState};
pub use crate::ecs::system::SystemStage;
pub use crate::graphics::window::{Input, Redraw, RedrawPolicy, WindowConfig, WindowPlugin};

verus! {

} // verus!
