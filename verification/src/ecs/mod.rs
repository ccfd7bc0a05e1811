//! Systems, the order they run in, and the state they run on.
pub mod condition;
pub mod entities;
pub mod events;
pub mod function_condition;
pub mod key_map;
pub mod ordering;
pub mod receiving;
pub mod resources;
pub mod schedule;
pub mod stream;
pub mod system;
