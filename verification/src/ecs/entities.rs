//! The entity storage, which is that of the `hecs` crate.
use vstd::prelude::*;

verus! {

/// Declares `hecs::World`, the entities and their components.
#[verifier::external_type_specification]
#[verifier::external_body]
pub struct ExWorld(hecs::World);

/// Declares `hecs::CommandBuffer`, entity commands recorded for later.
#[verifier::external_type_specification]
#[verifier::external_body]
pub struct ExCommandBuffer(hecs::CommandBuffer);

/// How many entities `world` holds.
pub uninterp spec fn entity_count(world: hecs::World) -> nat;

/// How many commands are recorded in `commands`.
pub uninterp spec fn recorded_commands(commands: hecs::CommandBuffer) -> nat;

/// Running the commands recorded in `commands` ends without a panic, as long as
/// memory and entity numbers last: no function is queued that panics or does
/// not end, and no entity is given two components of one type at once.
pub uninterp spec fn commands_runnable(commands: hecs::CommandBuffer) -> bool;

/// `after` is what running the commands recorded in `commands` makes of
/// `before`. A recorded command may be a function of the application, so this
/// is a relation: one `before` may have several outcomes.
pub uninterp spec fn commands_applied(
    before: hecs::World,
    commands: hecs::CommandBuffer,
    after: hecs::World,
) -> bool;

/// `hecs::World::new`: a world without entities.
pub assume_specification[ hecs::World::new ]() -> (world: hecs::World)
    ensures
        entity_count(world) == 0,
;

/// `hecs::CommandBuffer::new`: a buffer in which nothing is recorded.
pub assume_specification[ hecs::CommandBuffer::new ]() -> (commands: hecs::CommandBuffer)
    ensures
        recorded_commands(commands) == 0,
        commands_runnable(commands),
;

/// `hecs::CommandBuffer::run_on`: runs the recorded commands on the world
/// and leaves the buffer empty. Without recorded commands the world stays as
/// it was. A recorded command may panic: that is left out here.
pub assume_specification[ hecs::CommandBuffer::run_on ](
    commands: &mut hecs::CommandBuffer,
    world: &mut hecs::World,
)
    requires
        commands_runnable(*old(commands)),
    ensures
        commands_applied(*old(world), *old(commands), *final(world)),
        recorded_commands(*old(commands)) == 0 ==> *final(world) == *old(world),
        recorded_commands(*final(commands)) == 0,
        commands_runnable(*final(commands)),
;

} // verus!
