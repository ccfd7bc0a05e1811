# pebble

The core of a low-level game engine, verified with Verus: an entity-component
schedule, and the planning half of a GPU renderer and of a window loop.

- `src/` is the library. `src/app.rs` wires everything together; `src/ecs/`
  holds systems, schedules, conditions, events, resources and streams;
  `src/graphics/` decides what is to be created, recorded and uploaded on the
  GPU, and what the window loop does next. Every executable function has its
  contract next to it, and what holds across functions is stated as public
  proof functions named `law_...`, at the end of each module.
- `app/` carries out what the library decides: `wgpu` calls, the `winit` event
  loop, files, logging, and everything in floating point.
- `tests/` runs the library.

What systems, observers, run conditions, resources and events are is up to the
application: it implements the traits of `src/ecs/system.rs` and
`src/ecs/condition.rs`, and says there what its implementations may do.
