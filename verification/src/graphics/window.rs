//! The window: its configuration, and the loop that drives the application.
//!
//! The loop is paced by redraws, not by iterations: every other event is
//! buffered and replayed into the input as one step right before the
//! application ticks, so that what changed spans exactly one displayed frame.
use vstd::prelude::*;

use winit::event::{DeviceEvent, WindowEvent};

use crate::app;
use crate::app::{App, AppView, Delivery, Plugin};
use crate::ecs::condition::ConditionSystem;
use crate::ecs::resources::Resource;
use crate::ecs::system::{ObserverSystem, System, TypeKey};
use crate::graphics::input;
use crate::graphics::outside::{FrameOutside, LoopAct};

pub use crate::graphics::input::Input;

verus! {

/// How the loop decides whether to draw another frame.
#[derive(Clone, Copy, PartialEq, Eq, Structural, Debug)]
pub enum RedrawPolicy {
    /// Redraw every frame, forever.
    Continuous,
    /// Redraw only when input arrives or something asks via [`Redraw`].
    /// Anything that animates, polls or waits has to ask for each frame that
    /// it needs.
    OnDemand,
}

impl Default for RedrawPolicy {
    fn default() -> (policy: Self)
        ensures
            policy == RedrawPolicy::Continuous,
    {
        RedrawPolicy::Continuous
    }
}

/// Asks the loop for another frame under [`RedrawPolicy::OnDemand`]. The
/// request is consumed once the frame that it asked for begins. `W` is the
/// handle to the window.
pub struct Redraw<W> {
    pub wanted: bool,
    /// The window to poke, once one exists: a request that arrives while the
    /// loop is asleep has to wake it.
    pub window: Option<W>,
}

impl<W> Default for Redraw<W> {
    fn default() -> (redraw: Self)
        ensures
            redraw == (Redraw::<W> { wanted: false, window: None }),
    {
        Self::new()
    }
}

impl<W> Redraw<W> {
    /// A frame asked for.
    pub open spec fn requested(self) -> Self {
        Redraw { wanted: true, ..self }
    }

    /// The request consumed.
    pub open spec fn taken(self) -> Self {
        Redraw { wanted: false, ..self }
    }

    /// No request, and no window yet.
    pub fn new() -> (redraw: Self)
        ensures
            redraw == (Redraw::<W> { wanted: false, window: None }),
    {
        Redraw { wanted: false, window: None }
    }

    /// Asks for one more frame. Returns the window that has to be asked for a
    /// redraw, so that the loop wakes if it is asleep.
    pub fn request(&mut self) -> (window: Option<&W>)
        ensures
            *final(self) == old(self).requested(),
            match window {
                Some(poked) => old(self).window == Some(*poked),
                None => old(self).window is None,
            },
    {
        self.wanted = true;
        self.window.as_ref()
    }

    /// From here on a request can wake the loop.
    pub fn attach(&mut self, window: W)
        ensures
            *final(self) == (Redraw { window: Some(window), ..*old(self) }),
    {
        self.window = Some(window);
    }

    /// Whether a frame was asked for; the request is consumed.
    pub fn take(&mut self) -> (wanted: bool)
        ensures
            wanted == old(self).wanted,
            *final(self) == old(self).taken(),
    {
        let wanted = self.wanted;
        self.wanted = false;
        wanted
    }
}

/// The window at first. `D` is a shared handle to a [`Redraw`], `K` a canvas
/// that a host owns.
pub struct WindowConfig<D, K> {
    pub title: String,
    pub width: u32,
    pub height: u32,
    pub redraw_policy: RedrawPolicy,
    /// The handle that the loop should use, when the caller needs one before
    /// the application starts.
    pub redraw: Option<D>,
    /// The canvas to render into, in place of one that is created.
    pub canvas: Option<K>,
    /// Whether events on the canvas keep their side effects from the page.
    pub prevent_default: bool,
    /// Whether the canvas can have the keyboard focus.
    pub focusable: bool,
}

impl<D, K> Default for WindowConfig<D, K> {
    fn default() -> (config: Self)
        ensures
            config.title@ == "Pebble"@,
            config.width == 1280,
            config.height == 720,
            config.redraw_policy == RedrawPolicy::Continuous,
            config.redraw is None,
            config.canvas is None,
            config.prevent_default,
            config.focusable,
    {
        WindowConfig {
            title: "Pebble".to_string(),
            width: 1280,
            height: 720,
            redraw_policy: RedrawPolicy::default(),
            redraw: None,
            canvas: None,
            prevent_default: true,
            focusable: true,
        }
    }
}

impl<D, K> WindowConfig<D, K> {
    /// Render into a canvas that the host owns: it stays where the host put
    /// it, and obeys the host's layout.
    pub fn with_canvas(self, canvas: K) -> (config: Self)
        ensures
            config == (WindowConfig { canvas: Some(canvas), ..self }),
    {
        WindowConfig { canvas: Some(canvas), ..self }
    }
}

/// A window to be created.
pub struct WindowRequest<K> {
    pub title: String,
    /// The size to ask for, if it is ours to choose.
    pub inner_size: Option<(u32, u32)>,
    /// Whether a canvas is to be created and put into the page.
    pub append: bool,
    pub canvas: Option<K>,
    pub prevent_default: bool,
    pub focusable: bool,
}

/// The window that a configuration asks for. A host's canvas is laid out by
/// the host, so no size is asked for, and it is in the page already.
pub open spec fn request_for<D, K>(config: WindowConfig<D, K>) -> WindowRequest<K> {
    WindowRequest {
        title: config.title,
        inner_size: if config.canvas is None {
            Some((config.width, config.height))
        } else {
            None
        },
        append: config.canvas is None,
        canvas: config.canvas,
        prevent_default: config.prevent_default,
        focusable: config.focusable,
    }
}

/// What the loop has to do after an event.
#[derive(Clone, Copy, PartialEq, Eq, Structural, Debug)]
pub enum WindowAction {
    /// Nothing: without a redraw asked for, the loop sleeps.
    Sleep,
    /// Ask the window for a redraw.
    RequestRedraw,
    /// Leave the loop.
    Exit,
}

/// A window event, as far as the loop tells them apart.
pub enum LoopEvent {
    CloseRequested,
    RedrawRequested,
    Other(WindowEvent),
}

/// How the loop sees a window event.
pub uninterp spec fn loop_event(event: WindowEvent) -> LoopEvent;

/// Tells the variants of `winit::event::WindowEvent` apart that matter to the
/// loop; any other event is kept as it is.
#[verifier::external_body]
fn sort_event(event: WindowEvent) -> (sorted: LoopEvent)
    ensures
        sorted == loop_event(event),
        sorted matches LoopEvent::Other(kept) ==> kept == event,
{
    match event {
        WindowEvent::CloseRequested => LoopEvent::CloseRequested,
        WindowEvent::RedrawRequested => LoopEvent::RedrawRequested,
        other => LoopEvent::Other(other),
    }
}

/// Another frame follows one that began with the backend ready or not, when
/// one was asked for or not.
pub open spec fn frame_follows(policy: RedrawPolicy, was_ready: bool, wanted: bool) -> bool {
    policy == RedrawPolicy::Continuous || !was_ready || wanted
}

/// What follows an event that was buffered: on demand, the redraw that will
/// consume it has to be asked for.
pub open spec fn wake_action(policy: RedrawPolicy, has_window: bool) -> WindowAction {
    if policy == RedrawPolicy::OnDemand && has_window {
        WindowAction::RequestRedraw
    } else {
        WindowAction::Sleep
    }
}

/// Drives an application from window events. `W` is the handle to the window,
/// `D` a shared handle to a [`Redraw`], `K` a canvas that a host owns.
///
/// The window can only be created once the event loop runs, so the
/// configuration is consumed there; after that the loop has its window.
#[verifier::reject_recursive_types(V)]
pub struct WinitApp<V, O, S, C, R, W, D, K> {
    pub config: Option<WindowConfig<D, K>>,
    pub app: App<V, O, S, C, R>,
    pub window: Option<W>,
    pub pending_window_events: Vec<WindowEvent>,
    pub pending_device_events: Vec<DeviceEvent>,
    pub redraw: D,
    pub redraw_policy: RedrawPolicy,
}

/// What a frame does outside of the application: before the update a request
/// for the frame is consumed and the buffered events are fed; after it, when
/// the application is `updated`, requests made meanwhile are taken.
pub open spec fn frame_acts<V, O, S, C, R, W, D, K>(
    before: WinitApp<V, O, S, C, R, W, D, K>,
    asked: bool,
    wanted: bool,
    updated: AppView<V, O, S, C, R>,
) -> Seq<LoopAct<V, O, S, C, R>> where
    O: ObserverSystem<V>,
    S: System<V, O>,
    C: ConditionSystem<V, O>,
 {
    seq![
        LoopAct::Took { wanted: asked, app: before.app@ },
        LoopAct::Fed {
            window_events: before.pending_window_events@,
            device_events: before.pending_device_events@,
            app: before.app@,
        },
        LoopAct::Took { wanted, app: updated },
    ]
}

/// Every one of these events can be taken in.
pub open spec fn all_acceptable(events: Seq<WindowEvent>) -> bool {
    forall|i: int| 0 <= i < events.len() ==> input::is_acceptable(#[trigger] events[i])
}

impl<
    V,
    O: ObserverSystem<V>,
    S: System<V, O>,
    C: ConditionSystem<V, O>,
    R,
    W,
    D,
    K,
> WinitApp<V, O, S, C, R, W, D, K> {
    /// The application is well-formed, and every buffered event can be taken
    /// in.
    pub open spec fn wf(&self) -> bool {
        self.app.wf() && all_acceptable(self.pending_window_events@)
    }

    /// A loop that has not begun.
    pub fn new(config: WindowConfig<D, K>, app: App<V, O, S, C, R>, redraw: D) -> (handler: Self)
        requires
            app.wf(),
        ensures
            handler.wf(),
            handler.config == Some(config),
            handler.app == app,
            handler.window is None,
            handler.pending_window_events@ == Seq::<WindowEvent>::empty(),
            handler.pending_device_events@ == Seq::<DeviceEvent>::empty(),
            handler.redraw == redraw,
            handler.redraw_policy == RedrawPolicy::Continuous,
    {
        WinitApp {
            config: Some(config),
            app,
            window: None,
            pending_window_events: Vec::new(),
            pending_device_events: Vec::new(),
            redraw,
            redraw_policy: RedrawPolicy::default(),
        }
    }

    /// The event loop runs: the window to create. `None` if it was asked for
    /// before. The redraw policy and the caller's redraw handle are adopted
    /// first, so that the window will be attached to the handle that the
    /// caller holds.
    pub fn resumed(&mut self) -> (request: Option<WindowRequest<K>>)
        requires
            old(self).wf(),
        ensures
            final(self).wf(),
            match old(self).config {
                Some(config) => {
                    &&& request == Some(request_for(config))
                    &&& final(self).config is None
                    &&& final(self).redraw_policy == config.redraw_policy
                    &&& final(self).redraw == (match config.redraw {
                        Some(redraw) => redraw,
                        None => old(self).redraw,
                    })
                },
                None => {
                    &&& request is None
                    &&& final(self).config is None
                    &&& final(self).redraw_policy == old(self).redraw_policy
                    &&& final(self).redraw == old(self).redraw
                },
            },
            final(self).app == old(self).app,
            final(self).window == old(self).window,
            final(self).pending_window_events == old(self).pending_window_events,
            final(self).pending_device_events == old(self).pending_device_events,
    {
        let config = match self.config.take() {
            Some(config) => config,
            None => {
                return None;
            },
        };
        self.redraw_policy = config.redraw_policy;
        match config.redraw {
            Some(redraw) => {
                self.redraw = redraw;
            },
            None => {},
        }
        let size_is_ours = config.canvas.is_none();
        Some(
            WindowRequest {
                title: config.title,
                inner_size: if size_is_ours {
                    Some((config.width, config.height))
                } else {
                    None
                },
                append: size_is_ours,
                canvas: config.canvas,
                prevent_default: config.prevent_default,
                focusable: config.focusable,
            },
        )
    }

    /// The window has been created: it is attached to the redraw handle, the
    /// application gets its resources, and the first frame has to be asked
    /// for, since nothing else will ask for one.
    pub fn window_created<F: FnOnce(&D, &W)>(
        &mut self,
        window: W,
        attach: F,
        window_resource: Resource<V>,
        input_resource: Resource<V>,
        redraw_resource: Resource<V>,
    ) -> (action: WindowAction)
        requires
            old(self).wf(),
            call_requires(attach, (&old(self).redraw, &window)),
        ensures
            final(self).wf(),
            call_ensures(attach, (&old(self).redraw, &window), ()),
            final(self).window == Some(window),
            final(self).app@ == old(self).app@.with_resources(
                old(self).app@.state.resources.insert(window_resource).insert(
                    input_resource,
                ).insert(redraw_resource),
            ),
            final(self).config == old(self).config,
            final(self).redraw == old(self).redraw,
            final(self).redraw_policy == old(self).redraw_policy,
            final(self).pending_window_events == old(self).pending_window_events,
            final(self).pending_device_events == old(self).pending_device_events,
            action == WindowAction::RequestRedraw,
    {
        attach(&self.redraw, &window);
        self.window = Some(window);
        let resources = self.app.resources_mut();
        resources.insert(window_resource);
        resources.insert(input_resource);
        resources.insert(redraw_resource);
        WindowAction::RequestRedraw
    }

    /// Wakes the loop for an event that arrived while it was idle.
    fn wake(&self) -> (action: WindowAction)
        ensures
            action == wake_action(self.redraw_policy, self.window is Some),
    {
        if self.redraw_policy == RedrawPolicy::OnDemand && self.window.is_some() {
            WindowAction::RequestRedraw
        } else {
            WindowAction::Sleep
        }
    }

    /// What a frame does outside of the application can be done, in this state
    /// of the loop.
    pub open spec fn can_draw<
        G: FnOnce(&D) -> bool,
        F: FnOnce(Vec<WindowEvent>, Vec<DeviceEvent>),
        H: FnOnce(&D) -> bool,
    >(self, outside: FrameOutside<V, O, S, C, R, G, F, H>) -> bool {
        &&& outside.begin() is Some
        &&& call_requires(outside.begin()->Some_0, (&self.redraw,))
        &&& outside.feed() is Some
        &&& call_requires(
            outside.feed()->Some_0,
            (self.pending_window_events, self.pending_device_events),
        )
        &&& outside.end() is Some
        &&& call_requires(outside.end()->Some_0, (&self.redraw,))
    }

    /// What the loop did on `event`, and what it has to do next; `outside` is
    /// the outside of a frame before, `done` after that.
    ///
    /// On a redraw a request for this frame is consumed, and the buffered
    /// events are fed into the input, all of them and in order; then the
    /// application is updated, once; then another frame follows as
    /// [`frame_follows`] says, with the readiness as it was before the update
    /// and with requests that were made during it. Only closing the window
    /// ends the loop.
    pub open spec fn handled<
        G: FnOnce(&D) -> bool,
        F: FnOnce(Vec<WindowEvent>, Vec<DeviceEvent>),
        H: FnOnce(&D) -> bool,
    >(
        before: Self,
        event: LoopEvent,
        outside: FrameOutside<V, O, S, C, R, G, F, H>,
        after: Self,
        done: FrameOutside<V, O, S, C, R, G, F, H>,
        action: WindowAction,
    ) -> bool {
        &&& after.config == before.config
        &&& after.window == before.window
        &&& after.redraw == before.redraw
        &&& after.redraw_policy == before.redraw_policy
        &&& match event {
            LoopEvent::CloseRequested => {
                &&& action == WindowAction::Exit
                &&& after.app == before.app
                &&& after.pending_window_events == before.pending_window_events
                &&& after.pending_device_events == before.pending_device_events
                &&& done == outside
            },
            LoopEvent::RedrawRequested => {
                &&& after.pending_window_events@ == Seq::<WindowEvent>::empty()
                &&& after.pending_device_events@ == Seq::<DeviceEvent>::empty()
                &&& call_ensures(
                    outside.feed()->Some_0,
                    (before.pending_window_events, before.pending_device_events),
                    (),
                )
                &&& exists|deliveries: Seq<Delivery<V>>| #[trigger]
                    app::updated(before.app@, deliveries, after.app@)
                &&& exists|asked: bool, wanted: bool|
                    {
                        &&& #[trigger] call_ensures(
                            outside.begin()->Some_0,
                            (&before.redraw,),
                            asked,
                        )
                        &&& #[trigger] call_ensures(
                            outside.end()->Some_0,
                            (&before.redraw,),
                            wanted,
                        )
                        &&& done.done() == outside.done() + frame_acts(
                            before,
                            asked,
                            wanted,
                            after.app@,
                        )
                        &&& action == (if frame_follows(
                            before.redraw_policy,
                            before.app@.state.resources.backend_ready,
                            wanted,
                        ) {
                            WindowAction::RequestRedraw
                        } else {
                            WindowAction::Sleep
                        })
                    }
            },
            LoopEvent::Other(buffered) => {
                &&& after.app == before.app
                &&& after.pending_window_events@ == before.pending_window_events@.push(buffered)
                &&& after.pending_device_events == before.pending_device_events
                &&& done == outside
                &&& action == wake_action(before.redraw_policy, before.window is Some)
            },
        }
    }

    /// Handles an event of the loop. `outside` is what a frame does outside of
    /// the application, if the event begins one.
    pub fn handle_event<
        G: FnOnce(&D) -> bool,
        F: FnOnce(Vec<WindowEvent>, Vec<DeviceEvent>),
        H: FnOnce(&D) -> bool,
    >(&mut self, event: LoopEvent, outside: &mut FrameOutside<V, O, S, C, R, G, F, H>) -> (action:
        WindowAction)
        requires
            old(self).wf(),
            event is RedrawRequested ==> app::can_tick(old(self).app@),
            event is RedrawRequested ==> old(self).can_draw(*old(outside)),
            event matches LoopEvent::Other(other) ==> input::is_acceptable(other),
        ensures
            final(self).wf(),
            Self::handled(*old(self), event, *old(outside), *final(self), *final(outside), action),
            app::orderable(old(self).app@) ==> app::orderable(final(self).app@),
    {
        match event {
            LoopEvent::CloseRequested => WindowAction::Exit,
            LoopEvent::RedrawRequested => {
                let mut window_events: Vec<WindowEvent> = Vec::new();
                let mut device_events: Vec<DeviceEvent> = Vec::new();
                core::mem::swap(&mut self.pending_window_events, &mut window_events);
                core::mem::swap(&mut self.pending_device_events, &mut device_events);
                let asked = outside.take_for_this_frame(&self.redraw, &self.app);
                outside.feed_input(window_events, device_events, &self.app);
                let was_ready = self.app.backend_ready();
                self.app.update();
                let wanted = outside.take_for_the_next_frame(&self.redraw, &self.app);
                assert(outside.done() =~= old(outside).done() + frame_acts(
                    *old(self),
                    asked,
                    wanted,
                    self.app@,
                ));
                if self.redraw_policy == RedrawPolicy::Continuous || !was_ready || wanted {
                    WindowAction::RequestRedraw
                } else {
                    WindowAction::Sleep
                }
            },
            LoopEvent::Other(other) => {
                self.pending_window_events.push(other);
                self.wake()
            },
        }
    }

    /// Handles a window event. `outside` is what a frame does outside of the
    /// application, if the event begins one.
    pub fn window_event<
        G: FnOnce(&D) -> bool,
        F: FnOnce(Vec<WindowEvent>, Vec<DeviceEvent>),
        H: FnOnce(&D) -> bool,
    >(&mut self, event: WindowEvent, outside: &mut FrameOutside<V, O, S, C, R, G, F, H>) -> (
        action: WindowAction)
        requires
            old(self).wf(),
            loop_event(event) is RedrawRequested ==> app::can_tick(old(self).app@),
            loop_event(event) is RedrawRequested ==> old(self).can_draw(*old(outside)),
            input::is_acceptable(event),
        ensures
            final(self).wf(),
            Self::handled(
                *old(self),
                loop_event(event),
                *old(outside),
                *final(self),
                *final(outside),
                action,
            ),
            loop_event(event) matches LoopEvent::Other(kept) ==> kept == event,
            app::orderable(old(self).app@) ==> app::orderable(final(self).app@),
    {
        self.handle_event(sort_event(event), outside)
    }

    /// Handles a device event: it is buffered.
    pub fn device_event(&mut self, event: DeviceEvent) -> (action: WindowAction)
        requires
            old(self).wf(),
        ensures
            final(self).wf(),
            final(self).pending_device_events@ == old(self).pending_device_events@.push(event),
            final(self).pending_window_events == old(self).pending_window_events,
            final(self).app == old(self).app,
            final(self).config == old(self).config,
            final(self).window == old(self).window,
            final(self).redraw == old(self).redraw,
            final(self).redraw_policy == old(self).redraw_policy,
            action == wake_action(old(self).redraw_policy, old(self).window is Some),
    {
        self.pending_device_events.push(event);
        self.wake()
    }
}

/// Drives the main loop from a window's events. The event loop is created
/// when this runs, not when the application is assembled: there is only one
/// per process.
pub struct WindowRunner<D, K> {
    pub config: WindowConfig<D, K>,
}

/// Makes an application run in a window.
pub struct WindowPlugin<D, K> {
    pub config: WindowConfig<D, K>,
}

impl<D, K> WindowPlugin<D, K> {
    pub fn new(config: WindowConfig<D, K>) -> (plugin: Self)
        ensures
            plugin.config == config,
    {
        WindowPlugin { config }
    }
}

impl<D, K> Default for WindowPlugin<D, K> {
    fn default() -> (plugin: Self)
        ensures
            plugin.config.title@ == "Pebble"@,
            plugin.config.width == 1280,
            plugin.config.height == 720,
            plugin.config.redraw_policy == RedrawPolicy::Continuous,
            plugin.config.redraw is None,
            plugin.config.canvas is None,
            plugin.config.prevent_default,
            plugin.config.focusable,
    {
        Self::new(WindowConfig::default())
    }
}

impl<V, O: ObserverSystem<V>, S: System<V, O>, C: ConditionSystem<V, O>, D, K> Plugin<
    V,
    O,
    S,
    C,
    WindowRunner<D, K>,
> for WindowPlugin<D, K> {
    /// The runner is set, and nothing else changes.
    open spec fn builds(
        self,
        before: AppView<V, O, S, C, WindowRunner<D, K>>,
        after: AppView<V, O, S, C, WindowRunner<D, K>>,
    ) -> bool {
        after == AppView { runner: Some(WindowRunner { config: self.config }), ..before }
    }

    fn build(self, app: App<V, O, S, C, WindowRunner<D, K>>) -> (built: App<
        V,
        O,
        S,
        C,
        WindowRunner<D, K>,
    >) {
        app.set_runner(WindowRunner { config: self.config })
    }
}

// ---------------------------------------------------------------------------
// Laws
// ---------------------------------------------------------------------------

/// A request for a frame is consumed by the frame that it asked for: however
/// often it was made, it is there to be taken once.
pub proof fn law_a_request_is_consumed_once<W>(redraw: Redraw<W>)
    ensures
        redraw.requested().wanted,
        redraw.requested().requested() == redraw.requested(),
        !redraw.requested().taken().wanted,
        redraw.requested().taken().window == redraw.window,
{
}

/// On demand the loop goes to sleep after a frame only if the backend was
/// ready when the frame began and nothing asked for another meanwhile. It never
/// sleeps under the continuous policy.
pub proof fn law_the_loop_sleeps_only_when_nothing_is_wanted<
    V,
    O: ObserverSystem<V>,
    S: System<V, O>,
    C: ConditionSystem<V, O>,
    R,
    W,
    D,
    K,
    G: FnOnce(&D) -> bool,
    F: FnOnce(Vec<WindowEvent>, Vec<DeviceEvent>),
    H: FnOnce(&D) -> bool,
>(
    before: WinitApp<V, O, S, C, R, W, D, K>,
    outside: FrameOutside<V, O, S, C, R, G, F, H>,
    after: WinitApp<V, O, S, C, R, W, D, K>,
    done: FrameOutside<V, O, S, C, R, G, F, H>,
)
    requires
        WinitApp::<V, O, S, C, R, W, D, K>::handled(
            before,
            LoopEvent::RedrawRequested,
            outside,
            after,
            done,
            WindowAction::Sleep,
        ),
    ensures
        before.redraw_policy == RedrawPolicy::OnDemand,
        before.app@.state.resources.backend_ready,
        done.done().last() == (LoopAct::<V, O, S, C, R>::Took {
            wanted: false,
            app: after.app@,
        }),
{
}

/// One request gives one frame: it is consumed before the update of the frame
/// that it asked for, so that a ready application on demand gets another frame
/// exactly if something asked for one after that.
pub proof fn law_a_request_gives_one_frame<
    V,
    O: ObserverSystem<V>,
    S: System<V, O>,
    C: ConditionSystem<V, O>,
    R,
    W,
    D,
    K,
    G: FnOnce(&D) -> bool,
    F: FnOnce(Vec<WindowEvent>, Vec<DeviceEvent>),
    H: FnOnce(&D) -> bool,
>(
    before: WinitApp<V, O, S, C, R, W, D, K>,
    outside: FrameOutside<V, O, S, C, R, G, F, H>,
    after: WinitApp<V, O, S, C, R, W, D, K>,
    done: FrameOutside<V, O, S, C, R, G, F, H>,
    action: WindowAction,
)
    requires
        WinitApp::<V, O, S, C, R, W, D, K>::handled(
            before,
            LoopEvent::RedrawRequested,
            outside,
            after,
            done,
            action,
        ),
        before.redraw_policy == RedrawPolicy::OnDemand,
        before.app@.state.resources.backend_ready,
    ensures
        exists|asked: bool, wanted: bool|
            {
                &&& done.done() == outside.done() + #[trigger] frame_acts(
                    before,
                    asked,
                    wanted,
                    after.app@,
                )
                &&& action == (if wanted {
                    WindowAction::RequestRedraw
                } else {
                    WindowAction::Sleep
                })
            },
{
}

/// The events that were buffered reach the input before the application is
/// updated, all of them, once and in order, and nothing is fed later.
pub proof fn law_the_input_is_fed_before_the_update<
    V,
    O: ObserverSystem<V>,
    S: System<V, O>,
    C: ConditionSystem<V, O>,
    R,
    W,
    D,
    K,
    G: FnOnce(&D) -> bool,
    F: FnOnce(Vec<WindowEvent>, Vec<DeviceEvent>),
    H: FnOnce(&D) -> bool,
>(
    before: WinitApp<V, O, S, C, R, W, D, K>,
    outside: FrameOutside<V, O, S, C, R, G, F, H>,
    after: WinitApp<V, O, S, C, R, W, D, K>,
    done: FrameOutside<V, O, S, C, R, G, F, H>,
    action: WindowAction,
)
    requires
        WinitApp::<V, O, S, C, R, W, D, K>::handled(
            before,
            LoopEvent::RedrawRequested,
            outside,
            after,
            done,
            action,
        ),
    ensures
        done.done().len() == outside.done().len() + 3,
        done.done()[outside.done().len() as int + 1] == (LoopAct::Fed {
            window_events: before.pending_window_events@,
            device_events: before.pending_device_events@,
            app: before.app@,
        }),
        !(done.done()[outside.done().len() as int] is Fed),
        !(done.done()[outside.done().len() as int + 2] is Fed),
        after.pending_window_events@.len() == 0,
        after.pending_device_events@.len() == 0,
{
}

/// Only closing the window ends the loop, whatever the application asks for.
pub proof fn law_only_closing_ends_the_loop<
    V,
    O: ObserverSystem<V>,
    S: System<V, O>,
    C: ConditionSystem<V, O>,
    R,
    W,
    D,
    K,
    G: FnOnce(&D) -> bool,
    F: FnOnce(Vec<WindowEvent>, Vec<DeviceEvent>),
    H: FnOnce(&D) -> bool,
>(
    before: WinitApp<V, O, S, C, R, W, D, K>,
    event: LoopEvent,
    outside: FrameOutside<V, O, S, C, R, G, F, H>,
    after: WinitApp<V, O, S, C, R, W, D, K>,
    done: FrameOutside<V, O, S, C, R, G, F, H>,
    action: WindowAction,
)
    requires
        WinitApp::<V, O, S, C, R, W, D, K>::handled(before, event, outside, after, done, action),
    ensures
        action == WindowAction::Exit <==> event is CloseRequested,
{
}

/// On demand, once there is a window, every event that is buffered asks for
/// the redraw that will consume it.
pub proof fn law_a_buffered_event_wakes_the_loop<
    V,
    O: ObserverSystem<V>,
    S: System<V, O>,
    C: ConditionSystem<V, O>,
    R,
    W,
    D,
    K,
    G: FnOnce(&D) -> bool,
    F: FnOnce(Vec<WindowEvent>, Vec<DeviceEvent>),
    H: FnOnce(&D) -> bool,
>(
    before: WinitApp<V, O, S, C, R, W, D, K>,
    event: WindowEvent,
    outside: FrameOutside<V, O, S, C, R, G, F, H>,
    after: WinitApp<V, O, S, C, R, W, D, K>,
    done: FrameOutside<V, O, S, C, R, G, F, H>,
    action: WindowAction,
)
    requires
        WinitApp::<V, O, S, C, R, W, D, K>::handled(
            before,
            LoopEvent::Other(event),
            outside,
            after,
            done,
            action,
        ),
        before.redraw_policy == RedrawPolicy::OnDemand,
        before.window is Some,
    ensures
        action == WindowAction::RequestRedraw,
        after.pending_window_events@.last() == event,
{
}

/// A host's canvas keeps the size and the place that the host gave it.
pub proof fn law_a_host_canvas_is_left_alone<D, K>(config: WindowConfig<D, K>)
    ensures
        config.canvas is Some <==> request_for(config).inner_size is None,
        config.canvas is Some <==> !request_for(config).append,
        request_for(config).canvas == config.canvas,
{
}

/// A redraw is one frame: a request for it is taken first; then the buffered
/// events are fed, all of them, in order and once, and none stays buffered;
/// then the application is updated, once; then the request for the next frame
/// is taken. Another redraw is asked for exactly if the policy is continuous,
/// the backend was not ready before the update, or a frame was asked for since
/// the first taking.
pub proof fn law_a_redraw_is_one_frame<
    V,
    O: ObserverSystem<V>,
    S: System<V, O>,
    C: ConditionSystem<V, O>,
    R,
    W,
    D,
    K,
    G: FnOnce(&D) -> bool,
    F: FnOnce(Vec<WindowEvent>, Vec<DeviceEvent>),
    H: FnOnce(&D) -> bool,
>(
    before: WinitApp<V, O, S, C, R, W, D, K>,
    outside: FrameOutside<V, O, S, C, R, G, F, H>,
    after: WinitApp<V, O, S, C, R, W, D, K>,
    done: FrameOutside<V, O, S, C, R, G, F, H>,
    action: WindowAction,
)
    requires
        WinitApp::<V, O, S, C, R, W, D, K>::handled(
            before,
            LoopEvent::RedrawRequested,
            outside,
            after,
            done,
            action,
        ),
    ensures
        exists|asked: bool, wanted: bool|
            {
                &&& #[trigger] call_ensures(
                    outside.begin()->Some_0,
                    (&before.redraw,),
                    asked,
                )
                &&& #[trigger] call_ensures(outside.end()->Some_0, (&before.redraw,), wanted)
                &&& done.done() == outside.done().push(
                    LoopAct::Took { wanted: asked, app: before.app@ },
                ).push(
                    LoopAct::Fed {
                        window_events: before.pending_window_events@,
                        device_events: before.pending_device_events@,
                        app: before.app@,
                    },
                ).push(LoopAct::Took { wanted, app: after.app@ })
                &&& action == WindowAction::RequestRedraw <==> {
                    ||| before.redraw_policy == RedrawPolicy::Continuous
                    ||| !before.app@.state.resources.backend_ready
                    ||| wanted
                }
                &&& action == WindowAction::RequestRedraw || action == WindowAction::Sleep
            },
        call_ensures(
            outside.feed()->Some_0,
            (before.pending_window_events, before.pending_device_events),
            (),
        ),
        exists|deliveries: Seq<Delivery<V>>| #[trigger]
            app::updated(before.app@, deliveries, after.app@),
        after.pending_window_events@.len() == 0,
        after.pending_device_events@.len() == 0,
        after.config == before.config,
        after.window == before.window,
        after.redraw == before.redraw,
        after.redraw_policy == before.redraw_policy,
{
    let (asked, wanted) = choose|asked: bool, wanted: bool|
        {
            &&& #[trigger] call_ensures(outside.begin()->Some_0, (&before.redraw,), asked)
            &&& #[trigger] call_ensures(outside.end()->Some_0, (&before.redraw,), wanted)
            &&& done.done() == outside.done() + frame_acts(before, asked, wanted, after.app@)
            &&& action == (if frame_follows(
                before.redraw_policy,
                before.app@.state.resources.backend_ready,
                wanted,
            ) {
                WindowAction::RequestRedraw
            } else {
                WindowAction::Sleep
            })
        };
    assert(done.done() =~= outside.done().push(
        LoopAct::Took { wanted: asked, app: before.app@ },
    ).push(
        LoopAct::Fed {
            window_events: before.pending_window_events@,
            device_events: before.pending_device_events@,
            app: before.app@,
        },
    ).push(LoopAct::Took { wanted, app: after.app@ }));
}

/// Any other event waits behind those that wait already, and changes nothing
/// else: no frame begins, nothing is fed or taken, the application does not
/// tick. On demand a redraw is asked for if there is a window, else nothing
/// is.
pub proof fn law_other_events_wait_for_the_redraw<
    V,
    O: ObserverSystem<V>,
    S: System<V, O>,
    C: ConditionSystem<V, O>,
    R,
    W,
    D,
    K,
    G: FnOnce(&D) -> bool,
    F: FnOnce(Vec<WindowEvent>, Vec<DeviceEvent>),
    H: FnOnce(&D) -> bool,
>(
    before: WinitApp<V, O, S, C, R, W, D, K>,
    event: WindowEvent,
    outside: FrameOutside<V, O, S, C, R, G, F, H>,
    after: WinitApp<V, O, S, C, R, W, D, K>,
    done: FrameOutside<V, O, S, C, R, G, F, H>,
    action: WindowAction,
)
    requires
        WinitApp::<V, O, S, C, R, W, D, K>::handled(
            before,
            LoopEvent::Other(event),
            outside,
            after,
            done,
            action,
        ),
    ensures
        after.pending_window_events@.len() == before.pending_window_events@.len() + 1,
        after.pending_window_events@.drop_last() == before.pending_window_events@,
        after.pending_window_events@.last() == event,
        after.pending_device_events@ == before.pending_device_events@,
        after.app == before.app,
        after.config == before.config,
        after.window == before.window,
        after.redraw == before.redraw,
        after.redraw_policy == before.redraw_policy,
        done == outside,
        action == WindowAction::RequestRedraw <==> before.redraw_policy == RedrawPolicy::OnDemand
            && before.window is Some,
        action != WindowAction::RequestRedraw ==> action == WindowAction::Sleep,
{
    assert(after.pending_window_events@.drop_last() =~= before.pending_window_events@);
}

/// Closing the window ends the loop at once and changes nothing.
pub proof fn law_closing_changes_nothing<
    V,
    O: ObserverSystem<V>,
    S: System<V, O>,
    C: ConditionSystem<V, O>,
    R,
    W,
    D,
    K,
    G: FnOnce(&D) -> bool,
    F: FnOnce(Vec<WindowEvent>, Vec<DeviceEvent>),
    H: FnOnce(&D) -> bool,
>(
    before: WinitApp<V, O, S, C, R, W, D, K>,
    outside: FrameOutside<V, O, S, C, R, G, F, H>,
    after: WinitApp<V, O, S, C, R, W, D, K>,
    done: FrameOutside<V, O, S, C, R, G, F, H>,
    action: WindowAction,
)
    requires
        WinitApp::<V, O, S, C, R, W, D, K>::handled(
            before,
            LoopEvent::CloseRequested,
            outside,
            after,
            done,
            action,
        ),
    ensures
        action == WindowAction::Exit,
        after.app == before.app,
        after.pending_window_events == before.pending_window_events,
        after.pending_device_events == before.pending_device_events,
        after.config == before.config,
        after.window == before.window,
        after.redraw == before.redraw,
        after.redraw_policy == before.redraw_policy,
        done == outside,
{
}

/// A buffered event asks for a redraw exactly if the policy is on demand and
/// there is a window; under the continuous policy a redraw is under way
/// anyway. After a frame another one follows unless the policy is on demand,
/// the backend was ready, and nothing asked for it.
pub proof fn law_when_a_redraw_is_asked_for(
    policy: RedrawPolicy,
    has_window: bool,
    was_ready: bool,
    wanted: bool,
)
    ensures
        wake_action(policy, has_window) == WindowAction::RequestRedraw <==> policy
            == RedrawPolicy::OnDemand && has_window,
        wake_action(policy, has_window) != WindowAction::Exit,
        !frame_follows(policy, was_ready, wanted) <==> policy == RedrawPolicy::OnDemand && was_ready
            && !wanted,
{
}

/// The window has the title that was configured, and the canvas settings. It
/// has the size that was configured, and a canvas of its own, if no host
/// brings one.
pub proof fn law_the_window_is_as_configured<D, K>(config: WindowConfig<D, K>)
    ensures
        request_for(config).title == config.title,
        request_for(config).prevent_default == config.prevent_default,
        request_for(config).focusable == config.focusable,
        config.canvas is None ==> request_for(config).inner_size == Some(
            (config.width, config.height),
        ),
        config.canvas is None ==> request_for(config).append,
        config.canvas is None ==> request_for(config).canvas is None,
{
}

/// Asking for a frame and taking the request concern the request alone, not
/// the window to be woken.
pub proof fn law_requests_leave_the_window<W>(redraw: Redraw<W>)
    ensures
        redraw.requested().window == redraw.window,
        redraw.taken().window == redraw.window,
        !redraw.taken().wanted,
        redraw.taken().requested().wanted,
{
}

/// The plugin of the window sets the runner, with its configuration, and
/// leaves the application as it is otherwise.
pub proof fn law_the_window_plugin_sets_the_runner<
    V,
    O: ObserverSystem<V>,
    S: System<V, O>,
    C: ConditionSystem<V, O>,
    D,
    K,
>(
    plugin: WindowPlugin<D, K>,
    before: AppView<V, O, S, C, WindowRunner<D, K>>,
    after: AppView<V, O, S, C, WindowRunner<D, K>>,
)
    requires
        plugin.builds(before, after),
    ensures
        after.runner is Some,
        after.runner->Some_0.config == plugin.config,
        after.state == before.state,
        after.schedules == before.schedules,
        after.gpu_schedules == before.gpu_schedules,
        after.handle == before.handle,
        after.inbox == before.inbox,
{
}

// ---------------------------------------------------------------------------
// Laws of the operations
// ---------------------------------------------------------------------------

/// Handling a redraw is one frame: the request for it is taken, the buffered
/// events are fed, the application is updated once, and the request for the
/// next is taken, in this order. Another redraw is asked for exactly if the
/// policy is continuous, the backend was not ready before, or a frame was
/// asked for meanwhile.
pub proof fn law_handling_a_redraw<
    V,
    O: ObserverSystem<V>,
    S: System<V, O>,
    C: ConditionSystem<V, O>,
    R,
    W,
    D,
    K,
    G: FnOnce(&D) -> bool,
    F: FnOnce(Vec<WindowEvent>, Vec<DeviceEvent>),
    H: FnOnce(&D) -> bool,
>(
    handler: &mut WinitApp<V, O, S, C, R, W, D, K>,
    outside: &mut FrameOutside<V, O, S, C, R, G, F, H>,
    action: WindowAction,
)
    requires
        call_ensures(
            WinitApp::<V, O, S, C, R, W, D, K>::handle_event::<G, F, H>,
            (handler, LoopEvent::RedrawRequested, outside),
            action,
        ),
    ensures
        exists|asked: bool, wanted: bool|
            {
                &&& #[trigger] call_ensures(
                    old(outside).begin()->Some_0,
                    (&old(handler).redraw,),
                    asked,
                )
                &&& #[trigger] call_ensures(
                    old(outside).end()->Some_0,
                    (&old(handler).redraw,),
                    wanted,
                )
                &&& final(outside).done() == old(outside).done().push(
                    LoopAct::Took { wanted: asked, app: old(handler).app@ },
                ).push(
                    LoopAct::Fed {
                        window_events: old(handler).pending_window_events@,
                        device_events: old(handler).pending_device_events@,
                        app: old(handler).app@,
                    },
                ).push(LoopAct::Took { wanted, app: final(handler).app@ })
                &&& action == WindowAction::RequestRedraw <==> {
                    ||| old(handler).redraw_policy == RedrawPolicy::Continuous
                    ||| !old(handler).app@.state.resources.backend_ready
                    ||| wanted
                }
                &&& action == WindowAction::RequestRedraw || action == WindowAction::Sleep
            },
        exists|deliveries: Seq<Delivery<V>>| #[trigger]
            app::updated(old(handler).app@, deliveries, final(handler).app@),
        final(handler).pending_window_events@.len() == 0,
        final(handler).pending_device_events@.len() == 0,
        final(handler).config == old(handler).config,
        final(handler).window == old(handler).window,
        final(handler).redraw == old(handler).redraw,
        final(handler).redraw_policy == old(handler).redraw_policy,
{
    law_a_redraw_is_one_frame(
        *old(handler),
        *old(outside),
        *final(handler),
        *final(outside),
        action,
    );
}

/// Handling a close leaves the loop and changes nothing; handling any other
/// event but a redraw buffers it, asks for a redraw if the policy is on demand
/// and there is a window, and changes nothing else.
pub proof fn law_handling_other_events<
    V,
    O: ObserverSystem<V>,
    S: System<V, O>,
    C: ConditionSystem<V, O>,
    R,
    W,
    D,
    K,
    G: FnOnce(&D) -> bool,
    F: FnOnce(Vec<WindowEvent>, Vec<DeviceEvent>),
    H: FnOnce(&D) -> bool,
>(
    closing: &mut WinitApp<V, O, S, C, R, W, D, K>,
    handler: &mut WinitApp<V, O, S, C, R, W, D, K>,
    event: WindowEvent,
    unused: &mut FrameOutside<V, O, S, C, R, G, F, H>,
    outside: &mut FrameOutside<V, O, S, C, R, G, F, H>,
    last: WindowAction,
    action: WindowAction,
)
    requires
        call_ensures(
            WinitApp::<V, O, S, C, R, W, D, K>::handle_event::<G, F, H>,
            (closing, LoopEvent::CloseRequested, unused),
            last,
        ),
        call_ensures(
            WinitApp::<V, O, S, C, R, W, D, K>::handle_event::<G, F, H>,
            (handler, LoopEvent::Other(event), outside),
            action,
        ),
    ensures
        last == WindowAction::Exit,
        final(closing).app == old(closing).app,
        final(closing).pending_window_events == old(closing).pending_window_events,
        final(closing).pending_device_events == old(closing).pending_device_events,
        *final(unused) == *old(unused),
        action == WindowAction::RequestRedraw <==> old(handler).redraw_policy
            == RedrawPolicy::OnDemand && old(handler).window is Some,
        action == WindowAction::RequestRedraw || action == WindowAction::Sleep,
        final(handler).app == old(handler).app,
        final(handler).pending_window_events@.len() == old(handler).pending_window_events@.len() + 1,
        final(handler).pending_window_events@.drop_last() == old(handler).pending_window_events@,
        final(handler).pending_window_events@.last() == event,
        final(handler).pending_device_events == old(handler).pending_device_events,
        *final(outside) == *old(outside),
{
    assert(final(handler).pending_window_events@.drop_last() =~= old(
        handler,
    ).pending_window_events@);
}

/// A device event is buffered behind the others, and asks for a redraw as a
/// window event does.
pub proof fn law_device_events_wait_too<
    V,
    O: ObserverSystem<V>,
    S: System<V, O>,
    C: ConditionSystem<V, O>,
    R,
    W,
    D,
    K,
>(
    handler: &mut WinitApp<V, O, S, C, R, W, D, K>,
    event: DeviceEvent,
    action: WindowAction,
)
    requires
        call_ensures(
            WinitApp::<V, O, S, C, R, W, D, K>::device_event,
            (handler, event),
            action,
        ),
    ensures
        final(handler).pending_device_events@.len() == old(handler).pending_device_events@.len() + 1,
        final(handler).pending_device_events@.drop_last() == old(handler).pending_device_events@,
        final(handler).pending_device_events@.last() == event,
        final(handler).pending_window_events == old(handler).pending_window_events,
        final(handler).app == old(handler).app,
        final(handler).window == old(handler).window,
        final(handler).redraw_policy == old(handler).redraw_policy,
        action == WindowAction::RequestRedraw <==> old(handler).redraw_policy
            == RedrawPolicy::OnDemand && old(handler).window is Some,
        action == WindowAction::RequestRedraw || action == WindowAction::Sleep,
{
    assert(final(handler).pending_device_events@.drop_last() =~= old(
        handler,
    ).pending_device_events@);
}

/// Handling a window event is handling what it is to the loop: it ends the
/// loop exactly if it is a close.
pub proof fn law_handling_window_events<
    V,
    O: ObserverSystem<V>,
    S: System<V, O>,
    C: ConditionSystem<V, O>,
    R,
    W,
    D,
    K,
    G: FnOnce(&D) -> bool,
    F: FnOnce(Vec<WindowEvent>, Vec<DeviceEvent>),
    H: FnOnce(&D) -> bool,
>(
    handler: &mut WinitApp<V, O, S, C, R, W, D, K>,
    event: WindowEvent,
    outside: &mut FrameOutside<V, O, S, C, R, G, F, H>,
    action: WindowAction,
)
    requires
        call_ensures(
            WinitApp::<V, O, S, C, R, W, D, K>::window_event::<G, F, H>,
            (handler, event, outside),
            action,
        ),
    ensures
        action == WindowAction::Exit <==> loop_event(event) is CloseRequested,
        loop_event(event) is Other ==> {
            &&& final(handler).pending_window_events@ == old(
                handler,
            ).pending_window_events@.push(event)
            &&& final(handler).app == old(handler).app
            &&& *final(outside) == *old(outside)
        },
        loop_event(event) is RedrawRequested ==> {
            &&& final(handler).pending_window_events@.len() == 0
            &&& final(handler).pending_device_events@.len() == 0
            &&& final(outside).done().len() == old(outside).done().len() + 3
            &&& exists|deliveries: Seq<Delivery<V>>| #[trigger]
                app::updated(old(handler).app@, deliveries, final(handler).app@)
        },
{
}

/// The window is asked for once, as it was configured; the policy and the
/// handle for redraws are adopted with it.
pub proof fn law_the_window_is_asked_for_once<
    V,
    O: ObserverSystem<V>,
    S: System<V, O>,
    C: ConditionSystem<V, O>,
    R,
    W,
    D,
    K,
>(
    config: WindowConfig<D, K>,
    app: App<V, O, S, C, R>,
    redraw: D,
    fresh: WinitApp<V, O, S, C, R, W, D, K>,
    handler: &mut WinitApp<V, O, S, C, R, W, D, K>,
    request: Option<WindowRequest<K>>,
    later: &mut WinitApp<V, O, S, C, R, W, D, K>,
    nothing: Option<WindowRequest<K>>,
)
    requires
        call_ensures(
            WinitApp::<V, O, S, C, R, W, D, K>::new,
            (config, app, redraw),
            fresh,
        ),
        *old(handler) == fresh,
        call_ensures(WinitApp::<V, O, S, C, R, W, D, K>::resumed, (handler,), request),
        *old(later) == *final(handler),
        call_ensures(WinitApp::<V, O, S, C, R, W, D, K>::resumed, (later,), nothing),
    ensures
        request is Some,
        nothing is None,
        request->Some_0.title == config.title,
        request->Some_0.canvas == config.canvas,
        request->Some_0.prevent_default == config.prevent_default,
        request->Some_0.focusable == config.focusable,
        config.canvas is None ==> request->Some_0.inner_size == Some((config.width, config.height)),
        config.canvas is Some ==> request->Some_0.inner_size is None,
        request->Some_0.append <==> config.canvas is None,
        final(handler).redraw_policy == config.redraw_policy,
        config.redraw is Some ==> final(handler).redraw == config.redraw->Some_0,
        config.redraw is None ==> final(handler).redraw == redraw,
        final(later).redraw_policy == config.redraw_policy,
        final(later).redraw == final(handler).redraw,
        final(later).app == app,
        final(later).window is None,
        final(later).pending_window_events@.len() == 0,
        final(later).pending_device_events@.len() == 0,
{
}

/// Once the window is there, it is attached to the handle for redraws, the
/// application has its three resources, and the first redraw is asked for.
pub proof fn law_the_first_redraw_is_asked_for<
    V,
    O: ObserverSystem<V>,
    S: System<V, O>,
    C: ConditionSystem<V, O>,
    R,
    W,
    D,
    K,
    F: FnOnce(&D, &W),
>(
    handler: &mut WinitApp<V, O, S, C, R, W, D, K>,
    window: W,
    attach: F,
    keys: (TypeKey, TypeKey, TypeKey),
    values: (V, V, V),
    action: WindowAction,
)
    requires
        keys.0 != keys.1,
        keys.0 != keys.2,
        keys.1 != keys.2,
        call_ensures(
            WinitApp::<V, O, S, C, R, W, D, K>::window_created::<F>,
            (
                handler,
                window,
                attach,
                Resource::Custom(keys.0, values.0),
                Resource::Custom(keys.1, values.1),
                Resource::Custom(keys.2, values.2),
            ),
            action,
        ),
    ensures
        action == WindowAction::RequestRedraw,
        call_ensures(attach, (&old(handler).redraw, &window), ()),
        final(handler).window == Some(window),
        ({
            let custom = final(handler).app@.state.resources.custom;
            &&& custom.dom().contains(keys.0) && custom[keys.0] == values.0
            &&& custom.dom().contains(keys.1) && custom[keys.1] == values.1
            &&& custom.dom().contains(keys.2) && custom[keys.2] == values.2
        }),
        final(handler).app@.schedules == old(handler).app@.schedules,
        final(handler).app@.gpu_schedules == old(handler).app@.gpu_schedules,
        final(handler).app@.state.world == old(handler).app@.state.world,
        final(handler).app@.state.resources.events == old(
            handler,
        ).app@.state.resources.events,
        final(handler).pending_window_events == old(handler).pending_window_events,
        final(handler).redraw == old(handler).redraw,
{
}

/// A request is there to be taken once, however often it was made; the window
/// that it is to wake stays attached.
pub proof fn law_requests_are_taken_once<W>(
    fresh: Redraw<W>,
    attaching: &mut Redraw<W>,
    window: W,
    redraw: &mut Redraw<W>,
    poked: Option<&W>,
    again: &mut Redraw<W>,
    poked_again: Option<&W>,
    taking: &mut Redraw<W>,
    wanted: bool,
    later: &mut Redraw<W>,
    left: bool,
)
    requires
        call_ensures(Redraw::<W>::new, (), fresh),
        *old(attaching) == fresh,
        call_ensures(Redraw::<W>::attach, (attaching, window), ()),
        *old(redraw) == *final(attaching),
        call_ensures(Redraw::<W>::request, (redraw,), poked),
        *old(again) == *final(redraw),
        call_ensures(Redraw::<W>::request, (again,), poked_again),
        *old(taking) == *final(again),
        call_ensures(Redraw::<W>::take, (taking,), wanted),
        *old(later) == *final(taking),
        call_ensures(Redraw::<W>::take, (later,), left),
    ensures
        !fresh.wanted,
        fresh.window is None,
        poked is Some,
        *poked->Some_0 == window,
        poked_again is Some,
        *poked_again->Some_0 == window,
        wanted,
        !left,
        final(later).window == Some(window),
{
}

/// A host's canvas changes the configuration in nothing else.
pub proof fn law_a_canvas_is_all_that_changes<D, K>(
    config: WindowConfig<D, K>,
    canvas: K,
    hosted: WindowConfig<D, K>,
)
    requires
        call_ensures(WindowConfig::<D, K>::with_canvas, (config, canvas), hosted),
    ensures
        hosted.canvas == Some(canvas),
        hosted == (WindowConfig { canvas: hosted.canvas, ..config }),
{
}

/// By default a window is redrawn all the time, is 1280 by 720 pixels, has no
/// canvas of a host and no handle for redraws of the caller's, and keeps the
/// events on its canvas to itself.
pub proof fn law_windows_by_default<D, K, W>(
    policy: RedrawPolicy,
    redraw: Redraw<W>,
    config: WindowConfig<D, K>,
    plugin: WindowPlugin<D, K>,
    chosen: WindowPlugin<D, K>,
)
    requires
        call_ensures(<RedrawPolicy as Default>::default, (), policy),
        call_ensures(<Redraw<W> as Default>::default, (), redraw),
        call_ensures(<WindowConfig<D, K> as Default>::default, (), config),
        call_ensures(<WindowPlugin<D, K> as Default>::default, (), plugin),
        call_ensures(WindowPlugin::<D, K>::new, (config,), chosen),
    ensures
        policy == RedrawPolicy::Continuous,
        !redraw.wanted,
        redraw.window is None,
        config.redraw_policy == RedrawPolicy::Continuous,
        config.width == 1280 && config.height == 720,
        config.canvas is None && config.redraw is None,
        config.prevent_default && config.focusable,
        plugin.config.redraw_policy == RedrawPolicy::Continuous,
        plugin.config.width == 1280 && plugin.config.height == 720,
        plugin.config.canvas is None && plugin.config.redraw is None,
        plugin.config.prevent_default && plugin.config.focusable,
        config.title@ == "Pebble"@,
        plugin.config.title@ == config.title@,
        chosen.config == config,
{
}

} // verus!
