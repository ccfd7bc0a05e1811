use std::cell::RefCell;
use std::rc::Rc;

use pebble::app::{App, AppExit, AppView, BackendReady, Plugin};
use pebble::ecs::condition::{ConditionSystem, ResourceExists};
use pebble::ecs::resources::{Resource, ResourceCommand, ResourceKey, Resources};
use pebble::ecs::system::{
    EngineState, ObserverSystem, StageSystem, System, SystemConfig, SystemId, SystemStage,
};
use pebble::graphics::input::{
    accepts, input_change, Input, InputChange, MouseButton, WindowChange,
};
use pebble::graphics::outside::FrameOutside;
use pebble::graphics::window::{
    LoopEvent, Redraw, RedrawPolicy, WindowAction, WindowConfig, WindowPlugin, WindowRunner,
    WinitApp,
};
use winit::dpi::{PhysicalPosition, PhysicalSize};
use winit::event::{DeviceEvent, DeviceId, ElementState, Touch, TouchPhase, WindowEvent};
use winit::keyboard::KeyCode;

const WINDOW: u64 = 1;
const INPUT: u64 = 2;
const REDRAW: u64 = 3;

type SharedRedraw = Rc<RefCell<Redraw<&'static str>>>;
type SharedInput = Rc<RefCell<Input>>;

enum Value {
    Window(&'static str),
    Input(SharedInput),
    Redraw(SharedRedraw),
}

struct NoObserver;

impl ObserverSystem<Value> for NoObserver {
    fn observes(
        _: Self,
        _: Value,
        _: EngineState<Value, Self>,
        _: Self,
        _: EngineState<Value, Self>,
    ) -> bool {
        unreachable!()
    }

    fn observe(&mut self, _: &Value, _: &mut hecs::World, _: &mut Resources<Value, NoObserver>) {}
}

enum Viewer {
    ExitOnClick,
    AskForAnotherFrame,
}

impl System<Value, NoObserver> for Viewer {
    fn runs(
        _: Self,
        _: EngineState<Value, NoObserver>,
        _: Self,
        _: EngineState<Value, NoObserver>,
    ) -> bool {
        unreachable!()
    }

    fn run(&mut self, _: &mut hecs::World, resources: &mut Resources<Value, NoObserver>) {
        match self {
            Viewer::ExitOnClick => {
                if let Some(Value::Input(input)) = resources.get(INPUT) {
                    if input.borrow().mouse_pressed(MouseButton::Left) {
                        resources.queue(ResourceCommand::Insert(Resource::AppExit(AppExit(true))));
                    }
                }
            }
            Viewer::AskForAnotherFrame => {
                if let Some(Value::Redraw(redraw)) = resources.get(REDRAW) {
                    redraw.borrow_mut().request();
                }
            }
        }
    }
}

type Config = WindowConfig<SharedRedraw, &'static str>;
type Runner = WindowRunner<SharedRedraw, &'static str>;
type ViewerApp = App<Value, NoObserver, Viewer, ResourceExists, Runner>;
type Handler = WinitApp<
    Value,
    NoObserver,
    Viewer,
    ResourceExists,
    Runner,
    &'static str,
    SharedRedraw,
    &'static str,
>;

fn on_demand() -> Config {
    WindowConfig { redraw_policy: RedrawPolicy::OnDemand, ..WindowConfig::default() }
}

/// A handler with a window, and the input that it feeds.
fn running(config: Config, app: ViewerApp) -> (Handler, SharedInput) {
    let input: SharedInput = Rc::new(RefCell::new(Input::new()));
    let redraw: SharedRedraw = Rc::new(RefCell::new(Redraw::new()));
    let mut handler = WinitApp::new(config, app, redraw);
    handler.resumed().unwrap();
    let shared = handler.redraw.clone();
    let action = handler.window_created(
        "window",
        |redraw, window| redraw.borrow_mut().attach(*window),
        Resource::Custom(WINDOW, Value::Window("window")),
        Resource::Custom(INPUT, Value::Input(input.clone())),
        Resource::Custom(REDRAW, Value::Redraw(shared)),
    );
    assert_eq!(action, WindowAction::RequestRedraw);
    (handler, input)
}

fn send(handler: &mut Handler, input: &SharedInput, event: WindowEvent) -> WindowAction {
    assert!(accepts(&event));
    let input = input.clone();
    let mut outside = FrameOutside::new(
        |redraw: &SharedRedraw| redraw.borrow_mut().take(),
        move |window_events, device_events| input.borrow_mut().feed(window_events, device_events),
        |redraw: &SharedRedraw| redraw.borrow_mut().take(),
    );
    handler.window_event(event, &mut outside)
}

fn make_ready(handler: &mut Handler) {
    handler.app.resources_mut().insert(Resource::BackendReady(BackendReady(true)));
}

fn viewer(system: Viewer) -> ViewerApp {
    App::new().add_system(
        SystemStage::Update,
        SystemConfig::new(SystemId::Custom(9), StageSystem::Custom(system)),
    )
}

fn touch(phase: TouchPhase) -> WindowEvent {
    WindowEvent::Touch(Touch {
        device_id: DeviceId::dummy(),
        phase,
        location: PhysicalPosition::new(3.0, 4.0),
        force: None,
        id: 1,
    })
}

fn click(state: ElementState, button: winit::event::MouseButton) -> WindowEvent {
    WindowEvent::MouseInput { device_id: DeviceId::dummy(), state, button }
}

#[test]
fn the_default_configuration_is_a_continuous_window() {
    let config: Config = WindowConfig::default();
    assert_eq!(config.title, "Pebble");
    assert_eq!((config.width, config.height), (1280, 720));
    assert_eq!(config.redraw_policy, RedrawPolicy::Continuous);
    assert!(config.redraw.is_none());
    assert!(config.canvas.is_none());
    assert!(config.prevent_default);
    assert!(config.focusable);
    let plugin: WindowPlugin<SharedRedraw, &'static str> = WindowPlugin::default();
    assert_eq!(plugin.config.title, "Pebble");
    assert_eq!(RedrawPolicy::default(), RedrawPolicy::Continuous);
}

#[test]
fn a_request_pokes_the_window_and_is_consumed_once() {
    let mut redraw: Redraw<&str> = Redraw::default();
    assert_eq!(redraw.request(), None);
    assert!(redraw.take());
    assert!(!redraw.take());
    redraw.attach("window");
    assert_eq!(redraw.request(), Some(&"window"));
    assert_eq!(redraw.request(), Some(&"window"));
    assert!(redraw.take());
    assert!(!redraw.take());
}

#[test]
fn the_window_is_asked_for_once() {
    let redraw: SharedRedraw = Rc::new(RefCell::new(Redraw::new()));
    let config = WindowConfig { title: "Title".to_string(), width: 30, height: 20, ..on_demand() };
    let mut handler: Handler = WinitApp::new(config, App::new(), redraw);
    let request = handler.resumed().unwrap();
    assert_eq!(request.title, "Title");
    assert_eq!(request.inner_size, Some((30, 20)));
    assert!(request.append);
    assert_eq!(request.canvas, None);
    assert!(request.prevent_default);
    assert!(request.focusable);
    assert_eq!(handler.redraw_policy, RedrawPolicy::OnDemand);
    assert!(handler.resumed().is_none());
}

#[test]
fn a_host_canvas_keeps_its_size() {
    let redraw: SharedRedraw = Rc::new(RefCell::new(Redraw::new()));
    let config = on_demand().with_canvas("canvas");
    let mut handler: Handler = WinitApp::new(config, App::new(), redraw);
    let request = handler.resumed().unwrap();
    assert_eq!(request.inner_size, None);
    assert!(!request.append);
    assert_eq!(request.canvas, Some("canvas"));
}

#[test]
fn the_callers_redraw_handle_is_the_one_that_wakes_the_window() {
    let mine: SharedRedraw = Rc::new(RefCell::new(Redraw::new()));
    let config = WindowConfig { redraw: Some(mine.clone()), ..on_demand() };
    let (handler, _) = running(config, App::new());
    assert_eq!(handler.window, Some("window"));
    assert_eq!(mine.borrow_mut().request(), Some(&"window"));
    let resources = handler.app.resources();
    assert!(matches!(resources.get(WINDOW), Some(Value::Window("window"))));
    assert!(matches!(resources.get(REDRAW), Some(Value::Redraw(_))));
}

#[test]
fn closing_leaves_the_loop() {
    let (mut handler, input) = running(on_demand(), App::new());
    assert_eq!(send(&mut handler, &input, WindowEvent::CloseRequested), WindowAction::Exit);
}

#[test]
fn a_continuous_loop_always_asks_for_the_next_frame() {
    let (mut handler, input) = running(WindowConfig::default(), App::new());
    make_ready(&mut handler);
    for _ in 0..3 {
        let action = send(&mut handler, &input, WindowEvent::RedrawRequested);
        assert_eq!(action, WindowAction::RequestRedraw);
    }
    let action = send(&mut handler, &input, WindowEvent::Focused(true));
    assert_eq!(action, WindowAction::Sleep);
    let motion = DeviceEvent::MouseMotion { delta: (1.0, 2.0) };
    assert_eq!(handler.device_event(motion), WindowAction::Sleep);
}

#[test]
fn an_on_demand_loop_sleeps_once_it_is_ready_and_unasked() {
    let (mut handler, input) = running(on_demand(), App::new());
    // The readiness counts as it was before the tick.
    let action = send(&mut handler, &input, WindowEvent::RedrawRequested);
    assert_eq!(action, WindowAction::RequestRedraw);
    make_ready(&mut handler);
    let action = send(&mut handler, &input, WindowEvent::RedrawRequested);
    assert_eq!(action, WindowAction::Sleep);
    // A request is consumed when the frame that it asked for begins.
    handler.redraw.borrow_mut().request();
    let action = send(&mut handler, &input, WindowEvent::RedrawRequested);
    assert_eq!(action, WindowAction::Sleep);
    assert!(!handler.redraw.borrow().wanted);
}

#[test]
fn a_system_that_asks_in_every_tick_keeps_the_loop_going() {
    let (mut handler, input) = running(on_demand(), viewer(Viewer::AskForAnotherFrame));
    make_ready(&mut handler);
    for _ in 0..3 {
        let action = send(&mut handler, &input, WindowEvent::RedrawRequested);
        assert_eq!(action, WindowAction::RequestRedraw);
    }
}

#[test]
fn buffered_events_wake_an_on_demand_loop() {
    let (mut handler, input) = running(on_demand(), App::new());
    let action = send(&mut handler, &input, WindowEvent::Focused(true));
    assert_eq!(action, WindowAction::RequestRedraw);
    let motion = DeviceEvent::MouseMotion { delta: (1.0, 2.0) };
    assert_eq!(handler.device_event(motion), WindowAction::RequestRedraw);
    assert_eq!(handler.pending_window_events.len(), 1);
    assert_eq!(handler.pending_device_events.len(), 1);
}

#[test]
fn nothing_is_woken_before_there_is_a_window() {
    let redraw: SharedRedraw = Rc::new(RefCell::new(Redraw::new()));
    let mut handler: Handler = WinitApp::new(on_demand(), App::new(), redraw);
    handler.resumed().unwrap();
    let motion = DeviceEvent::MouseMotion { delta: (1.0, 2.0) };
    assert_eq!(handler.device_event(motion), WindowAction::Sleep);
}

#[test]
fn buffered_events_reach_the_input_as_one_step() {
    let (mut handler, input) = running(on_demand(), App::new());
    make_ready(&mut handler);
    send(&mut handler, &input, WindowEvent::Resized(PhysicalSize::new(640, 380)));
    send(&mut handler, &input, touch(TouchPhase::Started));
    handler.device_event(DeviceEvent::MouseMotion { delta: (1.0, 2.0) });
    assert!(!input.borrow().mouse_pressed(MouseButton::Left));
    send(&mut handler, &input, WindowEvent::RedrawRequested);
    assert_eq!(input.borrow().resolution(), Some((640, 380)));
    assert!(input.borrow().mouse_pressed(MouseButton::Left));
    assert!(input.borrow().mouse_held(MouseButton::Left));
    assert_eq!(input.borrow().raw().mouse_diff(), (1.0, 2.0));
    assert!(handler.pending_window_events.is_empty());
    assert!(handler.pending_device_events.is_empty());
    send(&mut handler, &input, WindowEvent::RedrawRequested);
    assert!(!input.borrow().mouse_pressed(MouseButton::Left));
    assert!(input.borrow().mouse_held(MouseButton::Left));
}

#[test]
fn the_input_of_a_frame_is_seen_in_its_tick() {
    let (mut handler, input) = running(on_demand(), viewer(Viewer::ExitOnClick));
    make_ready(&mut handler);
    let action = send(&mut handler, &input, WindowEvent::RedrawRequested);
    assert_eq!(action, WindowAction::Sleep);
    send(&mut handler, &input, click(ElementState::Pressed, winit::event::MouseButton::Left));
    assert!(!handler.app.should_exit());
    let action = send(&mut handler, &input, WindowEvent::RedrawRequested);
    assert!(handler.app.should_exit());
    // Only closing the window ends its loop.
    assert_eq!(action, WindowAction::Sleep);
}

#[test]
fn a_request_made_during_the_tick_gives_one_more_frame() {
    let (mut handler, input) = running(on_demand(), viewer(Viewer::AskForAnotherFrame));
    make_ready(&mut handler);
    handler.redraw.borrow_mut().request();
    let action = send(&mut handler, &input, WindowEvent::RedrawRequested);
    assert_eq!(action, WindowAction::RequestRedraw);
    assert!(!handler.redraw.borrow().wanted);
}

#[test]
fn a_frame_takes_feeds_updates_and_takes_again() {
    let seen: Rc<RefCell<Vec<&'static str>>> = Rc::new(RefCell::new(Vec::new()));
    let (mut handler, _) = running(on_demand(), App::new());
    let (taking, feeding, asking) = (seen.clone(), seen.clone(), seen.clone());
    let mut outside = FrameOutside::new(
        move |_: &SharedRedraw| {
            taking.borrow_mut().push("took for this frame");
            true
        },
        move |_, _| feeding.borrow_mut().push("fed"),
        move |_: &SharedRedraw| {
            asking.borrow_mut().push("took for the next frame");
            false
        },
    );
    make_ready(&mut handler);
    let action = handler.handle_event(LoopEvent::RedrawRequested, &mut outside);
    assert_eq!(*seen.borrow(), vec!["took for this frame", "fed", "took for the next frame"]);
    assert_eq!(action, WindowAction::Sleep);
}

#[test]
fn events_that_were_told_apart_are_handled_alike() {
    let (mut handler, input) = running(on_demand(), App::new());
    make_ready(&mut handler);
    let feed = input.clone();
    let mut outside = FrameOutside::new(
        |_: &SharedRedraw| false,
        move |window_events, device_events| feed.borrow_mut().feed(window_events, device_events),
        |_: &SharedRedraw| true,
    );
    let action = handler.handle_event(LoopEvent::RedrawRequested, &mut outside);
    assert_eq!(action, WindowAction::RequestRedraw);
    let action = handler.handle_event(LoopEvent::CloseRequested, &mut outside);
    assert_eq!(action, WindowAction::Exit);
    let event = LoopEvent::Other(WindowEvent::Focused(false));
    let action = handler.handle_event(event, &mut outside);
    assert_eq!(action, WindowAction::RequestRedraw);
}

#[test]
fn the_plugin_sets_the_runner() {
    let mut app: ViewerApp = App::new().add_plugin(WindowPlugin::new(on_demand()));
    let runner = app.start().unwrap();
    assert_eq!(runner.config.redraw_policy, RedrawPolicy::OnDemand);
}

#[test]
fn touches_act_as_the_left_button() {
    let mut input = Input::new();
    assert!(!input.mouse_held(MouseButton::Left));
    input.step();
    input.process_window_event(&touch(TouchPhase::Moved));
    assert_eq!(input.raw().cursor(), Some((3.0, 4.0)));
    assert!(!input.mouse_pressed(MouseButton::Left));
    input.process_window_event(&touch(TouchPhase::Started));
    input.end_step();
    assert!(input.mouse_pressed(MouseButton::Left));
    assert!(input.mouse_held(MouseButton::Left));
    input.step();
    input.process_window_event(&touch(TouchPhase::Ended));
    input.end_step();
    assert!(input.mouse_released(MouseButton::Left));
    assert!(!input.mouse_held(MouseButton::Left));
    input.step();
    input.process_window_event(&touch(TouchPhase::Started));
    input.process_window_event(&touch(TouchPhase::Cancelled));
    input.end_step();
    assert!(input.mouse_pressed(MouseButton::Left));
    assert!(input.mouse_released(MouseButton::Left));
    assert!(!input.mouse_held(MouseButton::Left));
}

#[test]
fn touches_go_unnoticed_without_the_focus() {
    let mut input = Input::new();
    input.process_window_event(&WindowEvent::Focused(false));
    input.process_window_event(&touch(TouchPhase::Started));
    assert!(!input.mouse_pressed(MouseButton::Left));
    assert!(!input.mouse_held(MouseButton::Left));
}

#[test]
fn every_button_is_told_apart() {
    let buttons = [
        (MouseButton::Left, winit::event::MouseButton::Left),
        (MouseButton::Right, winit::event::MouseButton::Right),
        (MouseButton::Middle, winit::event::MouseButton::Middle),
        (MouseButton::Back, winit::event::MouseButton::Back),
        (MouseButton::Forward, winit::event::MouseButton::Forward),
        (MouseButton::Other(249), winit::event::MouseButton::Other(249)),
    ];
    for (button, pressed) in buttons {
        let mut input = Input::new();
        let event = click(ElementState::Pressed, pressed);
        assert!(accepts(&event));
        input.process_window_event(&event);
        for (other, _) in buttons {
            assert_eq!(input.mouse_pressed(other), other == button);
            assert_eq!(input.mouse_held(other), other == button);
        }
        input.process_window_event(&click(ElementState::Released, pressed));
        for (other, _) in buttons {
            assert_eq!(input.mouse_released(other), other == button);
        }
    }
    assert!(!accepts(&click(ElementState::Pressed, winit::event::MouseButton::Other(250))));
}

#[test]
fn closing_is_seen_for_one_step_and_keys_are_up_at_first() {
    let mut input = Input::new();
    assert!(!input.key_pressed(KeyCode::KeyA));
    assert!(!input.key_released(KeyCode::KeyA));
    assert!(!input.key_held(KeyCode::KeyA));
    assert!(!input.close_requested());
    assert_eq!(input.resolution(), None);
    input.step();
    input.process_window_event(&WindowEvent::CloseRequested);
    assert!(input.close_requested());
    input.step();
    assert!(!input.close_requested());
}

#[test]
fn events_are_told_apart_by_what_they_change() {
    let window = |event: WindowEvent| match input_change(&event) {
        InputChange::Window(change) => change,
        _ => panic!("not about the window"),
    };
    assert_eq!(window(WindowEvent::CloseRequested), WindowChange::Close);
    assert_eq!(window(WindowEvent::Focused(true)), WindowChange::Focus(true));
    assert_eq!(window(WindowEvent::Focused(false)), WindowChange::Focus(false));
    let resized = WindowEvent::Resized(PhysicalSize::new(640, 380));
    assert_eq!(window(resized), WindowChange::Resized(640, 380));
    assert_eq!(window(WindowEvent::Destroyed), WindowChange::Nothing);
    assert!(matches!(
        input_change(&click(ElementState::Released, winit::event::MouseButton::Other(3))),
        InputChange::Button(MouseButton::Other(3), false)
    ));
    assert!(matches!(
        input_change(&click(ElementState::Pressed, winit::event::MouseButton::Back)),
        InputChange::Button(MouseButton::Back, true)
    ));
    assert!(matches!(
        input_change(&touch(TouchPhase::Cancelled)),
        InputChange::Touch(pebble::graphics::input::TouchPhase::Cancelled)
    ));
}

#[test]
fn what_is_held_is_lost_with_the_focus() {
    let press = click(ElementState::Pressed, winit::event::MouseButton::Right);
    let mut input = Input::new();
    input.feed(vec![WindowEvent::Resized(PhysicalSize::new(4, 5)), press.clone()], vec![]);
    assert!(input.mouse_held(MouseButton::Right));
    input.feed(vec![WindowEvent::Focused(true)], vec![]);
    assert!(input.mouse_held(MouseButton::Right));
    input.feed(vec![WindowEvent::CloseRequested, WindowEvent::Focused(false)], vec![]);
    assert!(!input.mouse_held(MouseButton::Right));
    assert!(input.close_requested());
    assert_eq!(input.resolution(), Some((4, 5)));
    input.feed(vec![press.clone()], vec![]);
    assert!(!input.mouse_pressed(MouseButton::Right));
    input.feed(vec![WindowEvent::Focused(true), press], vec![]);
    assert!(input.mouse_pressed(MouseButton::Right));
    assert!(input.mouse_held(MouseButton::Right));
}

#[test]
fn a_step_is_measured_once_it_has_ended() {
    let mut input = Input::new();
    assert!(input.raw().delta_time().is_none());
    input.end_step();
    assert!(input.raw().delta_time().is_none());
    input.step();
    assert!(input.raw().delta_time().is_none());
    input.process_window_event(&WindowEvent::Focused(false));
    input.end_step();
    assert!(input.raw().delta_time().is_some());
    input.step();
    assert!(input.raw().delta_time().is_none());
    input.feed(vec![], vec![]);
    assert!(input.raw().delta_time().is_some());
}

struct Unused;

impl Plugin<Value, NoObserver, Viewer, ResourceExists, Runner> for Unused {
    fn builds(
        self,
        _: AppView<Value, NoObserver, Viewer, ResourceExists, Runner>,
        _: AppView<Value, NoObserver, Viewer, ResourceExists, Runner>,
    ) -> bool {
        unreachable!()
    }

    fn build(self, app: ViewerApp) -> ViewerApp {
        app
    }
}

#[test]
fn a_plugin_may_do_nothing() {
    let mut app: ViewerApp = App::new().add_plugin(Unused);
    assert!(app.start().is_none());
}

#[test]
fn a_missing_resource_gates() {
    let app: ViewerApp = App::new();
    let mut gate = ResourceExists { key: ResourceKey::Custom(WINDOW) };
    let world = hecs::World::new();
    assert!(!ConditionSystem::eval(&mut gate, &world, app.resources()));
}
