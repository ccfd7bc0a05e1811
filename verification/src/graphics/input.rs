//! Keyboard and mouse state.
use vstd::prelude::*;

use winit::event::{DeviceEvent, ElementState, WindowEvent};
use winit::keyboard::{KeyCode, PhysicalKey};
use winit_input_helper::WinitInputHelper;

verus! {

/// Declares `winit_input_helper::WinitInputHelper`, which tracks what is held
/// and what changed in the current step.
#[verifier::external_type_specification]
#[verifier::external_body]
pub struct ExWinitInputHelper(WinitInputHelper);

/// Declares `winit::event::WindowEvent`.
#[verifier::external_type_specification]
#[verifier::external_body]
pub struct ExWindowEvent(WindowEvent);

/// Declares `winit::event::DeviceEvent`.
#[verifier::external_type_specification]
#[verifier::external_body]
pub struct ExDeviceEvent(DeviceEvent);

/// Declares `winit::keyboard::KeyCode`, a key by its place on the keyboard.
#[verifier::external_type_specification]
#[verifier::external_body]
pub struct ExKeyCode(KeyCode);

/// A mouse button.
#[derive(Clone, Copy, PartialEq, Eq, Structural, Debug)]
pub enum MouseButton {
    Left,
    Right,
    Middle,
    Back,
    Forward,
    Other(u16),
}

/// Where a touch is in its course.
#[derive(Clone, Copy, PartialEq, Eq, Structural, Debug)]
pub enum TouchPhase {
    Started,
    Moved,
    Ended,
    Cancelled,
}

/// What a window event is to the input.
pub enum InputChange {
    Touch(TouchPhase),
    /// A mouse button went down, or up.
    Button(MouseButton, bool),
    /// A key went down, or up.
    Key(KeyCode, bool),
    /// Any other event.
    Window(WindowChange),
}

/// What changed about the window as a whole.
#[derive(Clone, Copy, PartialEq, Eq, Structural, Debug)]
pub enum WindowChange {
    /// It was asked to close.
    Close,
    /// It got the focus, or lost it.
    Focus(bool),
    /// It has another resolution.
    Resized(u32, u32),
    /// Nothing that the input tracks, but for the cursor and the wheel.
    Nothing,
}

/// The keys that went down in the current step.
pub uninterp spec fn keys_pressed(helper: WinitInputHelper) -> Set<KeyCode>;

/// The keys that went up in the current step.
pub uninterp spec fn keys_released(helper: WinitInputHelper) -> Set<KeyCode>;

/// The keys that are down.
pub uninterp spec fn keys_held(helper: WinitInputHelper) -> Set<KeyCode>;

/// The mouse buttons that went down in the current step.
pub uninterp spec fn buttons_pressed(helper: WinitInputHelper) -> Set<MouseButton>;

/// The mouse buttons that went up in the current step.
pub uninterp spec fn buttons_released(helper: WinitInputHelper) -> Set<MouseButton>;

/// The mouse buttons that are down.
pub uninterp spec fn buttons_held(helper: WinitInputHelper) -> Set<MouseButton>;

/// Whether the window has the focus: without it no key or button is tracked.
pub uninterp spec fn focused(helper: WinitInputHelper) -> bool;

/// Whether the window was asked to close in the current step.
pub uninterp spec fn close_asked(helper: WinitInputHelper) -> bool;

/// The window's resolution, once known.
pub uninterp spec fn known_resolution(helper: WinitInputHelper) -> Option<(u32, u32)>;

/// Whether a step has begun, since when the time is taken.
pub uninterp spec fn step_began(helper: WinitInputHelper) -> bool;

/// Whether it is known how long the last step took
/// (`WinitInputHelper::delta_time`): not while a step is in progress.
pub uninterp spec fn step_measured(helper: WinitInputHelper) -> bool;

/// What the helper is after a window event.
pub uninterp spec fn after_window_event(
    helper: WinitInputHelper,
    event: WindowEvent,
) -> WinitInputHelper;

/// What the helper is after a device event.
pub uninterp spec fn after_device_event(
    helper: WinitInputHelper,
    event: DeviceEvent,
) -> WinitInputHelper;

/// The phase of a touch, if the event is one.
pub uninterp spec fn touch_of(event: WindowEvent) -> Option<TouchPhase>;

/// The mouse button that an event is about, and whether it went down, if the
/// event is about one.
pub uninterp spec fn button_of(event: WindowEvent) -> Option<(MouseButton, bool)>;

/// The key that an event is about, and whether it went down, if the event is
/// about one that has a code.
pub uninterp spec fn key_of(event: WindowEvent) -> Option<(KeyCode, bool)>;

/// The event of a cursor that moved to where a touch is, if the event is a
/// touch.
pub uninterp spec fn cursor_event_of(event: WindowEvent) -> Option<WindowEvent>;

/// The event of a mouse button that the device of a touch pressed or released,
/// if the event is a touch.
pub uninterp spec fn button_event_of(
    event: WindowEvent,
    button: MouseButton,
    pressed: bool,
) -> Option<WindowEvent>;

/// What an event changes about the window as a whole.
pub uninterp spec fn window_change_of(event: WindowEvent) -> WindowChange;

/// What a window event is to the input.
pub open spec fn change_of(event: WindowEvent) -> InputChange {
    match touch_of(event) {
        Some(phase) => InputChange::Touch(phase),
        None => match button_of(event) {
            Some((button, pressed)) => InputChange::Button(button, pressed),
            None => match key_of(event) {
                Some((key, pressed)) => InputChange::Key(key, pressed),
                None => InputChange::Window(window_change_of(event)),
            },
        },
    }
}

/// How many buttons without a name of their own the helper has room for.
pub const OTHER_BUTTONS: u16 = 250;

/// The helper has room for the button.
pub open spec fn is_tracked(button: MouseButton) -> bool {
    button matches MouseButton::Other(number) ==> number < OTHER_BUTTONS
}

/// The helper has room for the button that the event is about.
pub open spec fn is_acceptable(event: WindowEvent) -> bool {
    button_of(event) matches Some((button, _)) ==> is_tracked(button)
}

/// What the input is, apart from where the cursor is and how far it and the
/// wheel have moved.
#[verifier::ext_equal]
pub struct InputView {
    pub keys_pressed: Set<KeyCode>,
    pub keys_released: Set<KeyCode>,
    pub keys_held: Set<KeyCode>,
    pub buttons_pressed: Set<MouseButton>,
    pub buttons_released: Set<MouseButton>,
    pub buttons_held: Set<MouseButton>,
    pub focused: bool,
    pub close_asked: bool,
    pub resolution: Option<(u32, u32)>,
    /// Whether a step has ever begun.
    pub began: bool,
    /// Whether the last step has ended, and how long it took is known.
    pub measured: bool,
}

/// What a helper says of the input.
pub open spec fn input_of(helper: WinitInputHelper) -> InputView {
    InputView {
        keys_pressed: keys_pressed(helper),
        keys_released: keys_released(helper),
        keys_held: keys_held(helper),
        buttons_pressed: buttons_pressed(helper),
        buttons_released: buttons_released(helper),
        buttons_held: buttons_held(helper),
        focused: focused(helper),
        close_asked: close_asked(helper),
        resolution: known_resolution(helper),
        began: step_began(helper),
        measured: step_measured(helper),
    }
}

impl InputView {
    /// No input at all.
    pub open spec fn initial() -> Self {
        InputView {
            keys_pressed: Set::empty(),
            keys_released: Set::empty(),
            keys_held: Set::empty(),
            buttons_pressed: Set::empty(),
            buttons_released: Set::empty(),
            buttons_held: Set::empty(),
            focused: true,
            close_asked: false,
            resolution: None,
            began: false,
            measured: false,
        }
    }

    /// A new step begins: what changed in the last one is forgotten, what is
    /// held stays held.
    pub open spec fn stepped(self) -> Self {
        InputView {
            keys_pressed: Set::empty(),
            keys_released: Set::empty(),
            buttons_pressed: Set::empty(),
            buttons_released: Set::empty(),
            close_asked: false,
            began: true,
            measured: false,
            ..self
        }
    }

    /// A step ends: how long it took is known, if it has begun, and the next
    /// one is timed from here.
    pub open spec fn ended(self) -> Self {
        InputView { began: true, measured: self.began, ..self }
    }

    /// A button went down or up. Without the focus that goes unnoticed.
    pub open spec fn button(self, button: MouseButton, pressed: bool) -> Self {
        if !self.focused {
            self
        } else if pressed {
            InputView {
                buttons_pressed: self.buttons_pressed.insert(button),
                buttons_held: self.buttons_held.insert(button),
                ..self
            }
        } else {
            InputView {
                buttons_released: self.buttons_released.insert(button),
                buttons_held: self.buttons_held.remove(button),
                ..self
            }
        }
    }

    /// A touch acts as the left mouse button: it goes down when the touch
    /// starts, and up when it ends.
    pub open spec fn touched(self, phase: TouchPhase) -> Self {
        match phase {
            TouchPhase::Started => self.button(MouseButton::Left, true),
            TouchPhase::Ended | TouchPhase::Cancelled => self.button(MouseButton::Left, false),
            TouchPhase::Moved => self,
        }
    }

    /// A key went down or up. Without the focus that goes unnoticed. A key
    /// that is held already does not go down again.
    pub open spec fn key(self, key: KeyCode, pressed: bool) -> Self {
        if !self.focused {
            self
        } else if pressed {
            InputView {
                keys_pressed: if self.keys_held.contains(key) {
                    self.keys_pressed
                } else {
                    self.keys_pressed.insert(key)
                },
                keys_held: self.keys_held.insert(key),
                ..self
            }
        } else {
            InputView {
                keys_released: self.keys_released.insert(key),
                keys_held: self.keys_held.remove(key),
                ..self
            }
        }
    }

    /// The window got the focus or lost it. With the focus everything that is
    /// held is lost, and nothing is held at first once it is back.
    pub open spec fn focus(self, gained: bool) -> Self {
        if gained && self.focused {
            self
        } else {
            InputView {
                focused: gained,
                close_asked: self.close_asked,
                resolution: self.resolution,
                began: self.began,
                measured: self.measured,
                ..InputView::initial()
            }
        }
    }

    /// One change.
    pub open spec fn taken(self, change: InputChange) -> Self {
        match change {
            InputChange::Touch(phase) => self.touched(phase),
            InputChange::Button(button, pressed) => self.button(button, pressed),
            InputChange::Key(key, pressed) => self.key(key, pressed),
            InputChange::Window(WindowChange::Close) => InputView { close_asked: true, ..self },
            InputChange::Window(WindowChange::Focus(gained)) => self.focus(gained),
            InputChange::Window(WindowChange::Resized(width, height)) => InputView {
                resolution: Some((width, height)),
                ..self
            },
            InputChange::Window(WindowChange::Nothing) => self,
        }
    }

    /// Window events, one after another.
    pub open spec fn taken_all(self, events: Seq<WindowEvent>) -> Self
        decreases events.len(),
    {
        if events.len() == 0 {
            self
        } else {
            self.taken_all(events.drop_last()).taken(change_of(events.last()))
        }
    }
}

/// `WinitInputHelper::new`: no input at all; the window is taken to have the
/// focus.
pub assume_specification[ WinitInputHelper::new ]() -> (helper: WinitInputHelper)
    ensures
        focused(helper),
        input_of(helper) == InputView::initial(),
;

/// `WinitInputHelper::step`: what changed in the last step is forgotten, and so
/// is how long it took; a step is in progress.
pub assume_specification[ WinitInputHelper::step ](helper: &mut WinitInputHelper)
    ensures
        input_of(*final(helper)) == input_of(*old(helper)).stepped(),
;

/// `WinitInputHelper::process_window_event`: a function of the helper and the
/// event. A key or button goes down or up, as long as the window has the
/// focus; without the focus none is tracked. The helper has room for a limited
/// number of mouse buttons. What it makes of a touch is left out here, and so
/// is where the cursor is and how far the wheel has moved.
pub assume_specification[ WinitInputHelper::process_window_event ](
    helper: &mut WinitInputHelper,
    event: &WindowEvent,
) -> (redraw: bool)
    requires
        is_acceptable(*event),
    ensures
        *final(helper) == after_window_event(*old(helper), *event),
        touch_of(*event) is None ==> input_of(*final(helper)) == input_of(*old(helper)).taken(
            change_of(*event),
        ),
;

/// `WinitInputHelper::process_device_event`: a function of the helper and the
/// event, which may only move the mouse.
pub assume_specification[ WinitInputHelper::process_device_event ](
    helper: &mut WinitInputHelper,
    event: &DeviceEvent,
)
    ensures
        *final(helper) == after_device_event(*old(helper), *event),
        input_of(*final(helper)) == input_of(*old(helper)),
;

/// `WinitInputHelper::end_step`: takes the time. How long the step took is known
/// from then on, if one has begun; how long it was is left out here.
pub assume_specification[ WinitInputHelper::end_step ](helper: &mut WinitInputHelper)
    ensures
        step_measured(*final(helper)) == step_began(*old(helper)),
        input_of(*final(helper)) == input_of(*old(helper)).ended(),
;

/// `WinitInputHelper::key_pressed`: whether the key went down in this step.
pub assume_specification[ WinitInputHelper::key_pressed ](
    helper: &WinitInputHelper,
    keycode: KeyCode,
) -> (pressed: bool)
    ensures
        pressed == keys_pressed(*helper).contains(keycode),
;

/// `WinitInputHelper::key_released`: whether the key went up in this step.
pub assume_specification[ WinitInputHelper::key_released ](
    helper: &WinitInputHelper,
    keycode: KeyCode,
) -> (released: bool)
    ensures
        released == keys_released(*helper).contains(keycode),
;

/// `WinitInputHelper::key_held`: whether the key is down.
pub assume_specification[ WinitInputHelper::key_held ](
    helper: &WinitInputHelper,
    keycode: KeyCode,
) -> (held: bool)
    ensures
        held == keys_held(*helper).contains(keycode),
;

/// `WinitInputHelper::close_requested`: whether the window was asked to close
/// in this step.
pub assume_specification[ WinitInputHelper::close_requested ](helper: &WinitInputHelper) -> (asked:
    bool)
    ensures
        asked == close_asked(*helper),
;

/// `WinitInputHelper::resolution`: the window's resolution, once known.
pub assume_specification[ WinitInputHelper::resolution ](helper: &WinitInputHelper) -> (resolution:
    Option<(u32, u32)>)
    ensures
        resolution == known_resolution(*helper),
;

/// A button as `winit::event::MouseButton`, for
/// `WinitInputHelper::mouse_pressed`: whether it went down in this step.
#[verifier::external_body]
fn helper_pressed(helper: &WinitInputHelper, button: MouseButton) -> (pressed: bool)
    ensures
        pressed == buttons_pressed(*helper).contains(button),
{
    helper.mouse_pressed(match button {
        MouseButton::Left => winit::event::MouseButton::Left,
        MouseButton::Right => winit::event::MouseButton::Right,
        MouseButton::Middle => winit::event::MouseButton::Middle,
        MouseButton::Back => winit::event::MouseButton::Back,
        MouseButton::Forward => winit::event::MouseButton::Forward,
        MouseButton::Other(number) => winit::event::MouseButton::Other(number),
    })
}

/// A button as `winit::event::MouseButton`, for
/// `WinitInputHelper::mouse_released`: whether it went up in this step.
#[verifier::external_body]
fn helper_released(helper: &WinitInputHelper, button: MouseButton) -> (released: bool)
    ensures
        released == buttons_released(*helper).contains(button),
{
    helper.mouse_released(match button {
        MouseButton::Left => winit::event::MouseButton::Left,
        MouseButton::Right => winit::event::MouseButton::Right,
        MouseButton::Middle => winit::event::MouseButton::Middle,
        MouseButton::Back => winit::event::MouseButton::Back,
        MouseButton::Forward => winit::event::MouseButton::Forward,
        MouseButton::Other(number) => winit::event::MouseButton::Other(number),
    })
}

/// A button as `winit::event::MouseButton`, for
/// `WinitInputHelper::mouse_held`: whether it is down. The helper has room
/// for a limited number of buttons.
#[verifier::external_body]
fn helper_held(helper: &WinitInputHelper, button: MouseButton) -> (held: bool)
    requires
        is_tracked(button),
    ensures
        held == buttons_held(*helper).contains(button),
{
    helper.mouse_held(match button {
        MouseButton::Left => winit::event::MouseButton::Left,
        MouseButton::Right => winit::event::MouseButton::Right,
        MouseButton::Middle => winit::event::MouseButton::Middle,
        MouseButton::Back => winit::event::MouseButton::Back,
        MouseButton::Forward => winit::event::MouseButton::Forward,
        MouseButton::Other(number) => winit::event::MouseButton::Other(number),
    })
}

/// The phase of the touch that a `winit::event::WindowEvent` is, if it is
/// one.
#[verifier::external_body]
fn touch_phase(event: &WindowEvent) -> (phase: Option<TouchPhase>)
    ensures
        phase == touch_of(*event),
{
    match event {
        WindowEvent::Touch(touch) => Some(match touch.phase {
            winit::event::TouchPhase::Started => TouchPhase::Started,
            winit::event::TouchPhase::Moved => TouchPhase::Moved,
            winit::event::TouchPhase::Ended => TouchPhase::Ended,
            winit::event::TouchPhase::Cancelled => TouchPhase::Cancelled,
        }),
        _ => None,
    }
}

/// The button that a `winit::event::WindowEvent` is about, and whether it went
/// down (`winit::event::ElementState::is_pressed`), if the event is about one.
#[verifier::external_body]
fn mouse_button(event: &WindowEvent) -> (button: Option<(MouseButton, bool)>)
    ensures
        button == button_of(*event),
{
    let WindowEvent::MouseInput { button, state, .. } = event else { return None };
    let button = match button {
        winit::event::MouseButton::Left => MouseButton::Left,
        winit::event::MouseButton::Right => MouseButton::Right,
        winit::event::MouseButton::Middle => MouseButton::Middle,
        winit::event::MouseButton::Back => MouseButton::Back,
        winit::event::MouseButton::Forward => MouseButton::Forward,
        winit::event::MouseButton::Other(number) => MouseButton::Other(*number),
    };
    Some((button, state.is_pressed()))
}

/// The key that a `winit::event::WindowEvent` is about, by its place on the
/// keyboard, and whether it went down, if the event is about one that has a
/// code.
#[verifier::external_body]
fn changed_key(event: &WindowEvent) -> (key: Option<(KeyCode, bool)>)
    ensures
        key == key_of(*event),
{
    match event {
        WindowEvent::KeyboardInput { event, .. } => match event.physical_key {
            PhysicalKey::Code(code) => Some((code, event.state.is_pressed())),
            PhysicalKey::Unidentified(_) => None,
        },
        _ => None,
    }
}

/// Tells the variants of `winit::event::WindowEvent` apart that are about the
/// window as a whole.
#[verifier::external_body]
fn window_change(event: &WindowEvent) -> (change: WindowChange)
    ensures
        change == window_change_of(*event),
{
    match event {
        WindowEvent::CloseRequested => WindowChange::Close,
        WindowEvent::Focused(gained) => WindowChange::Focus(*gained),
        WindowEvent::Resized(size) => WindowChange::Resized(size.width, size.height),
        _ => WindowChange::Nothing,
    }
}

/// What a window event is to the input.
pub fn input_change(event: &WindowEvent) -> (change: InputChange)
    ensures
        change == change_of(*event),
{
    match touch_phase(event) {
        Some(phase) => InputChange::Touch(phase),
        None => match mouse_button(event) {
            Some((button, pressed)) => InputChange::Button(button, pressed),
            None => match changed_key(event) {
                Some((key, pressed)) => InputChange::Key(key, pressed),
                None => InputChange::Window(window_change(event)),
            },
        },
    }
}

/// A touch as the `winit::event::WindowEvent::CursorMoved` of the same device
/// to the same place. `None` for any other event.
#[verifier::external_body]
fn as_cursor(event: &WindowEvent) -> (moved: Option<WindowEvent>)
    ensures
        moved == cursor_event_of(*event),
        moved is Some <==> touch_of(*event) is Some,
        moved matches Some(cursor) ==> change_of(cursor) == InputChange::Window(
            WindowChange::Nothing,
        ) && touch_of(cursor) is None && button_of(cursor) is None,
{
    match event {
        WindowEvent::Touch(touch) => Some(WindowEvent::CursorMoved {
            device_id: touch.device_id,
            position: touch.location,
        }),
        _ => None,
    }
}

/// A touch as the `winit::event::WindowEvent::MouseInput` of the same device,
/// for this button. `None` for any other event.
#[verifier::external_body]
fn as_button(event: &WindowEvent, button: MouseButton, pressed: bool) -> (input: Option<
    WindowEvent,
>)
    ensures
        input == button_event_of(*event, button, pressed),
        input is Some <==> touch_of(*event) is Some,
        input matches Some(click) ==> button_of(click) == Some((button, pressed)) && touch_of(
            click,
        ) is None,
{
    let WindowEvent::Touch(touch) = event else { return None };
    let button = match button {
        MouseButton::Left => winit::event::MouseButton::Left,
        MouseButton::Right => winit::event::MouseButton::Right,
        MouseButton::Middle => winit::event::MouseButton::Middle,
        MouseButton::Back => winit::event::MouseButton::Back,
        MouseButton::Forward => winit::event::MouseButton::Forward,
        MouseButton::Other(number) => winit::event::MouseButton::Other(number),
    };
    let state = match pressed {
        true => ElementState::Pressed,
        false => ElementState::Released,
    };
    Some(WindowEvent::MouseInput { device_id: touch.device_id, state, button })
}

/// What the helper is once the pointer is where a touch is.
pub open spec fn after_move(helper: WinitInputHelper, touch: WindowEvent) -> WinitInputHelper {
    after_window_event(helper, cursor_event_of(touch)->Some_0)
}

/// What the helper is once a touch has pressed or released the left button.
pub open spec fn after_press(
    helper: WinitInputHelper,
    touch: WindowEvent,
    pressed: bool,
) -> WinitInputHelper {
    after_window_event(helper, button_event_of(touch, MouseButton::Left, pressed)->Some_0)
}

/// One window event has been taken in: a touch as the pointer that it stands
/// for, anything else as it is.
pub open spec fn window_event_taken(
    before: WinitInputHelper,
    event: WindowEvent,
    after: WinitInputHelper,
) -> bool {
    &&& input_of(after) == input_of(before).taken(change_of(event))
    &&& after == match touch_of(event) {
        None => after_window_event(before, event),
        Some(TouchPhase::Moved) => after_move(before, event),
        Some(TouchPhase::Started) => after_press(after_move(before, event), event, true),
        Some(TouchPhase::Ended) | Some(TouchPhase::Cancelled) => after_press(
            after_move(before, event),
            event,
            false,
        ),
    }
}

/// Events have been taken in one after another, first those of the window,
/// then those of devices, while the helper went through `states`.
pub open spec fn feed_trace(
    window_events: Seq<WindowEvent>,
    device_events: Seq<DeviceEvent>,
    states: Seq<WinitInputHelper>,
) -> bool {
    &&& states.len() == window_events.len() + device_events.len() + 1
    &&& forall|i: int|
        0 <= i < window_events.len() ==> window_event_taken(
            states[i],
            #[trigger] window_events[i],
            states[i + 1],
        )
    &&& forall|i: int|
        0 <= i < device_events.len() ==> states[window_events.len() + i + 1] == after_device_event(
            states[window_events.len() + i],
            #[trigger] device_events[i],
        )
}

/// One whole step has passed, with these events.
pub open spec fn fed(
    before: WinitInputHelper,
    window_events: Seq<WindowEvent>,
    device_events: Seq<DeviceEvent>,
    after: WinitInputHelper,
) -> bool {
    exists|states: Seq<WinitInputHelper>|
        {
            &&& #[trigger] feed_trace(window_events, device_events, states)
            &&& input_of(states.first()) == input_of(before).stepped()
            &&& input_of(after) == input_of(states.last()).ended()
        }
}

/// Whether the input tracks the mouse button that the event is about. Only
/// such events can be taken in.
pub fn accepts(event: &WindowEvent) -> (ok: bool)
    ensures
        ok == is_acceptable(*event),
{
    match mouse_button(event) {
        Some((MouseButton::Other(number), _)) => number < OTHER_BUTTONS,
        _ => true,
    }
}

/// Keyboard and mouse state for this tick. `key_pressed` and `mouse_pressed`
/// are true only in the tick in which a key or button went down; `key_held`
/// and `mouse_held` for as long as it is down.
pub struct Input {
    helper: WinitInputHelper,
}

impl Input {
    /// What tracks the input.
    pub closed spec fn tracker(&self) -> WinitInputHelper {
        self.helper
    }
}

impl View for Input {
    type V = InputView;

    open spec fn view(&self) -> InputView {
        input_of(self.tracker())
    }
}

impl Input {
    /// No input yet.
    pub fn new() -> (input: Self)
        ensures
            input@ == InputView::initial(),
    {
        Input { helper: WinitInputHelper::new() }
    }

    /// Begins a step: forgets what changed in the last one.
    pub fn step(&mut self)
        ensures
            final(self)@ == old(self)@.stepped(),
    {
        self.helper.step();
    }

    /// Takes in a window event. Touches are mapped onto the pointer with its
    /// primary button, so that the cursor and the mouse buttons cover both.
    pub fn process_window_event(&mut self, event: &WindowEvent)
        requires
            is_acceptable(*event),
        ensures
            final(self)@ == old(self)@.taken(change_of(*event)),
            window_event_taken(old(self).tracker(), *event, final(self).tracker()),
    {
        match input_change(event) {
            InputChange::Touch(phase) => {
                match as_cursor(event) {
                    Some(moved) => {
                        let _ = self.helper.process_window_event(&moved);
                    },
                    None => {},
                }
                let pressed = match phase {
                    TouchPhase::Started => true,
                    TouchPhase::Ended | TouchPhase::Cancelled => false,
                    TouchPhase::Moved => {
                        return ;
                    },
                };
                match as_button(event, MouseButton::Left, pressed) {
                    Some(click) => {
                        let _ = self.helper.process_window_event(&click);
                    },
                    None => {},
                }
            },
            _ => {
                let _ = self.helper.process_window_event(event);
            },
        }
    }

    /// Takes in a device event: the mouse may have moved.
    pub fn process_device_event(&mut self, event: &DeviceEvent)
        ensures
            final(self).tracker() == after_device_event(old(self).tracker(), *event),
            final(self)@ == old(self)@,
    {
        self.helper.process_device_event(event);
    }

    /// Ends a step: how long it took is known.
    pub fn end_step(&mut self)
        ensures
            final(self)@ == old(self)@.ended(),
    {
        self.helper.end_step();
    }

    /// One whole step, with these events.
    pub fn feed(&mut self, window_events: Vec<WindowEvent>, device_events: Vec<DeviceEvent>)
        requires
            forall|i: int|
                0 <= i < window_events@.len() ==> is_acceptable(#[trigger] window_events@[i]),
        ensures
            final(self)@ == old(self)@.stepped().taken_all(window_events@).ended(),
            fed(old(self).tracker(), window_events@, device_events@, final(self).tracker()),
    {
        self.step();
        let ghost mut states: Seq<WinitInputHelper> = seq![self.tracker()];
        let ghost first = self.tracker();
        let mut i: usize = 0;
        while i < window_events.len()
            invariant
                i <= window_events@.len(),
                states.len() == i + 1,
                states.first() == first,
                states.last() == self.tracker(),
                self@ == input_of(first).taken_all(window_events@.take(i as int)),
                forall|k: int|
                    0 <= k < window_events@.len() ==> is_acceptable(#[trigger] window_events@[k]),
                forall|k: int|
                    0 <= k < i ==> window_event_taken(
                        states[k],
                        #[trigger] window_events@[k],
                        states[k + 1],
                    ),
            decreases window_events.len() - i,
        {
            let ghost passed = states;
            self.process_window_event(&window_events[i]);
            proof {
                states = passed.push(self.tracker());
                assert(window_events@.take(i + 1).drop_last() =~= window_events@.take(i as int));
            }
            i += 1;
        }
        assert(window_events@.take(i as int) =~= window_events@);
        let ghost count = window_events@.len();
        let mut j: usize = 0;
        while j < device_events.len()
            invariant
                j <= device_events@.len(),
                count == window_events@.len(),
                states.len() == count + j + 1,
                states.first() == first,
                states.last() == self.tracker(),
                self@ == input_of(first).taken_all(window_events@),
                forall|k: int|
                    0 <= k < count ==> window_event_taken(
                        states[k],
                        #[trigger] window_events@[k],
                        states[k + 1],
                    ),
                forall|k: int|
                    0 <= k < j ==> states[count + k + 1] == after_device_event(
                        states[count + k],
                        #[trigger] device_events@[k],
                    ),
            decreases device_events.len() - j,
        {
            let ghost passed = states;
            self.process_device_event(&device_events[j]);
            proof {
                states = passed.push(self.tracker());
            }
            j += 1;
        }
        assert(feed_trace(window_events@, device_events@, states));
        self.end_step();
    }

    /// Whether the key went down in this tick.
    pub fn key_pressed(&self, key: KeyCode) -> (pressed: bool)
        ensures
            pressed == self@.keys_pressed.contains(key),
    {
        self.helper.key_pressed(key)
    }

    /// Whether the key went up in this tick.
    pub fn key_released(&self, key: KeyCode) -> (released: bool)
        ensures
            released == self@.keys_released.contains(key),
    {
        self.helper.key_released(key)
    }

    /// Whether the key is down.
    pub fn key_held(&self, key: KeyCode) -> (held: bool)
        ensures
            held == self@.keys_held.contains(key),
    {
        self.helper.key_held(key)
    }

    /// Whether the button went down in this tick.
    pub fn mouse_pressed(&self, button: MouseButton) -> (pressed: bool)
        ensures
            pressed == self@.buttons_pressed.contains(button),
    {
        helper_pressed(&self.helper, button)
    }

    /// Whether the button went up in this tick.
    pub fn mouse_released(&self, button: MouseButton) -> (released: bool)
        ensures
            released == self@.buttons_released.contains(button),
    {
        helper_released(&self.helper, button)
    }

    /// Whether the button is down.
    pub fn mouse_held(&self, button: MouseButton) -> (held: bool)
        requires
            is_tracked(button),
        ensures
            held == self@.buttons_held.contains(button),
    {
        helper_held(&self.helper, button)
    }

    /// Whether the window was asked to close in this tick. The window loop ends
    /// on such an event and never feeds it, so this is for other loops.
    pub fn close_requested(&self) -> (asked: bool)
        ensures
            asked == self@.close_asked,
    {
        self.helper.close_requested()
    }

    /// The window's resolution, once known.
    pub fn resolution(&self) -> (resolution: Option<(u32, u32)>)
        ensures
            resolution == self@.resolution,
    {
        self.helper.resolution()
    }

    /// What tracks the input: where the cursor is and how far it and the
    /// wheel have moved can be asked there.
    pub fn raw(&self) -> (helper: &WinitInputHelper)
        ensures
            *helper == self.tracker(),
    {
        &self.helper
    }
}

// ---------------------------------------------------------------------------
// Laws
// ---------------------------------------------------------------------------

/// A touch is a press of the left button: when it starts the button goes down
/// and is held, and when it ends the button goes up and is no longer held, as
/// long as the window has the focus.
pub proof fn law_a_touch_is_a_press_of_the_left_button(input: InputView)
    requires
        input.focused,
    ensures
        ({
            let down = input.touched(TouchPhase::Started);
            let moved = down.touched(TouchPhase::Moved);
            let up = moved.touched(TouchPhase::Ended);
            &&& down.buttons_pressed.contains(MouseButton::Left)
            &&& down.buttons_held.contains(MouseButton::Left)
            &&& moved == down
            &&& up.buttons_released.contains(MouseButton::Left)
            &&& !up.buttons_held.contains(MouseButton::Left)
            &&& up == moved.touched(TouchPhase::Cancelled)
        }),
{
}

/// A key is seen to go down in the one tick in which it does, however often
/// the system repeats the press; it is held until it goes up, which is seen in
/// one tick as well.
pub proof fn law_a_key_goes_down_once_and_is_held_until_it_goes_up(input: InputView, key: KeyCode)
    requires
        input.focused,
        !input.keys_held.contains(key),
    ensures
        ({
            let down = input.key(key, true);
            let repeated = down.stepped().key(key, true);
            let up = repeated.stepped().key(key, false);
            &&& down.keys_pressed.contains(key)
            &&& down.keys_held.contains(key)
            &&& !repeated.keys_pressed.contains(key)
            &&& repeated.keys_held.contains(key)
            &&& up.keys_released.contains(key)
            &&& !up.keys_held.contains(key)
            &&& !up.stepped().keys_released.contains(key)
        }),
{
}

/// What went down or up is seen in one tick only; what is held stays held
/// until it is released.
pub proof fn law_changes_last_one_tick(input: InputView)
    ensures
        input.stepped().keys_pressed == Set::<KeyCode>::empty(),
        input.stepped().keys_released == Set::<KeyCode>::empty(),
        input.stepped().buttons_pressed == Set::<MouseButton>::empty(),
        input.stepped().buttons_released == Set::<MouseButton>::empty(),
        !input.stepped().close_asked,
        input.stepped().keys_held == input.keys_held,
        input.stepped().buttons_held == input.buttons_held,
        input.stepped().resolution == input.resolution,
{
}

/// A button that goes down is seen to go down and is held, one that goes up is
/// seen to go up and is no longer held. Every other button and every key stays
/// as it was. Without the focus nothing changes at all.
pub proof fn law_a_button_changes_by_itself(
    input: InputView,
    button: MouseButton,
    other: MouseButton,
)
    requires
        other != button,
    ensures
        !input.focused ==> input.button(button, true) == input && input.button(button, false)
            == input,
        input.focused ==> {
            let down = input.button(button, true);
            let up = input.button(button, false);
            &&& down.buttons_pressed.contains(button)
            &&& down.buttons_held.contains(button)
            &&& down.buttons_released == input.buttons_released
            &&& up.buttons_released.contains(button)
            &&& !up.buttons_held.contains(button)
            &&& up.buttons_pressed == input.buttons_pressed
        },
        forall|pressed: bool|
            {
                let after = #[trigger] input.button(button, pressed);
                &&& after.buttons_pressed.contains(other) == input.buttons_pressed.contains(other)
                &&& after.buttons_released.contains(other) == input.buttons_released.contains(
                    other,
                )
                &&& after.buttons_held.contains(other) == input.buttons_held.contains(other)
                &&& after.keys_pressed == input.keys_pressed
                &&& after.keys_released == input.keys_released
                &&& after.keys_held == input.keys_held
                &&& after.focused == input.focused
                &&& after.close_asked == input.close_asked
                &&& after.resolution == input.resolution
                &&& after.began == input.began
                &&& after.measured == input.measured
            },
{
}

/// A key that goes down is held, and is seen to go down if it was not held
/// already; one that goes up is seen to go up and is no longer held. Every
/// other key and every button stays as it was. Without the focus nothing
/// changes at all.
pub proof fn law_a_key_changes_by_itself(input: InputView, key: KeyCode, other: KeyCode)
    requires
        other != key,
    ensures
        !input.focused ==> input.key(key, true) == input && input.key(key, false) == input,
        input.focused ==> {
            let down = input.key(key, true);
            let up = input.key(key, false);
            &&& down.keys_pressed.contains(key) <==> input.keys_pressed.contains(key)
                || !input.keys_held.contains(key)
            &&& down.keys_held.contains(key)
            &&& down.keys_released == input.keys_released
            &&& up.keys_released.contains(key)
            &&& !up.keys_held.contains(key)
            &&& up.keys_pressed == input.keys_pressed
        },
        forall|pressed: bool|
            {
                let after = #[trigger] input.key(key, pressed);
                &&& after.keys_pressed.contains(other) == input.keys_pressed.contains(other)
                &&& after.keys_released.contains(other) == input.keys_released.contains(other)
                &&& after.keys_held.contains(other) == input.keys_held.contains(other)
                &&& after.buttons_pressed == input.buttons_pressed
                &&& after.buttons_released == input.buttons_released
                &&& after.buttons_held == input.buttons_held
                &&& after.focused == input.focused
                &&& after.close_asked == input.close_asked
                &&& after.resolution == input.resolution
                &&& after.began == input.began
                &&& after.measured == input.measured
            },
{
}

/// A touch acts on the left button and on nothing else: it goes down with the
/// start of the touch and up with its end, whether regular or not.
pub proof fn law_a_touch_acts_on_the_left_button_only(input: InputView)
    ensures
        input.touched(TouchPhase::Started) == input.button(MouseButton::Left, true),
        input.touched(TouchPhase::Ended) == input.button(MouseButton::Left, false),
        input.touched(TouchPhase::Cancelled) == input.button(MouseButton::Left, false),
        input.touched(TouchPhase::Moved) == input,
{
}

/// Losing the focus, or getting it back, lets go of everything that is held
/// and forgets what changed; the request to close and the resolution stay. To
/// get the focus that one has changes nothing.
pub proof fn law_the_focus_takes_everything_along(
    input: InputView,
    gained: bool,
    key: KeyCode,
    button: MouseButton,
)
    ensures
        input.focus(gained).focused == gained,
        input.focused && gained ==> input.focus(gained) == input,
        !(input.focused && gained) ==> {
            let after = input.focus(gained);
            &&& !after.keys_held.contains(key)
            &&& !after.keys_pressed.contains(key)
            &&& !after.keys_released.contains(key)
            &&& !after.buttons_held.contains(button)
            &&& !after.buttons_pressed.contains(button)
            &&& !after.buttons_released.contains(button)
        },
        input.focus(gained).close_asked == input.close_asked,
        input.focus(gained).resolution == input.resolution,
        input.focus(gained).began == input.began,
        input.focus(gained).measured == input.measured,
{
}

/// Each change is taken in as what it is.
pub proof fn law_each_change_is_taken_in(
    input: InputView,
    phase: TouchPhase,
    button: MouseButton,
    key: KeyCode,
    flag: bool,
    width: u32,
    height: u32,
)
    ensures
        input.taken(InputChange::Touch(phase)) == input.touched(phase),
        input.taken(InputChange::Button(button, flag)) == input.button(button, flag),
        input.taken(InputChange::Key(key, flag)) == input.key(key, flag),
        input.taken(InputChange::Window(WindowChange::Close)) == (InputView {
            close_asked: true,
            ..input
        }),
        input.taken(InputChange::Window(WindowChange::Focus(flag))) == input.focus(flag),
        input.taken(InputChange::Window(WindowChange::Resized(width, height))) == (InputView {
            resolution: Some((width, height)),
            ..input
        }),
        input.taken(InputChange::Window(WindowChange::Nothing)) == input,
{
}

/// Events are taken in one after another: a list in two parts is the first
/// part and then the second, and a single event is the change that it is.
pub proof fn law_events_are_taken_in_order(
    input: InputView,
    first: Seq<WindowEvent>,
    second: Seq<WindowEvent>,
    event: WindowEvent,
)
    ensures
        input.taken_all(first + second) == input.taken_all(first).taken_all(second),
        input.taken_all(Seq::empty()) == input,
        input.taken_all(seq![event]) == input.taken(change_of(event)),
    decreases second.len(),
{
    assert(seq![event].drop_last() =~= Seq::empty());
    assert(input.taken_all(seq![event].drop_last()) == input);
    if second.len() == 0 {
        assert(first + second =~= first);
    } else {
        law_events_are_taken_in_order(input, first, second.drop_last(), event);
        assert((first + second).drop_last() =~= first + second.drop_last());
    }
}

/// A window event is a touch, or else it is about a button, or else about a
/// key, or else about the window as a whole.
pub proof fn law_what_an_event_is(event: WindowEvent)
    ensures
        touch_of(event) is Some ==> change_of(event) == InputChange::Touch(touch_of(event)->Some_0),
        touch_of(event) is None && button_of(event) is Some ==> change_of(event)
            == InputChange::Button(button_of(event)->Some_0.0, button_of(event)->Some_0.1),
        touch_of(event) is None && button_of(event) is None && key_of(event) is Some ==> change_of(
            event,
        ) == InputChange::Key(key_of(event)->Some_0.0, key_of(event)->Some_0.1),
        touch_of(event) is None && button_of(event) is None && key_of(event) is None ==> change_of(
            event,
        ) == InputChange::Window(window_change_of(event)),
{
}

/// The named buttons are tracked, and the first of those without a name of
/// their own. An event can be taken in unless it is about another button.
pub proof fn law_which_buttons_are_tracked(event: WindowEvent, number: u16)
    ensures
        is_tracked(MouseButton::Left),
        is_tracked(MouseButton::Right),
        is_tracked(MouseButton::Middle),
        is_tracked(MouseButton::Back),
        is_tracked(MouseButton::Forward),
        is_tracked(MouseButton::Other(number)) <==> number < 250,
        button_of(event) is None ==> is_acceptable(event),
        button_of(event) is Some ==> (is_acceptable(event) <==> is_tracked(
            button_of(event)->Some_0.0,
        )),
{
}

/// A touch moves the pointer to where it is, and then presses or releases the
/// left button, if it starts or ends. Any other event goes to what tracks the
/// input as it is.
pub proof fn law_a_touch_moves_the_pointer_first(
    before: WinitInputHelper,
    event: WindowEvent,
    after: WinitInputHelper,
)
    requires
        window_event_taken(before, event, after),
    ensures
        input_of(after) == input_of(before).taken(change_of(event)),
        ({
            let there = after_window_event(before, cursor_event_of(event)->Some_0);
            &&& touch_of(event) is None ==> after == after_window_event(before, event)
            &&& touch_of(event) == Some(TouchPhase::Moved) ==> after == there
            &&& touch_of(event) == Some(TouchPhase::Started) ==> after == after_window_event(
                there,
                button_event_of(event, MouseButton::Left, true)->Some_0,
            )
            &&& touch_of(event) == Some(TouchPhase::Ended) || touch_of(event) == Some(
                TouchPhase::Cancelled,
            ) ==> after == after_window_event(
                there,
                button_event_of(event, MouseButton::Left, false)->Some_0,
            )
        }),
{
}

/// A step takes in every event once: after the last step is forgotten, those
/// of the window in order, then those of devices in order, and then the step
/// ends. `states` is what tracks the input before the first event, between
/// every two, and after the last.
pub proof fn law_a_step_takes_in_every_event(
    before: WinitInputHelper,
    window_events: Seq<WindowEvent>,
    device_events: Seq<DeviceEvent>,
    after: WinitInputHelper,
) -> (states: Seq<WinitInputHelper>)
    requires
        fed(before, window_events, device_events, after),
    ensures
        states.len() == window_events.len() + device_events.len() + 1,
        input_of(states.first()) == input_of(before).stepped(),
        forall|i: int|
            0 <= i < window_events.len() ==> window_event_taken(
                states[i],
                #[trigger] window_events[i],
                states[i + 1],
            ),
        forall|i: int|
            0 <= i < device_events.len() ==> states[window_events.len() + i + 1]
                == after_device_event(
                states[window_events.len() + i],
                #[trigger] device_events[i],
            ),
        input_of(after) == input_of(states.last()).ended(),
{
    choose|states: Seq<WinitInputHelper>|
        {
            &&& #[trigger] feed_trace(window_events, device_events, states)
            &&& input_of(states.first()) == input_of(before).stepped()
            &&& input_of(after) == input_of(states.last()).ended()
        }
}

/// To end a step concerns its time alone: how long it took is known if it had
/// begun, and a next one is timed from there. To begin one forgets the time of
/// the last.
pub proof fn law_steps_are_timed(input: InputView)
    ensures
        input.ended() == (InputView { began: true, measured: input.began, ..input }),
        input.stepped().began,
        !input.stepped().measured,
        input.stepped().ended().measured,
        input.stepped().focused == input.focused,
{
}

/// At first nothing is held and nothing has changed, the window has the focus,
/// its resolution is not known, and no step has begun.
pub proof fn law_there_is_no_input_at_first(key: KeyCode, button: MouseButton)
    ensures
        ({
            let input = InputView::initial();
            &&& !input.keys_pressed.contains(key)
            &&& !input.keys_released.contains(key)
            &&& !input.keys_held.contains(key)
            &&& !input.buttons_pressed.contains(button)
            &&& !input.buttons_released.contains(button)
            &&& !input.buttons_held.contains(button)
            &&& input.focused
            &&& !input.close_asked
            &&& input.resolution is None
            &&& !input.began
            &&& !input.measured
        }),
{
}

/// A key that is pressed and let go within one step is seen to do both, and
/// is not held after it.
pub proof fn law_a_short_press_is_seen(input: InputView, key: KeyCode, button: MouseButton)
    requires
        input.focused,
        !input.keys_held.contains(key),
    ensures
        ({
            let after = input.key(key, true).key(key, false);
            &&& after.keys_pressed.contains(key)
            &&& after.keys_released.contains(key)
            &&& !after.keys_held.contains(key)
        }),
        ({
            let after = input.button(button, true).button(button, false);
            &&& after.buttons_pressed.contains(button)
            &&& after.buttons_released.contains(button)
            &&& !after.buttons_held.contains(button)
        }),
{
}

// ---------------------------------------------------------------------------
// Laws of the operations
// ---------------------------------------------------------------------------

/// One whole step: what changed in the last one is forgotten, every event is
/// taken in, in order, and the step is measured. The answers go by it.
pub proof fn law_a_whole_step(
    input: &mut Input,
    window_events: Vec<WindowEvent>,
    device_events: Vec<DeviceEvent>,
    key: KeyCode,
    button: MouseButton,
    answers: (bool, bool, bool, bool, bool, bool, bool),
)
    requires
        call_ensures(Input::feed, (input, window_events, device_events), ()),
        is_tracked(button),
        call_ensures(Input::key_pressed, (&*final(input), key), answers.0),
        call_ensures(Input::key_released, (&*final(input), key), answers.1),
        call_ensures(Input::key_held, (&*final(input), key), answers.2),
        call_ensures(Input::mouse_pressed, (&*final(input), button), answers.3),
        call_ensures(Input::mouse_released, (&*final(input), button), answers.4),
        call_ensures(Input::mouse_held, (&*final(input), button), answers.5),
        call_ensures(Input::close_requested, (&*final(input),), answers.6),
    ensures
        ({
            let after = old(input)@.stepped().taken_all(window_events@);
            &&& answers.0 == after.keys_pressed.contains(key)
            &&& answers.1 == after.keys_released.contains(key)
            &&& answers.2 == after.keys_held.contains(key)
            &&& answers.3 == after.buttons_pressed.contains(button)
            &&& answers.4 == after.buttons_released.contains(button)
            &&& answers.5 == after.buttons_held.contains(button)
            &&& answers.6 == after.close_asked
        }),
        final(input)@.measured,
        window_events@.len() == 0 ==> !answers.0 && !answers.1 && !answers.3 && !answers.4
            && !answers.6 && answers.2 == old(input)@.keys_held.contains(key) && answers.5 == old(
            input,
        )@.buttons_held.contains(button),
{
    lemma_taking_keeps_the_time(old(input)@.stepped(), window_events@);
}

proof fn lemma_taking_keeps_the_time(input: InputView, events: Seq<WindowEvent>)
    ensures
        input.taken_all(events).began == input.began,
        input.taken_all(events).measured == input.measured,
    decreases events.len(),
{
    if events.len() > 0 {
        lemma_taking_keeps_the_time(input, events.drop_last());
    }
}

/// A step at the edge: what changed is forgotten when a step begins, its time
/// is known once it ends, and a device event changes nothing that is tracked
/// here. What is held stays.
pub proof fn law_beginning_and_ending_a_step(
    fresh: Input,
    beginning: &mut Input,
    ending: &mut Input,
    moving: &mut Input,
    event: &DeviceEvent,
    key: KeyCode,
    button: MouseButton,
)
    requires
        call_ensures(Input::new, (), fresh),
        call_ensures(Input::step, (beginning,), ()),
        call_ensures(Input::end_step, (ending,), ()),
        call_ensures(Input::process_device_event, (moving, event), ()),
    ensures
        !fresh@.keys_held.contains(key) && !fresh@.buttons_held.contains(button),
        !fresh@.keys_pressed.contains(key) && !fresh@.buttons_pressed.contains(button),
        fresh@.focused,
        fresh@.resolution is None,
        !final(beginning)@.keys_pressed.contains(key),
        !final(beginning)@.keys_released.contains(key),
        !final(beginning)@.buttons_pressed.contains(button),
        !final(beginning)@.buttons_released.contains(button),
        !final(beginning)@.close_asked,
        final(beginning)@.keys_held == old(beginning)@.keys_held,
        final(beginning)@.buttons_held == old(beginning)@.buttons_held,
        final(beginning)@.focused == old(beginning)@.focused,
        final(beginning)@.resolution == old(beginning)@.resolution,
        final(ending)@.measured == old(ending)@.began,
        final(ending)@.keys_pressed == old(ending)@.keys_pressed,
        final(ending)@.keys_held == old(ending)@.keys_held,
        final(ending)@.buttons_pressed == old(ending)@.buttons_pressed,
        final(ending)@.buttons_held == old(ending)@.buttons_held,
        final(moving)@ == old(moving)@,
        final(moving).tracker() == after_device_event(old(moving).tracker(), *event),
{
}

/// A window event is taken in as what it is: a key or a button goes down or
/// up, a touch acts as the left button, a close is asked for, the focus or the
/// size changes.
pub proof fn law_taking_in_a_window_event(
    input: &mut Input,
    event: &WindowEvent,
    key: KeyCode,
    button: MouseButton,
)
    requires
        call_ensures(Input::process_window_event, (input, event), ()),
        old(input)@.focused,
    ensures
        touch_of(*event) == Some(TouchPhase::Started) ==> final(input)@.buttons_held.contains(
            MouseButton::Left,
        ) && final(input)@.buttons_pressed.contains(MouseButton::Left),
        touch_of(*event) == Some(TouchPhase::Ended) || touch_of(*event) == Some(
            TouchPhase::Cancelled,
        ) ==> !final(input)@.buttons_held.contains(MouseButton::Left) && final(
            input)@.buttons_released.contains(MouseButton::Left),
        touch_of(*event) == Some(TouchPhase::Moved) ==> final(input)@ == old(input)@,
        touch_of(*event) is None && button_of(*event) == Some((button, true)) ==> final(
            input)@.buttons_held.contains(button) && final(input)@.buttons_pressed.contains(button),
        touch_of(*event) is None && button_of(*event) == Some((button, false)) ==> !final(
            input)@.buttons_held.contains(button) && final(input)@.buttons_released.contains(
            button,
        ),
        touch_of(*event) is None && button_of(*event) is None && key_of(*event) == Some(
            (key, true),
        ) ==> final(input)@.keys_held.contains(key) && (old(input)@.keys_held.contains(key)
            || final(input)@.keys_pressed.contains(key)),
        touch_of(*event) is None && button_of(*event) is None && key_of(*event) == Some(
            (key, false),
        ) ==> !final(input)@.keys_held.contains(key) && final(input)@.keys_released.contains(key),
        touch_of(*event) is None && button_of(*event) is None && key_of(*event) is None ==> {
            &&& window_change_of(*event) is Close ==> final(input)@.close_asked
            &&& window_change_of(*event) == WindowChange::Focus(false) ==> !final(
                input)@.focused && !final(input)@.keys_held.contains(key)
            &&& window_change_of(*event) is Resized ==> final(input)@.resolution == Some(
                (
                    window_change_of(*event)->Resized_0,
                    window_change_of(*event)->Resized_1,
                ),
            )
            &&& window_change_of(*event) is Nothing ==> final(input)@ == old(input)@
        },
        touch_of(*event) is None ==> final(input).tracker() == after_window_event(
            old(input).tracker(),
            *event,
        ),
{
}

/// An event can be taken in unless it is about a mouse button that there is no
/// room for.
pub proof fn law_which_events_are_accepted(event: &WindowEvent, ok: bool)
    requires
        call_ensures(accepts, (event,), ok),
    ensures
        ok <==> (button_of(*event) matches Some((MouseButton::Other(number), _)) ==> number < 250),
{
}

/// The resolution is the one of the last resizing, and the tracker is at hand.
pub proof fn law_the_resolution_is_known_once_told(
    input: &Input,
    resolution: Option<(u32, u32)>,
    helper: &WinitInputHelper,
    event: &WindowEvent,
    change: InputChange,
)
    requires
        call_ensures(Input::resolution, (input,), resolution),
        call_ensures(Input::raw, (input,), helper),
        call_ensures(input_change, (event,), change),
    ensures
        resolution == input@.resolution,
        *helper == input.tracker(),
        touch_of(*event) is Some ==> change == InputChange::Touch(touch_of(*event)->Some_0),
        touch_of(*event) is None && button_of(*event) is Some ==> change == InputChange::Button(
            button_of(*event)->Some_0.0,
            button_of(*event)->Some_0.1,
        ),
        touch_of(*event) is None && button_of(*event) is None && key_of(*event) is Some ==> change
            == InputChange::Key(key_of(*event)->Some_0.0, key_of(*event)->Some_0.1),
        touch_of(*event) is None && button_of(*event) is None && key_of(*event) is None ==> change
            == InputChange::Window(window_change_of(*event)),
{
}

} // verus!
