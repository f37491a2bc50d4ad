use vstd::prelude::*;
use std::collections::HashSet;
use crate::window::PhysicalSize;

verus! {

broadcast use vstd::std_specs::hash::group_hash_axioms;

/// Bit of the modifier state that is set while a Shift key is held.
pub const MODIFIER_SHIFT: u32 = 0x4;
/// Bit of the modifier state that is set while a Control key is held.
pub const MODIFIER_CONTROL: u32 = 0x20;
/// Bit of the modifier state that is set while an Alt key is held.
pub const MODIFIER_ALT: u32 = 0x100;
/// Bit of the modifier state that is set while a Super (logo) key is held.
pub const MODIFIER_SUPER: u32 = 0x800;

/// A mouse button.
#[derive(Clone, Copy, PartialEq, Eq, Structural, Debug)]
pub enum MouseButton {
    Left,
    Right,
    Middle,
    Back,
    Forward,
    Other(u16),
}

/// The number under which a mouse button is kept in a button set.
pub open spec fn button_code(b: MouseButton) -> u32 {
    match b {
        MouseButton::Left => 0,
        MouseButton::Right => 1,
        MouseButton::Middle => 2,
        MouseButton::Back => 3,
        MouseButton::Forward => 4,
        MouseButton::Other(n) => (5 + n) as u32,
    }
}

impl MouseButton {
    /// The number under which this button is kept in a button set.
    pub fn code(&self) -> (c: u32)
        ensures
            c == button_code(*self),
    {
        match self {
            MouseButton::Left => 0,
            MouseButton::Right => 1,
            MouseButton::Middle => 2,
            MouseButton::Back => 3,
            MouseButton::Forward => 4,
            MouseButton::Other(n) => 5 + *n as u32,
        }
    }
}

/// Whether a key or button went down or up.
#[derive(Clone, Copy, PartialEq, Eq, Structural, Debug)]
pub enum ElementState {
    Pressed,
    Released,
}

/// A window or loop event, reduced to what the input state reads.
/// Keys are given by a code that the caller assigns one-to-one to physical keys.
#[derive(Clone, Copy, PartialEq, Eq, Structural, Debug)]
pub enum InputEvent {
    CloseRequested,
    Resized(PhysicalSize),
    Keyboard { key: u32, state: ElementState },
    MouseInput { button: MouseButton, state: ElementState },
    ModifiersChanged(u32),
    AboutToWait,
    Other,
}

/// The abstract input state: pressed keys and buttons now and at the end of the
/// previous frame, modifier bits, and the window requests not yet handled.
pub struct InputState {
    pub keys: Set<u32>,
    pub keys_prev: Set<u32>,
    pub buttons: Set<u32>,
    pub buttons_prev: Set<u32>,
    pub modifiers: u32,
    pub close_requested: bool,
    pub window_resize: Option<PhysicalSize>,
}

/// The state after one event.
pub open spec fn apply_event(s: InputState, e: InputEvent) -> InputState {
    match e {
        InputEvent::CloseRequested => InputState { close_requested: true, ..s },
        InputEvent::Resized(size) => InputState { window_resize: Some(size), ..s },
        InputEvent::Keyboard { key, state } => match state {
            ElementState::Pressed => InputState { keys: s.keys.insert(key), ..s },
            ElementState::Released => InputState { keys: s.keys.remove(key), ..s },
        },
        InputEvent::MouseInput { button, state } => match state {
            ElementState::Pressed => InputState { buttons: s.buttons.insert(button_code(button)), ..s },
            ElementState::Released => InputState { buttons: s.buttons.remove(button_code(button)), ..s },
        },
        InputEvent::ModifiersChanged(bits) => InputState { modifiers: bits, ..s },
        InputEvent::AboutToWait => s,
        InputEvent::Other => s,
    }
}

/// The state at the start of the next frame: what is pressed now becomes what was
/// pressed before.
pub open spec fn after_frame(s: InputState) -> InputState {
    InputState { keys_prev: s.keys, buttons_prev: s.buttons, ..s }
}

pub open spec fn key_just_pressed(s: InputState, key: u32) -> bool {
    s.keys.contains(key) && !s.keys_prev.contains(key)
}

pub open spec fn key_just_released(s: InputState, key: u32) -> bool {
    !s.keys.contains(key) && s.keys_prev.contains(key)
}

pub open spec fn button_just_pressed(s: InputState, b: MouseButton) -> bool {
    s.buttons.contains(button_code(b)) && !s.buttons_prev.contains(button_code(b))
}

pub open spec fn button_just_released(s: InputState, b: MouseButton) -> bool {
    !s.buttons.contains(button_code(b)) && s.buttons_prev.contains(button_code(b))
}

/// What the event loop does after an event has been applied.
#[derive(Clone, Copy, PartialEq, Eq, Structural, Debug)]
pub enum LoopStep {
    /// The window asked to close: leave the loop.
    Exit,
    /// Nothing to draw yet.
    Continue,
    /// Draw a frame, first reconfiguring the surface when a size is given.
    Frame { resize: Option<PhysicalSize> },
}

/// The loop's decision on an event, and the state after it.
pub open spec fn loop_step(s: InputState, e: InputEvent) -> (InputState, LoopStep) {
    let t = apply_event(s, e);
    if t.close_requested {
        (t, LoopStep::Exit)
    } else if e == InputEvent::AboutToWait {
        (InputState { window_resize: None, ..t }, LoopStep::Frame { resize: t.window_resize })
    } else {
        (t, LoopStep::Continue)
    }
}

/// Keyboard, mouse-button and modifier state collected from window events.
pub struct EventHandle {
    keys_pressed: HashSet<u32>,
    keys_prev: HashSet<u32>,
    modifiers: u32,
    mouse_buttons_pressed: HashSet<u32>,
    mouse_buttons_prev: HashSet<u32>,
    close_requested: bool,
    window_resize: Option<PhysicalSize>,
}

/// Once every item has been copied, the copy holds exactly the items' set.
proof fn lemma_copied_all(items: Seq<&u32>, n: int, r: Set<u32>, s: Set<u32>)
    requires
        items.unref().to_set() == s,
        forall|x: u32| #[trigger] r.contains(x) <==> exists|j: int| 0 <= j < n && *items[j] == x,
    ensures
        n == items.len() ==> r == s,
{
    if n == items.len() {
        let u = items.unref();
        assert forall|x: u32| #[trigger] s.contains(x) == r.contains(x) by {
            if s.contains(x) {
                assert(u.to_set().contains(x));
                let j = choose|j: int| 0 <= j < u.len() && u[j] == x;
                assert(*items[j] == x);
            }
            if r.contains(x) {
                let j = choose|j: int| 0 <= j < n && *items[j] == x;
                assert(u[j] == x);
                assert(u.to_set().contains(x));
            }
        }
        assert(r =~= s);
    }
}

/// A new set with the same codes as `s`.
fn copy_codes(s: &HashSet<u32>) -> (r: HashSet<u32>)
    ensures
        r@ == s@,
{
    let mut r: HashSet<u32> = HashSet::new();
    for k in it: s.iter()
        invariant
            it.seq().unref().to_set() == s@,
            forall|x: u32| #[trigger] r@.contains(x)
                <==> exists|j: int| 0 <= j < it.index() && *it.seq()[j] == x,
            it.index() == it.seq().len() ==> r@ == s@,
    {
        r.insert(*k);
        proof {
            assert forall|x: u32| #[trigger] r@.contains(x)
                implies exists|j: int| 0 <= j < it.index() + 1 && *it.seq()[j] == x by {
                if x == *k {
                    assert(*it.seq()[it.index()] == x);
                }
            }
            lemma_copied_all(it.seq(), it.index() + 1, r@, s@);
        }
    }
    r
}

impl View for EventHandle {
    type V = InputState;

    closed spec fn view(&self) -> InputState {
        InputState {
            keys: self.keys_pressed@,
            keys_prev: self.keys_prev@,
            buttons: self.mouse_buttons_pressed@,
            buttons_prev: self.mouse_buttons_prev@,
            modifiers: self.modifiers,
            close_requested: self.close_requested,
            window_resize: self.window_resize,
        }
    }
}

impl EventHandle {
    /// Nothing pressed, no modifiers, no pending request.
    pub fn new() -> (r: Self)
        ensures
            r@.keys == Set::<u32>::empty(),
            r@.keys_prev == Set::<u32>::empty(),
            r@.buttons == Set::<u32>::empty(),
            r@.buttons_prev == Set::<u32>::empty(),
            r@.modifiers == 0,
            !r@.close_requested,
            r@.window_resize == None::<PhysicalSize>,
    {
        EventHandle {
            keys_pressed: HashSet::new(),
            keys_prev: HashSet::new(),
            modifiers: 0,
            mouse_buttons_pressed: HashSet::new(),
            mouse_buttons_prev: HashSet::new(),
            close_requested: false,
            window_resize: None,
        }
    }

    /// Applies one event to the state.
    pub fn process_event(&mut self, event: &InputEvent)
        ensures
            final(self)@ == apply_event(old(self)@, *event),
    {
        match event {
            InputEvent::CloseRequested => {
                self.close_requested = true;
            },
            InputEvent::Resized(size) => {
                self.window_resize = Some(*size);
            },
            InputEvent::Keyboard { key, state } => match state {
                ElementState::Pressed => {
                    self.keys_pressed.insert(*key);
                },
                ElementState::Released => {
                    self.keys_pressed.remove(key);
                },
            },
            InputEvent::MouseInput { button, state } => {
                let code: u32 = button.code();
                match state {
                    ElementState::Pressed => {
                        self.mouse_buttons_pressed.insert(code);
                    },
                    ElementState::Released => {
                        self.mouse_buttons_pressed.remove(&code);
                    },
                }
            },
            InputEvent::ModifiersChanged(bits) => {
                self.modifiers = *bits;
            },
            InputEvent::AboutToWait => {},
            InputEvent::Other => {},
        }
        proof {
            assert(self@ =~= apply_event(old(self)@, *event));
        }
    }

    /// Closes a frame: the pressed keys and buttons become the previous ones.
    pub fn end_frame(&mut self)
        ensures
            final(self)@ == after_frame(old(self)@),
    {
        self.keys_prev = copy_codes(&self.keys_pressed);
        self.mouse_buttons_prev = copy_codes(&self.mouse_buttons_pressed);
        proof {
            assert(self@ =~= after_frame(old(self)@));
        }
    }

    /// Takes the pending window size, if any.
    pub fn take_window_resize(&mut self) -> (r: Option<PhysicalSize>)
        ensures
            r == old(self)@.window_resize,
            final(self)@ == (InputState { window_resize: None, ..old(self)@ }),
    {
        let r = self.window_resize;
        self.window_resize = None;
        proof {
            assert(self@ =~= (InputState { window_resize: None, ..old(self)@ }));
        }
        r
    }

    /// Applies an event and says what the event loop does next: leave once a close
    /// was requested; on the idle event, draw a frame and hand over a pending resize.
    pub fn on_event(&mut self, event: &InputEvent) -> (step: LoopStep)
        ensures
            (final(self)@, step) == loop_step(old(self)@, *event),
    {
        self.process_event(event);
        if self.close_requested {
            return LoopStep::Exit;
        }
        match event {
            InputEvent::AboutToWait => {
                let resize = self.take_window_resize();
                LoopStep::Frame { resize }
            },
            _ => LoopStep::Continue,
        }
    }

    pub fn is_key_pressed(&self, key: u32) -> (b: bool)
        ensures
            b == self@.keys.contains(key),
    {
        self.keys_pressed.contains(&key)
    }

    pub fn is_key_just_pressed(&self, key: u32) -> (b: bool)
        ensures
            b == key_just_pressed(self@, key),
    {
        self.keys_pressed.contains(&key) && !self.keys_prev.contains(&key)
    }

    pub fn is_key_just_released(&self, key: u32) -> (b: bool)
        ensures
            b == key_just_released(self@, key),
    {
        !self.keys_pressed.contains(&key) && self.keys_prev.contains(&key)
    }

    pub fn is_mouse_pressed(&self, button: MouseButton) -> (b: bool)
        ensures
            b == self@.buttons.contains(button_code(button)),
    {
        self.mouse_buttons_pressed.contains(&button.code())
    }

    pub fn is_mouse_just_pressed(&self, button: MouseButton) -> (b: bool)
        ensures
            b == button_just_pressed(self@, button),
    {
        let code: u32 = button.code();
        self.mouse_buttons_pressed.contains(&code) && !self.mouse_buttons_prev.contains(&code)
    }

    pub fn is_mouse_just_released(&self, button: MouseButton) -> (b: bool)
        ensures
            b == button_just_released(self@, button),
    {
        let code: u32 = button.code();
        !self.mouse_buttons_pressed.contains(&code) && self.mouse_buttons_prev.contains(&code)
    }

    /// Whether the window has asked to close.
    pub fn close_requested(&self) -> (b: bool)
        ensures
            b == self@.close_requested,
    {
        self.close_requested
    }

    /// The window size reported since the last frame took it, if any.
    pub fn window_resize(&self) -> (r: Option<PhysicalSize>)
        ensures
            r == self@.window_resize,
    {
        self.window_resize
    }

    /// The current modifier bits.
    pub fn modifiers(&self) -> (m: u32)
        ensures
            m == self@.modifiers,
    {
        self.modifiers
    }

    pub fn is_shift(&self) -> (b: bool)
        ensures
            b == (self@.modifiers & MODIFIER_SHIFT != 0),
    {
        self.modifiers & MODIFIER_SHIFT != 0
    }

    pub fn is_ctrl(&self) -> (b: bool)
        ensures
            b == (self@.modifiers & MODIFIER_CONTROL != 0),
    {
        self.modifiers & MODIFIER_CONTROL != 0
    }

    pub fn is_alt(&self) -> (b: bool)
        ensures
            b == (self@.modifiers & MODIFIER_ALT != 0),
    {
        self.modifiers & MODIFIER_ALT != 0
    }

    pub fn is_super(&self) -> (b: bool)
        ensures
            b == (self@.modifiers & MODIFIER_SUPER != 0),
    {
        self.modifiers & MODIFIER_SUPER != 0
    }

    /// Whether every bit of `modifier` is held.
    pub fn is_modifier(&self, modifier: u32) -> (b: bool)
        ensures
            b == (self@.modifiers & modifier == modifier),
    {
        self.modifiers & modifier == modifier
    }
}

/// Distinct mouse buttons are kept under distinct codes.
pub proof fn lemma_button_code_injective(a: MouseButton, b: MouseButton)
    ensures
        button_code(a) == button_code(b) ==> a == b,
{
}

/// A key event decides whether that key is held, and leaves every other key as it was.
pub proof fn lemma_key_event_sets_key(s: InputState, key: u32, state: ElementState, other: u32)
    ensures
        apply_event(s, InputEvent::Keyboard { key, state }).keys.contains(key)
            == (state == ElementState::Pressed),
        other != key ==> apply_event(s, InputEvent::Keyboard { key, state }).keys.contains(other)
            == s.keys.contains(other),
{
}

/// A button event decides whether that button is held, and leaves every other button as it was.
pub proof fn lemma_button_event_sets_button(s: InputState, button: MouseButton, state: ElementState, other: MouseButton)
    ensures
        apply_event(s, InputEvent::MouseInput { button, state }).buttons.contains(button_code(button))
            == (state == ElementState::Pressed),
        other != button ==> apply_event(s, InputEvent::MouseInput { button, state }).buttons.contains(button_code(other))
            == s.buttons.contains(button_code(other)),
{
    lemma_button_code_injective(button, other);
}

/// A key is never both just pressed and just released; the same holds of buttons.
pub proof fn lemma_just_pressed_excludes_just_released(s: InputState, key: u32, b: MouseButton)
    ensures
        !(key_just_pressed(s, key) && key_just_released(s, key)),
        !(button_just_pressed(s, b) && button_just_released(s, b)),
{
}

/// Right after a frame ends nothing is just pressed or just released, what is held
/// stays held, the modifiers, the close request and the pending resize are as they
/// were, and ending a frame twice is the same as ending it once.
pub proof fn lemma_end_frame_settles(s: InputState, key: u32, b: MouseButton)
    ensures
        !key_just_pressed(after_frame(s), key),
        !key_just_released(after_frame(s), key),
        !button_just_pressed(after_frame(s), b),
        !button_just_released(after_frame(s), b),
        after_frame(s).keys == s.keys,
        after_frame(s).buttons == s.buttons,
        after_frame(s).modifiers == s.modifiers,
        after_frame(s).close_requested == s.close_requested,
        after_frame(s).window_resize == s.window_resize,
        after_frame(s).keys_prev == s.keys,
        after_frame(s).buttons_prev == s.buttons,
        after_frame(after_frame(s)) == after_frame(s),
{
}

/// A key pressed during a frame whose previous state did not hold it is just pressed
/// until the frame ends; a released key that was held is just released.
pub proof fn lemma_press_release_edges(s: InputState, key: u32)
    ensures
        !s.keys_prev.contains(key) ==> key_just_pressed(
            apply_event(s, InputEvent::Keyboard { key, state: ElementState::Pressed }), key),
        s.keys_prev.contains(key) ==> key_just_released(
            apply_event(s, InputEvent::Keyboard { key, state: ElementState::Released }), key),
{
}

/// A close request is never forgotten: no later event clears it, and every later
/// event makes the loop exit.
pub proof fn lemma_close_is_sticky(s: InputState, e: InputEvent)
    ensures
        s.close_requested ==> apply_event(s, e).close_requested,
        s.close_requested ==> loop_step(s, e).1 == LoopStep::Exit,
        loop_step(s, InputEvent::CloseRequested).1 == LoopStep::Exit,
{
}

/// A size reported by the window is handed to the next frame exactly once.
pub proof fn lemma_resize_reaches_next_frame(s: InputState, size: PhysicalSize)
    requires
        !s.close_requested,
    ensures
        ({
            let t = loop_step(s, InputEvent::Resized(size)).0;
            let (u, step) = loop_step(t, InputEvent::AboutToWait);
            step == LoopStep::Frame { resize: Some(size) }
                && loop_step(u, InputEvent::AboutToWait).1 == LoopStep::Frame { resize: None }
        }),
{
}

/// Asking for every bit of a single-bit modifier is the same as the dedicated query.
pub proof fn lemma_single_modifier_queries(bits: u32)
    ensures
        (bits & MODIFIER_SHIFT == MODIFIER_SHIFT) == (bits & MODIFIER_SHIFT != 0),
        (bits & MODIFIER_CONTROL == MODIFIER_CONTROL) == (bits & MODIFIER_CONTROL != 0),
        (bits & MODIFIER_ALT == MODIFIER_ALT) == (bits & MODIFIER_ALT != 0),
        (bits & MODIFIER_SUPER == MODIFIER_SUPER) == (bits & MODIFIER_SUPER != 0),
{
    assert((bits & 0x4u32 == 0x4u32) == (bits & 0x4u32 != 0)) by (bit_vector);
    assert((bits & 0x20u32 == 0x20u32) == (bits & 0x20u32 != 0)) by (bit_vector);
    assert((bits & 0x100u32 == 0x100u32) == (bits & 0x100u32 != 0)) by (bit_vector);
    assert((bits & 0x800u32 == 0x800u32) == (bits & 0x800u32 != 0)) by (bit_vector);
}

} // verus!
