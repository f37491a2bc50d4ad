use ice_spar::input::{
    ElementState, EventHandle, InputEvent, LoopStep, MouseButton, MODIFIER_ALT, MODIFIER_CONTROL,
    MODIFIER_SHIFT, MODIFIER_SUPER,
};
use ice_spar::window::PhysicalSize;

fn key(code: u32, pressed: bool) -> InputEvent {
    InputEvent::Keyboard {
        key: code,
        state: if pressed { ElementState::Pressed } else { ElementState::Released },
    }
}

#[test]
fn new_handle_is_idle() {
    let eh = EventHandle::new();
    assert!(!eh.is_key_pressed(3));
    assert!(!eh.is_mouse_pressed(MouseButton::Left));
    assert!(!eh.close_requested());
    assert_eq!(eh.window_resize(), None);
    assert_eq!(eh.modifiers(), 0);
}

#[test]
fn key_press_and_release() {
    let mut eh = EventHandle::new();
    eh.process_event(&key(7, true));
    assert!(eh.is_key_pressed(7));
    assert!(eh.is_key_just_pressed(7));
    assert!(!eh.is_key_just_released(7));
    assert!(!eh.is_key_pressed(8));
    eh.end_frame();
    assert!(eh.is_key_pressed(7));
    assert!(!eh.is_key_just_pressed(7));
    eh.process_event(&key(7, false));
    assert!(!eh.is_key_pressed(7));
    assert!(eh.is_key_just_released(7));
    eh.end_frame();
    assert!(!eh.is_key_just_released(7));
}

#[test]
fn repeated_press_keeps_one_key() {
    let mut eh = EventHandle::new();
    eh.process_event(&key(1, true));
    eh.process_event(&key(1, true));
    eh.process_event(&key(1, false));
    assert!(!eh.is_key_pressed(1));
}

#[test]
fn release_without_press_is_harmless() {
    let mut eh = EventHandle::new();
    eh.process_event(&key(4, false));
    assert!(!eh.is_key_pressed(4));
    assert!(!eh.is_key_just_released(4));
}

#[test]
fn mouse_buttons_tracked_separately() {
    let mut eh = EventHandle::new();
    eh.process_event(&InputEvent::MouseInput { button: MouseButton::Right, state: ElementState::Pressed });
    eh.process_event(&InputEvent::MouseInput { button: MouseButton::Other(0), state: ElementState::Pressed });
    assert!(eh.is_mouse_pressed(MouseButton::Right));
    assert!(eh.is_mouse_pressed(MouseButton::Other(0)));
    assert!(!eh.is_mouse_pressed(MouseButton::Left));
    assert!(!eh.is_mouse_pressed(MouseButton::Forward));
    assert!(eh.is_mouse_just_pressed(MouseButton::Right));
    eh.end_frame();
    eh.process_event(&InputEvent::MouseInput { button: MouseButton::Right, state: ElementState::Released });
    assert!(eh.is_mouse_just_released(MouseButton::Right));
    assert!(!eh.is_mouse_just_pressed(MouseButton::Other(0)));
}

#[test]
fn button_codes_are_distinct() {
    let buttons = [
        MouseButton::Left,
        MouseButton::Right,
        MouseButton::Middle,
        MouseButton::Back,
        MouseButton::Forward,
        MouseButton::Other(0),
        MouseButton::Other(1),
        MouseButton::Other(65535),
    ];
    let codes: Vec<u32> = buttons.iter().map(|b| b.code()).collect();
    assert_eq!(codes, vec![0, 1, 2, 3, 4, 5, 6, 65540]);
}

#[test]
fn modifiers_are_bits() {
    let mut eh = EventHandle::new();
    eh.process_event(&InputEvent::ModifiersChanged(MODIFIER_SHIFT | MODIFIER_ALT));
    assert!(eh.is_shift());
    assert!(eh.is_alt());
    assert!(!eh.is_ctrl());
    assert!(!eh.is_super());
    assert!(eh.is_modifier(MODIFIER_SHIFT | MODIFIER_ALT));
    assert!(!eh.is_modifier(MODIFIER_SHIFT | MODIFIER_CONTROL));
    eh.process_event(&InputEvent::ModifiersChanged(MODIFIER_CONTROL | MODIFIER_SUPER));
    assert!(eh.is_ctrl() && eh.is_super() && !eh.is_shift());
    assert_eq!(MODIFIER_SHIFT, 0b100);
    assert_eq!(MODIFIER_CONTROL, 0b100 << 3);
    assert_eq!(MODIFIER_ALT, 0b100 << 6);
    assert_eq!(MODIFIER_SUPER, 0b100 << 9);
}

#[test]
fn close_request_exits_loop() {
    let mut eh = EventHandle::new();
    assert_eq!(eh.on_event(&InputEvent::Other), LoopStep::Continue);
    assert_eq!(eh.on_event(&InputEvent::CloseRequested), LoopStep::Exit);
    assert!(eh.close_requested());
    assert_eq!(eh.on_event(&InputEvent::AboutToWait), LoopStep::Exit);
}

#[test]
fn resize_handed_to_next_frame_once() {
    let mut eh = EventHandle::new();
    let size = PhysicalSize::new(800, 600);
    assert_eq!(eh.on_event(&InputEvent::Resized(size)), LoopStep::Continue);
    assert_eq!(eh.window_resize(), Some(size));
    assert_eq!(eh.on_event(&InputEvent::AboutToWait), LoopStep::Frame { resize: Some(size) });
    assert_eq!(eh.on_event(&InputEvent::AboutToWait), LoopStep::Frame { resize: None });
}

#[test]
fn latest_resize_wins() {
    let mut eh = EventHandle::new();
    eh.process_event(&InputEvent::Resized(PhysicalSize::new(10, 20)));
    eh.process_event(&InputEvent::Resized(PhysicalSize::new(30, 40)));
    assert_eq!(eh.take_window_resize(), Some(PhysicalSize::new(30, 40)));
    assert_eq!(eh.take_window_resize(), None);
}
