use ssr_core::input::evdev_backend::{keycode, mouse_button, translate, EvdevBackend};
use ssr_core::input::{Button, InputEvent};
use ssr_core::text::Keycode;

// Codes from `input-event-codes.h`.
const KEY_A: u16 = 30;
const KEY_LEFTSHIFT: u16 = 42;
const BTN_LEFT: u16 = 0x110;
const BTN_RIGHT: u16 = 0x111;
const BTN_MIDDLE: u16 = 0x112;

#[test]
fn keycode_maps_known_codes() {
    assert_eq!(keycode(KEY_A), Some(Keycode::A));
    assert_eq!(keycode(KEY_LEFTSHIFT), Some(Keycode::LShift));
    assert_eq!(keycode(28), Some(Keycode::Enter));
    assert_eq!(keycode(57), Some(Keycode::Space));
}

#[test]
fn keycode_rejects_unknown_code() {
    // A mouse button is not a keyboard key.
    assert_eq!(keycode(BTN_LEFT), None);
    // Unmapped code (KEY_F1 = 59, outside the table).
    assert_eq!(keycode(59), None);
}

#[test]
fn mouse_button_maps_the_three_buttons() {
    assert_eq!(mouse_button(BTN_LEFT), Some(Button::Left));
    assert_eq!(mouse_button(BTN_RIGHT), Some(Button::Right));
    assert_eq!(mouse_button(BTN_MIDDLE), Some(Button::Middle));
    assert_eq!(mouse_button(KEY_A), None);
}

#[test]
fn translate_key_press_and_release() {
    assert!(matches!(translate(KEY_A, 1), Some(InputEvent::KeyDown(Keycode::A))));
    assert!(matches!(translate(KEY_A, 0), Some(InputEvent::KeyUp(Keycode::A))));
}

#[test]
fn translate_ignores_key_autorepeat() {
    // value == 2: auto-repeat, ignored.
    assert!(translate(KEY_A, 2).is_none());
}

#[test]
fn translate_mouse_only_on_release() {
    // Press (value == 1): nothing, the click is captured on release.
    assert!(translate(BTN_LEFT, 1).is_none());
    // Release (value == 0): MouseUp without position (evdev/Wayland).
    assert!(matches!(
        translate(BTN_LEFT, 0),
        Some(InputEvent::MouseUp { button: Button::Left, pos: None })
    ));
}

#[test]
fn translate_unknown_key_is_none() {
    assert!(translate(59, 1).is_none());
}

#[test]
fn keycode_table_covers_rows_and_modifiers() {
    assert_eq!(keycode(2), Some(Keycode::Key1));
    assert_eq!(keycode(11), Some(Keycode::Key0));
    assert_eq!(keycode(14), Some(Keycode::Backspace));
    assert_eq!(keycode(16), Some(Keycode::Q));
    assert_eq!(keycode(44), Some(Keycode::Z));
    assert_eq!(keycode(54), Some(Keycode::RShift));
    assert_eq!(keycode(96), Some(Keycode::NumpadEnter));
    assert_eq!(keycode(100), Some(Keycode::RAlt));
    assert_eq!(keycode(0), None);
    assert_eq!(keycode(55), None);
}

#[test]
fn translate_mouse_buttons_ignore_repeat_and_press() {
    assert!(translate(BTN_RIGHT, 2).is_none());
    assert!(matches!(
        translate(BTN_MIDDLE, 0),
        Some(InputEvent::MouseUp { button: Button::Middle, pos: None })
    ));
    assert!(translate(KEY_LEFTSHIFT, -1).is_none());
}

#[test]
fn evdev_backend_name() {
    assert_eq!(EvdevBackend.name(), "evdev (/dev/input)");
}
