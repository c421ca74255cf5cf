use ssr_core::input::devicequery::{from_dq_button, DeviceQueryBackend};
use ssr_core::input::{is_wayland, Button};
use ssr_core::text::{is_shift, key_to_token, KeyToken, Keycode};
use ssr_core::Lang;

fn inserted(k: Keycode, shift: bool) -> Option<String> {
    match key_to_token(&k, shift) {
        Some(KeyToken::Insert(s)) => Some(s),
        _ => None,
    }
}

#[test]
fn keys_translate_with_shift() {
    assert!(matches!(key_to_token(&Keycode::A, false), Some(KeyToken::Insert(s)) if s == "a"));
    assert!(matches!(key_to_token(&Keycode::A, true), Some(KeyToken::Insert(s)) if s == "A"));
    assert!(matches!(key_to_token(&Keycode::Key1, true), Some(KeyToken::Insert(s)) if s == "!"));
    assert!(matches!(key_to_token(&Keycode::Backspace, false), Some(KeyToken::Backspace)));
    assert!(key_to_token(&Keycode::F5, false).is_none());
}

#[test]
fn symbols_follow_the_us_layout() {
    assert_eq!(inserted(Keycode::Z, true).as_deref(), Some("Z"));
    assert_eq!(inserted(Keycode::Key0, true).as_deref(), Some(")"));
    assert_eq!(inserted(Keycode::Key0, false).as_deref(), Some("0"));
    assert_eq!(inserted(Keycode::Numpad7, true).as_deref(), Some("7"));
    assert_eq!(inserted(Keycode::Enter, false).as_deref(), Some("\n"));
    assert_eq!(inserted(Keycode::NumpadEnter, true).as_deref(), Some("\n"));
    assert_eq!(inserted(Keycode::Tab, false).as_deref(), Some("\t"));
    assert_eq!(inserted(Keycode::BackSlash, false).as_deref(), Some("\\"));
    assert_eq!(inserted(Keycode::Apostrophe, true).as_deref(), Some("\""));
    assert_eq!(inserted(Keycode::Grave, true).as_deref(), Some("~"));
    assert_eq!(inserted(Keycode::Space, true).as_deref(), Some(" "));
    assert!(key_to_token(&Keycode::LShift, false).is_none());
    assert!(key_to_token(&Keycode::Up, true).is_none());
    assert!(key_to_token(&Keycode::NumpadEquals, false).is_none());
    assert!(matches!(key_to_token(&Keycode::Backspace, true), Some(KeyToken::Backspace)));
}

#[test]
fn shift_keys_are_recognized() {
    assert!(is_shift(&Keycode::LShift));
    assert!(is_shift(&Keycode::RShift));
    assert!(!is_shift(&Keycode::LControl));
    assert!(!is_shift(&Keycode::A));
}

#[test]
fn device_query_buttons() {
    assert_eq!(from_dq_button(1), Button::Left);
    assert_eq!(from_dq_button(2), Button::Middle);
    assert_eq!(from_dq_button(3), Button::Right);
    assert_eq!(from_dq_button(4), Button::Other(4));
    assert_eq!(from_dq_button(0x1_0005), Button::Other(5));
    assert_eq!(DeviceQueryBackend.name(), "device_query (X11/Windows/macOS)");
}

#[test]
fn button_labels() {
    assert_eq!(Button::Left.label(Lang::Fr), "gauche");
    assert_eq!(Button::Middle.label(Lang::En), "middle");
    assert_eq!(Button::Right.label(Lang::Fr), "droit");
    assert_eq!(Button::Other(12).label(Lang::Fr), "bouton 12");
    assert_eq!(Button::Other(0).label(Lang::En), "button 0");
    assert_eq!(Button::Other(65535).label(Lang::En), "button 65535");
}

#[test]
fn wayland_detection() {
    assert!(is_wayland(Some("wayland".to_string()), false));
    assert!(is_wayland(Some("WayLand".to_string()), false));
    assert!(!is_wayland(Some("x11".to_string()), false));
    assert!(!is_wayland(Some("waylandx".to_string()), false));
    assert!(!is_wayland(None, false));
    assert!(is_wayland(None, true));
    assert!(is_wayland(Some("tty".to_string()), true));
}
