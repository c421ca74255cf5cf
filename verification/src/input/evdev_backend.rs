//! Translation of raw Linux input events (`/dev/input`, read under Wayland
//! as under X11) into normalized events.

use vstd::prelude::*;

use super::{Button, InputEvent};
use crate::text::Keycode;

verus! {

/// Reads the input devices directly (`/dev/input`).
pub struct EvdevBackend;

impl EvdevBackend {
    /// Readable name (for logs and diagnostics).
    pub fn name(&self) -> (r: &'static str)
        ensures
            r@ == "evdev (/dev/input)"@,
    {
        "evdev (/dev/input)"
    }
}

/// The mouse button of a Linux button code (`BTN_LEFT`, `BTN_RIGHT`,
/// `BTN_MIDDLE`).
pub open spec fn mouse_button_spec(code: u16) -> Option<Button> {
    if code == 0x110 {
        Some(Button::Left)
    } else if code == 0x111 {
        Some(Button::Right)
    } else if code == 0x112 {
        Some(Button::Middle)
    } else {
        None
    }
}

/// The key of a Linux key code (`input-event-codes.h`).
pub open spec fn keycode_spec(code: u16) -> Option<Keycode> {
    match code {
        2 => Some(Keycode::Key1),
        3 => Some(Keycode::Key2),
        4 => Some(Keycode::Key3),
        5 => Some(Keycode::Key4),
        6 => Some(Keycode::Key5),
        7 => Some(Keycode::Key6),
        8 => Some(Keycode::Key7),
        9 => Some(Keycode::Key8),
        10 => Some(Keycode::Key9),
        11 => Some(Keycode::Key0),
        12 => Some(Keycode::Minus),
        13 => Some(Keycode::Equal),
        14 => Some(Keycode::Backspace),
        15 => Some(Keycode::Tab),
        16 => Some(Keycode::Q),
        17 => Some(Keycode::W),
        18 => Some(Keycode::E),
        19 => Some(Keycode::R),
        20 => Some(Keycode::T),
        21 => Some(Keycode::Y),
        22 => Some(Keycode::U),
        23 => Some(Keycode::I),
        24 => Some(Keycode::O),
        25 => Some(Keycode::P),
        26 => Some(Keycode::LeftBracket),
        27 => Some(Keycode::RightBracket),
        28 => Some(Keycode::Enter),
        29 => Some(Keycode::LControl),
        30 => Some(Keycode::A),
        31 => Some(Keycode::S),
        32 => Some(Keycode::D),
        33 => Some(Keycode::F),
        34 => Some(Keycode::G),
        35 => Some(Keycode::H),
        36 => Some(Keycode::J),
        37 => Some(Keycode::K),
        38 => Some(Keycode::L),
        39 => Some(Keycode::Semicolon),
        40 => Some(Keycode::Apostrophe),
        41 => Some(Keycode::Grave),
        42 => Some(Keycode::LShift),
        43 => Some(Keycode::BackSlash),
        44 => Some(Keycode::Z),
        45 => Some(Keycode::X),
        46 => Some(Keycode::C),
        47 => Some(Keycode::V),
        48 => Some(Keycode::B),
        49 => Some(Keycode::N),
        50 => Some(Keycode::M),
        51 => Some(Keycode::Comma),
        52 => Some(Keycode::Dot),
        53 => Some(Keycode::Slash),
        54 => Some(Keycode::RShift),
        56 => Some(Keycode::LAlt),
        57 => Some(Keycode::Space),
        96 => Some(Keycode::NumpadEnter),
        97 => Some(Keycode::RControl),
        100 => Some(Keycode::RAlt),
        _ => None,
    }
}

/// The normalized event of a raw key event (`value`: 1 press, 0 release,
/// 2 auto-repeat): a mouse button gives `MouseUp` without position on
/// release only; a known key gives `KeyDown` on press and `KeyUp` on
/// release; everything else gives nothing.
pub open spec fn translate_spec(code: u16, value: i32) -> Option<InputEvent> {
    match mouse_button_spec(code) {
        Some(button) => if value == 0 {
            Some(InputEvent::MouseUp { button, pos: None })
        } else {
            None
        },
        None => match keycode_spec(code) {
            Some(key) => if value == 1 {
                Some(InputEvent::KeyDown(key))
            } else if value == 0 {
                Some(InputEvent::KeyUp(key))
            } else {
                None
            },
            None => None,
        },
    }
}

/// Translates a raw `EV_KEY` (Linux code, value) into a normalized event.
///
/// `value`: 1 = press, 0 = release, 2 = auto-repeat.
pub fn translate(code: u16, value: i32) -> (r: Option<InputEvent>)
    ensures
        r == translate_spec(code, value),
{
    if let Some(button) = mouse_button(code) {
        // Captured on release, like the device_query backend.
        if value == 0 {
            return Some(InputEvent::MouseUp { button, pos: None });
        }
        return None;
    }
    let key = match keycode(code) {
        Some(k) => k,
        None => return None,
    };
    match value {
        1 => Some(InputEvent::KeyDown(key)),
        0 => Some(InputEvent::KeyUp(key)),
        _ => None,  // auto-repeat ignored
    }
}

/// The mouse button of a Linux button code.
pub fn mouse_button(code: u16) -> (r: Option<Button>)
    ensures
        r == mouse_button_spec(code),
{
    match code {
        0x110 => Some(Button::Left),
        0x111 => Some(Button::Right),
        0x112 => Some(Button::Middle),
        _ => None,
    }
}

/// Maps a Linux key code (`input-event-codes.h`) to a [`Keycode`].
pub fn keycode(code: u16) -> (r: Option<Keycode>)
    ensures
        r == keycode_spec(code),
{
    match code {
        2 => Some(Keycode::Key1),
        3 => Some(Keycode::Key2),
        4 => Some(Keycode::Key3),
        5 => Some(Keycode::Key4),
        6 => Some(Keycode::Key5),
        7 => Some(Keycode::Key6),
        8 => Some(Keycode::Key7),
        9 => Some(Keycode::Key8),
        10 => Some(Keycode::Key9),
        11 => Some(Keycode::Key0),
        12 => Some(Keycode::Minus),
        13 => Some(Keycode::Equal),
        14 => Some(Keycode::Backspace),
        15 => Some(Keycode::Tab),
        16 => Some(Keycode::Q),
        17 => Some(Keycode::W),
        18 => Some(Keycode::E),
        19 => Some(Keycode::R),
        20 => Some(Keycode::T),
        21 => Some(Keycode::Y),
        22 => Some(Keycode::U),
        23 => Some(Keycode::I),
        24 => Some(Keycode::O),
        25 => Some(Keycode::P),
        26 => Some(Keycode::LeftBracket),
        27 => Some(Keycode::RightBracket),
        28 => Some(Keycode::Enter),
        29 => Some(Keycode::LControl),
        30 => Some(Keycode::A),
        31 => Some(Keycode::S),
        32 => Some(Keycode::D),
        33 => Some(Keycode::F),
        34 => Some(Keycode::G),
        35 => Some(Keycode::H),
        36 => Some(Keycode::J),
        37 => Some(Keycode::K),
        38 => Some(Keycode::L),
        39 => Some(Keycode::Semicolon),
        40 => Some(Keycode::Apostrophe),
        41 => Some(Keycode::Grave),
        42 => Some(Keycode::LShift),
        43 => Some(Keycode::BackSlash),
        44 => Some(Keycode::Z),
        45 => Some(Keycode::X),
        46 => Some(Keycode::C),
        47 => Some(Keycode::V),
        48 => Some(Keycode::B),
        49 => Some(Keycode::N),
        50 => Some(Keycode::M),
        51 => Some(Keycode::Comma),
        52 => Some(Keycode::Dot),
        53 => Some(Keycode::Slash),
        54 => Some(Keycode::RShift),
        56 => Some(Keycode::LAlt),
        57 => Some(Keycode::Space),
        96 => Some(Keycode::NumpadEnter),
        97 => Some(Keycode::RControl),
        100 => Some(Keycode::RAlt),
        _ => None,
    }
}

} // verus!
