//! Normalized input events, independent of the platform backend.
//!
//! - X11 / Windows / macOS: [`devicequery::DeviceQueryBackend`]
//! - Wayland (Linux): [`evdev_backend::EvdevBackend`] (reads `/dev/input`)

use vstd::prelude::*;

use crate::i18n::{pick_spec, Lang};
use crate::strings::{decimal, push_decimal};

pub use crate::text::Keycode;

pub mod devicequery;
pub mod evdev_backend;

verus! {

/// Normalized mouse button.
#[derive(Clone, Copy, Debug, PartialEq, Eq, Structural)]
pub enum Button {
    Left,
    Middle,
    Right,
    Other(u16),
}

/// The label of a button in the given language.
pub open spec fn button_label(button: Button, lang: Lang) -> Seq<char> {
    match button {
        Button::Left => pick_spec(lang, "gauche"@, "left"@),
        Button::Middle => pick_spec(lang, "milieu"@, "middle"@),
        Button::Right => pick_spec(lang, "droit"@, "right"@),
        Button::Other(n) => pick_spec(lang, "bouton "@, "button "@) + decimal(n as nat),
    }
}

impl Button {
    /// Label of the button in the given language.
    pub fn label(self, lang: Lang) -> (r: String)
        ensures
            r@ == button_label(self, lang),
    {
        match (lang, self) {
            (Lang::Fr, Button::Left) => String::from_str("gauche"),
            (Lang::Fr, Button::Middle) => String::from_str("milieu"),
            (Lang::Fr, Button::Right) => String::from_str("droit"),
            (Lang::Fr, Button::Other(n)) => {
                let mut s = String::from_str("bouton ");
                push_decimal(&mut s, n as u64);
                s
            },
            (Lang::En, Button::Left) => String::from_str("left"),
            (Lang::En, Button::Middle) => String::from_str("middle"),
            (Lang::En, Button::Right) => String::from_str("right"),
            (Lang::En, Button::Other(n)) => {
                let mut s = String::from_str("button ");
                push_decimal(&mut s, n as u64);
                s
            },
        }
    }
}

/// Normalized input event, independent of the backend.
#[derive(Clone, Copy, Debug)]
pub enum InputEvent {
    /// Released click. `pos` is the absolute cursor position when the
    /// backend knows it (X11/Windows/macOS), `None` on Wayland/evdev.
    MouseUp { button: Button, pos: Option<(i32, i32)> },
    KeyDown(Keycode),
    KeyUp(Keycode),
}

/// Whether the session is a Wayland one: `XDG_SESSION_TYPE` equals
/// `wayland` ignoring ASCII case, or `WAYLAND_DISPLAY` is set.
pub open spec fn is_wayland_spec(session_type: Option<Seq<char>>, wayland_display: bool) -> bool {
    (session_type matches Some(t) && eq_ignore_ascii_case(t, "wayland"@)) || wayland_display
}

/// ASCII lower case of a character.
pub open spec fn ascii_lower(c: char) -> char {
    if 'A' <= c <= 'Z' {
        ((c as int) + 32) as char
    } else {
        c
    }
}

/// Equality of two strings ignoring ASCII case.
pub open spec fn eq_ignore_ascii_case(a: Seq<char>, b: Seq<char>) -> bool {
    a.len() == b.len() && forall|i: int| 0 <= i < a.len() ==> ascii_lower(#[trigger] a[i]) == ascii_lower(b[i])
}

fn to_ascii_lower(c: char) -> (r: char)
    ensures
        r == ascii_lower(c),
{
    if 'A' <= c && c <= 'Z' {
        let b: u8 = (c as u8) + 32;
        b as char
    } else {
        c
    }
}

/// Detects a Wayland session from `XDG_SESSION_TYPE` (`None` when unset or
/// not valid Unicode) and whether `WAYLAND_DISPLAY` is set.
pub fn is_wayland(session_type: Option<String>, wayland_display: bool) -> (r: bool)
    ensures
        r == is_wayland_spec(crate::i18n::opt_view(session_type), wayland_display),
{
    let matches_wayland = match session_type {
        Some(t) => {
            let a = crate::strings::chars_of(t.as_str());
            let b = crate::strings::chars_of("wayland");
            if a.len() != b.len() {
                false
            } else {
                let mut i: usize = 0;
                let mut same = true;
                while i < a.len()
                    invariant
                        a.len() == b.len(),
                        i <= a.len(),
                        same == forall|j: int| 0 <= j < i ==> ascii_lower(#[trigger] a@[j]) == ascii_lower(b@[j]),
                    decreases a.len() - i,
                {
                    if to_ascii_lower(a[i]) != to_ascii_lower(b[i]) {
                        same = false;
                    }
                    i = i + 1;
                }
                same
            }
        },
        None => false,
    };
    matches_wayland || wayland_display
}

} // verus!
