//! Normalization of the events of the `device_query` backend (X11,
//! Windows, macOS).

use vstd::prelude::*;

use super::Button;

verus! {

/// Captures through the event loop of `device_query`.
pub struct DeviceQueryBackend;

impl DeviceQueryBackend {
    /// Readable name (for logs and diagnostics).
    pub fn name(&self) -> (r: &'static str)
        ensures
            r@ == "device_query (X11/Windows/macOS)"@,
    {
        "device_query (X11/Windows/macOS)"
    }
}

/// The button of a `device_query` mouse button number (1 left, 2 middle,
/// 3 right; any other number `n` is `Other(n)` truncated to 16 bits).
pub open spec fn from_dq_button_spec(b: usize) -> Button {
    if b == 1 {
        Button::Left
    } else if b == 2 {
        Button::Middle
    } else if b == 3 {
        Button::Right
    } else {
        Button::Other((b % 0x10000) as u16)
    }
}

/// Converts a `device_query` mouse button number into a [`Button`].
pub fn from_dq_button(b: usize) -> (r: Button)
    ensures
        r == from_dq_button_spec(b),
{
    match b {
        1 => Button::Left,
        2 => Button::Middle,
        3 => Button::Right,
        other => {
            let n: u16 = (other % 0x10000) as u16;
            Button::Other(n)
        },
    }
}

} // verus!
