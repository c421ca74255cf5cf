//! Core of the Support Step Recorder: models a recording session of user
//! actions (clicks, typed text, active window) and renders its report.

pub mod capture;
pub mod clock;
pub mod export;
pub mod i18n;
pub mod input;
pub mod model;
pub mod progress;
pub mod recorder;
pub mod review;
pub mod screencast;
pub mod session;
pub mod strings;
pub mod text;

pub use i18n::Lang;
pub use input::{Button, InputEvent};
pub use model::{Action, Step, WindowInfo};
pub use progress::Progress;
pub use session::Session;
