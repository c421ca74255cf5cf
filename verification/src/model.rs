//! Data model of a recording session.

use vstd::prelude::*;

use crate::i18n::{pick_spec, Lang};
use crate::input::{button_label, Button};
use crate::strings::{chars_of, push_char};

verus! {

/// Information about the active window at the time of an action.
#[derive(Debug, Clone, Default)]
pub struct WindowInfo {
    pub title: String,
    pub app_name: String,
    pub pid: u32,
    pub x: i32,
    pub y: i32,
    pub width: u32,
    pub height: u32,
}

/// Mathematical view of a [`WindowInfo`].
pub struct WindowInfoView {
    pub title: Seq<char>,
    pub app_name: Seq<char>,
    pub pid: u32,
    pub x: i32,
    pub y: i32,
    pub width: u32,
    pub height: u32,
}

impl View for WindowInfo {
    type V = WindowInfoView;

    open spec fn view(&self) -> WindowInfoView {
        WindowInfoView {
            title: self.title@,
            app_name: self.app_name@,
            pid: self.pid,
            x: self.x,
            y: self.y,
            width: self.width,
            height: self.height,
        }
    }
}

/// View of an optional window.
pub open spec fn window_opt_view(w: Option<WindowInfo>) -> Option<WindowInfoView> {
    match w {
        Some(w) => Some(w@),
        None => None,
    }
}

impl WindowInfo {
    /// A copy of the window information.
    pub(crate) fn duplicate(&self) -> (r: WindowInfo)
        ensures
            r@ == self@,
    {
        WindowInfo {
            title: self.title.clone(),
            app_name: self.app_name.clone(),
            pid: self.pid,
            x: self.x,
            y: self.y,
            width: self.width,
            height: self.height,
        }
    }
}

/// Kind of a recorded step.
#[derive(Debug, Clone)]
pub enum Action {
    /// Mouse click. Global coordinates and coordinates relative to the
    /// window — `None` when the platform does not provide them
    /// (Wayland/evdev).
    Click {
        button: Button,
        x: Option<i32>,
        y: Option<i32>,
        rel_x: Option<i32>,
        rel_y: Option<i32>,
    },
    /// Text typed on the keyboard (aggregated between two clicks).
    Text { content: String },
}

/// Mathematical view of an [`Action`].
pub enum ActionView {
    Click {
        button: Button,
        x: Option<i32>,
        y: Option<i32>,
        rel_x: Option<i32>,
        rel_y: Option<i32>,
    },
    Text { content: Seq<char> },
}

impl View for Action {
    type V = ActionView;

    open spec fn view(&self) -> ActionView {
        match self {
            Action::Click { button, x, y, rel_x, rel_y } => ActionView::Click {
                button: *button,
                x: *x,
                y: *y,
                rel_x: *rel_x,
                rel_y: *rel_y,
            },
            Action::Text { content } => ActionView::Text { content: content@ },
        }
    }
}

/// One step of the session: an action, its context and its screenshot, if
/// any.
#[derive(Debug, Clone)]
pub struct Step {
    pub index: usize,
    /// Absolute timestamp (ms since the Unix epoch).
    pub timestamp_ms: u128,
    /// Time elapsed since the start of the session (ms).
    pub elapsed_ms: u128,
    pub action: Action,
    pub window: Option<WindowInfo>,
    /// File name of the WebP screenshot, relative to the session folder.
    pub screenshot: Option<String>,
    /// Readable description of the step, in the session's language.
    pub description: String,
}

/// Mathematical view of a [`Step`].
pub struct StepView {
    pub index: usize,
    pub timestamp_ms: u128,
    pub elapsed_ms: u128,
    pub action: ActionView,
    pub window: Option<WindowInfoView>,
    pub screenshot: Option<Seq<char>>,
    pub description: Seq<char>,
}

impl View for Step {
    type V = StepView;

    open spec fn view(&self) -> StepView {
        StepView {
            index: self.index,
            timestamp_ms: self.timestamp_ms,
            elapsed_ms: self.elapsed_ms,
            action: self.action@,
            window: window_opt_view(self.window),
            screenshot: crate::i18n::opt_view(self.screenshot),
            description: self.description@,
        }
    }
}

/// What a description names as the target of an action: the window title
/// in guillemets, followed by the application name in brackets when it is
/// known; "the active window" when no window is known.
pub open spec fn target_spec(window: Option<WindowInfoView>, lang: Lang) -> Seq<char> {
    match window {
        Some(w) => if w.app_name.len() == 0 {
            "« "@ + w.title + " »"@
        } else {
            "« "@ + w.title + " » ("@ + w.app_name + ")"@
        },
        None => pick_spec(lang, "la fenêtre active"@, "the active window"@),
    }
}

/// The text with each line break shown as `⏎`.
pub open spec fn show_newlines(s: Seq<char>) -> Seq<char> {
    s.map_values(|c: char| if c == '\n' { '⏎' } else { c })
}

/// Upper case of an ASCII lower-case letter; other characters unchanged.
pub open spec fn ascii_upper_char(c: char) -> char {
    if 'a' <= c <= 'z' {
        ((c as int) - 32) as char
    } else {
        c
    }
}

/// The text with its first character in upper case.
pub open spec fn capitalize_spec(s: Seq<char>) -> Seq<char> {
    if s.len() == 0 {
        s
    } else {
        seq![ascii_upper_char(s[0])] + s.drop_first()
    }
}

/// The readable description of an action in its context, in the given
/// language.
pub open spec fn description_spec(
    action: ActionView,
    window: Option<WindowInfoView>,
    lang: Lang,
) -> Seq<char> {
    let target = target_spec(window, lang);
    match action {
        ActionView::Click { button, .. } => match lang {
            Lang::Fr => "Clic "@ + button_label(button, lang) + " sur "@ + target,
            Lang::En => capitalize_spec(button_label(button, lang)) + " click on "@ + target,
        },
        ActionView::Text { content } => match lang {
            Lang::Fr => "Saisie « "@ + show_newlines(content) + " » dans "@ + target,
            Lang::En => "Typed “"@ + show_newlines(content) + "” in "@ + target,
        },
    }
}

/// The view of an optional window reference.
pub open spec fn window_ref_view(window: Option<&WindowInfo>) -> Option<WindowInfoView> {
    match window {
        Some(w) => Some(w@),
        None => None,
    }
}

/// Appends the text with each line break shown as `⏎`.
pub(crate) fn push_shown(out: &mut String, s: &str)
    ensures
        final(out)@ == old(out)@ + show_newlines(s@),
{
    let cs = chars_of(s);
    let ghost start = out@;
    let mut i: usize = 0;
    while i < cs.len()
        invariant
            i <= cs.len(),
            cs@ == s@,
            out@ == start + show_newlines(cs@.take(i as int)),
        decreases cs.len() - i,
    {
        let c = cs[i];
        if c == '\n' {
            push_char(out, '⏎');
        } else {
            push_char(out, c);
        }
        assert(show_newlines(cs@.take(i + 1)) =~= show_newlines(cs@.take(i as int)).push(
            if c == '\n' { '⏎' } else { c },
        ));
        i = i + 1;
    }
    assert(cs@.take(cs.len() as int) =~= cs@);
}

impl Step {
    /// Builds the readable description from the action and its context, in
    /// the given language.
    pub fn build_description(action: &Action, window: Option<&WindowInfo>, lang: Lang) -> (r:
        String)
        ensures
            r@ == description_spec(action@, window_ref_view(window), lang),
    {
        let mut target = String::new();
        match window {
            Some(w) => {
                target.append("« ");
                target.append(w.title.as_str());
                if w.app_name.as_str().unicode_len() == 0 {
                    target.append(" »");
                } else {
                    target.append(" » (");
                    target.append(w.app_name.as_str());
                    target.append(")");
                }
            },
            None => match lang {
                Lang::Fr => target.append("la fenêtre active"),
                Lang::En => target.append("the active window"),
            },
        }
        let mut r = String::new();
        match action {
            Action::Click { button, .. } => {
                let b = button.label(lang);
                match lang {
                    Lang::Fr => {
                        r.append("Clic ");
                        r.append(b.as_str());
                        r.append(" sur ");
                    },
                    Lang::En => {
                        proof {
                            reveal_strlit("left");
                            reveal_strlit("middle");
                            reveal_strlit("right");
                            reveal_strlit("button ");
                        }
                        let c = capitalize(b.as_str());
                        r.append(c.as_str());
                        r.append(" click on ");
                    },
                }
            },
            Action::Text { content } => match lang {
                Lang::Fr => {
                    r.append("Saisie « ");
                    push_shown(&mut r, content.as_str());
                    r.append(" » dans ");
                },
                Lang::En => {
                    r.append("Typed “");
                    push_shown(&mut r, content.as_str());
                    r.append("” in ");
                },
            },
        }
        r.append(target.as_str());
        r
    }
}

/// Puts the first letter in upper case ("left" becomes "Left").
fn capitalize(s: &str) -> (r: String)
    requires
        s@.len() > 0 ==> (s@[0] as int) < 128,
    ensures
        r@ == capitalize_spec(s@),
{
    let cs = chars_of(s);
    let mut r = String::new();
    if cs.len() == 0 {
        return r;
    }
    let f = cs[0];
    if 'a' <= f && f <= 'z' {
        let b: u8 = (f as u8) - 32;
        push_char(&mut r, b as char);
    } else {
        push_char(&mut r, f);
    }
    let mut i: usize = 1;
    while i < cs.len()
        invariant
            1 <= i <= cs.len(),
            cs@ == s@,
            r@ == seq![ascii_upper_char(cs@[0])] + cs@.subrange(1, i as int),
        decreases cs.len() - i,
    {
        push_char(&mut r, cs[i]);
        assert(cs@.subrange(1, i + 1) =~= cs@.subrange(1, i as int).push(cs@[i as int]));
        i = i + 1;
    }
    assert(cs@.subrange(1, cs.len() as int) =~= cs@.drop_first());
    r
}

} // verus!
