//! Text and navigation of the review panel, where the user browses the
//! recorded steps: the detail lines of a step, keyboard navigation in the
//! list of steps, and the theme switch.

use vstd::prelude::*;

use crate::clock::{day_first_text, in_chrono_range, utc_offset};
use crate::i18n::{pick_spec, Lang};
use crate::input::button_label;
use crate::model::{push_shown, show_newlines, Action, ActionView, WindowInfo, WindowInfoView};
use crate::strings::{decimal, push_char, push_decimal};

verus! {

/// Decimal rendering of a signed integer (a minus sign before negative
/// numbers).
pub open spec fn signed_decimal(v: int) -> Seq<char> {
    if v < 0 {
        seq!['-'] + decimal((-v) as nat)
    } else {
        decimal(v as nat)
    }
}

/// Appends the decimal rendering of a signed integer.
fn push_signed(s: &mut String, v: i32)
    ensures
        final(s)@ == old(s)@ + signed_decimal(v as int),
{
    if v < 0 {
        push_char(s, '-');
        let m: i64 = -(v as i64);
        push_decimal(s, m as u64);
        proof {
            assert(final(s)@ =~= old(s)@ + signed_decimal(v as int)) by {
                assert(old(s)@.push('-') + decimal((-v) as nat) =~= old(s)@ + (seq!['-']
                    + decimal((-v) as nat)));
            }
        }
    } else {
        push_decimal(s, v as u64);
    }
}

/// The line that details the action of a step: the button and, when known,
/// the position of a click; the text of a typing step (line breaks shown as
/// `⏎`).
pub open spec fn action_line_spec(action: ActionView, lang: Lang) -> Seq<char> {
    match action {
        ActionView::Click { button, x, y, .. } => pick_spec(
            lang,
            "Action : clic"@,
            "Action: click"@,
        ) + " "@ + button_label(button, lang) + match (x, y) {
            (Some(x), Some(y)) => "   —   position ("@ + signed_decimal(x as int) + ", "@
                + signed_decimal(y as int) + ")"@,
            _ => Seq::empty(),
        },
        ActionView::Text { content } => match lang {
            Lang::Fr => "Action : saisie « "@ + show_newlines(content) + " »"@,
            Lang::En => "Action: typed “"@ + show_newlines(content) + "”"@,
        },
    }
}

/// The line that details the action of a step.
pub fn action_line(action: &Action, lang: Lang) -> (r: String)
    ensures
        r@ == action_line_spec(action@, lang),
{
    let mut r = String::new();
    match action {
        Action::Click { button, x, y, .. } => {
            r.append(lang.pick("Action : clic", "Action: click"));
            r.append(" ");
            let b = button.label(lang);
            r.append(b.as_str());
            match (x, y) {
                (Some(x), Some(y)) => {
                    r.append("   —   position (");
                    push_signed(&mut r, *x);
                    r.append(", ");
                    push_signed(&mut r, *y);
                    r.append(")");
                },
                _ => {},
            }
        },
        Action::Text { content } => match lang {
            Lang::Fr => {
                r.append("Action : saisie « ");
                push_shown(&mut r, content.as_str());
                r.append(" »");
            },
            Lang::En => {
                r.append("Action: typed “");
                push_shown(&mut r, content.as_str());
                r.append("”");
            },
        },
    }
    r
}

/// The line that names the window of a step, and whether it is shown
/// dimmed: the title and the application when known; a dimmed notice when
/// neither is (windows are not exposed under Wayland).
pub open spec fn window_line_spec(window: Option<WindowInfoView>, lang: Lang) -> (Seq<char>, bool) {
    let title = match window {
        Some(w) => w.title,
        None => Seq::empty(),
    };
    let app = match window {
        Some(w) => w.app_name,
        None => Seq::empty(),
    };
    if title.len() > 0 && app.len() > 0 {
        (pick_spec(lang, "Fenêtre :"@, "Window:"@) + " « "@ + title + " » ("@ + app + ")"@, false)
    } else if title.len() > 0 {
        (pick_spec(lang, "Fenêtre :"@, "Window:"@) + " « "@ + title + " »"@, false)
    } else if app.len() > 0 {
        (pick_spec(lang, "Application :"@, "Application:"@) + " "@ + app, false)
    } else {
        (
            pick_spec(
                lang,
                "Fenêtre : inconnue (non exposée sous Wayland)"@,
                "Window: unknown (not exposed under Wayland)"@,
            ),
            true,
        )
    }
}

/// The line that names the window of a step, and whether it is shown
/// dimmed.
pub fn window_line(window: Option<&WindowInfo>, lang: Lang) -> (r: (String, bool))
    ensures
        (r.0@, r.1) == window_line_spec(crate::model::window_ref_view(window), lang),
{
    let (title, app): (&str, &str) = match window {
        Some(w) => (w.title.as_str(), w.app_name.as_str()),
        None => ("", ""),
    };
    proof {
        reveal_strlit("");
    }
    let has_title = title.unicode_len() > 0;
    let has_app = app.unicode_len() > 0;
    let mut r = String::new();
    if has_title && has_app {
        r.append(lang.pick("Fenêtre :", "Window:"));
        r.append(" « ");
        r.append(title);
        r.append(" » (");
        r.append(app);
        r.append(")");
        (r, false)
    } else if has_title {
        r.append(lang.pick("Fenêtre :", "Window:"));
        r.append(" « ");
        r.append(title);
        r.append(" »");
        (r, false)
    } else if has_app {
        r.append(lang.pick("Application :", "Application:"));
        r.append(" ");
        r.append(app);
        (r, false)
    } else {
        r.append(
            lang.pick(
                "Fenêtre : inconnue (non exposée sous Wayland)",
                "Window: unknown (not exposed under Wayland)",
            ),
        );
        (r, true)
    }
}

/// The line that dates a step: its date `when`, then the time elapsed since
/// the start of the session (`seconds`, in seconds with one decimal).
pub open spec fn date_line_spec(when: Seq<char>, seconds: Seq<char>, lang: Lang) -> Seq<char> {
    pick_spec(lang, "Date :"@, "Date:"@) + " "@ + when + "   (T+"@ + seconds + "s)"@
}

/// The line that dates a step.
pub fn date_line(when: &str, seconds: &str, lang: Lang) -> (r: String)
    ensures
        r@ == date_line_spec(when@, seconds@, lang),
{
    let mut r = String::new();
    r.append(lang.pick("Date :", "Date:"));
    r.append(" ");
    r.append(when);
    r.append("   (T+");
    r.append(seconds);
    r.append("s)");
    r
}

/// The `i64` that the low 64 bits of `ms` make in two's complement (what
/// the cast `ms as i64` gives).
pub open spec fn low_i64(ms: u128) -> i64 {
    let low = ms as int % 0x1_0000_0000_0000_0000;
    if low <= 0x7fff_ffff_ffff_ffff {
        low as i64
    } else {
        (low - 0x1_0000_0000_0000_0000) as i64
    }
}

/// A timestamp (ms since the Unix epoch, read as an `i64`) as a local date
/// `DD/MM/YYYY hh:mm:ss`, or `?` out of range. The rendering depends on the
/// machine's time zone.
pub fn human_date(ms: u128) -> (r: String)
    ensures
        in_chrono_range(low_i64(ms)) ==> exists|off: int|
            utc_offset(off) && r@ == day_first_text(low_i64(ms) + off),
        !in_chrono_range(low_i64(ms)) ==> r@ == "?"@,
{
    let low: u64 = (ms % 0x1_0000_0000_0000_0000) as u64;
    let t: i64 = if low <= 0x7fff_ffff_ffff_ffff {
        low as i64
    } else {
        ((low - 0x8000_0000_0000_0000) as i64) - 0x7fff_ffff_ffff_ffff - 1
    };
    assert(t == low_i64(ms));
    let pattern = "%d/%m/%Y %H:%M:%S";
    proof {
        reveal_strlit("%d/%m/%Y %H:%M:%S");
    }
    match crate::clock::local_date_text(t, pattern) {
        Some(d) => d,
        None => {
            let r = String::from_str("?");
            proof {
                reveal_strlit("?");
            }
            r
        },
    }
}

/// The position of the first occurrence of `v` in `s`.
pub open spec fn first_position(s: Seq<usize>, v: usize) -> Option<int>
    decreases s.len(),
{
    if s.len() == 0 {
        None
    } else if s[0] == v {
        Some(0)
    } else {
        match first_position(s.drop_first(), v) {
            Some(i) => Some(i + 1),
            None => None,
        }
    }
}

/// The step selected after an arrow key in the list of steps (`indices` are
/// the step numbers in display order): the step after the current one for
/// Down, the one before it for Up; the current step is the selected one, or
/// the last step when none is selected (or the selected one is not listed).
/// `None` when the selection does not move.
pub open spec fn navigate_spec(indices: Seq<usize>, selected: Option<usize>, up: bool, down: bool) -> Option<usize> {
    if indices.len() == 0 {
        None
    } else {
        let cur = match selected {
            Some(sel) => match first_position(indices, sel) {
                Some(i) => i,
                None => indices.len() - 1,
            },
            None => indices.len() - 1,
        };
        if down && cur + 1 < indices.len() {
            Some(indices[cur + 1])
        } else if up && cur > 0 {
            Some(indices[cur - 1])
        } else {
            None
        }
    }
}

proof fn lemma_first_position(s: Seq<usize>, v: usize, i: int)
    requires
        0 <= i <= s.len(),
        forall|j: int| 0 <= j < i ==> s[j] != v,
    ensures
        i < s.len() && s[i] == v ==> first_position(s, v) == Some(i),
        i == s.len() ==> first_position(s, v) is None,
    decreases i,
{
    if i > 0 {
        lemma_first_position(s.drop_first(), v, i - 1);
    }
}

/// Moves the selection in the list of steps after an arrow key; `None` when
/// it does not move.
pub fn navigate(indices: &Vec<usize>, selected: Option<usize>, up: bool, down: bool) -> (r:
    Option<usize>)
    ensures
        r == navigate_spec(indices@, selected, up, down),
{
    let n = indices.len();
    if n == 0 {
        return None;
    }
    let mut cur: usize = n - 1;
    match selected {
        Some(sel) => {
            let mut i: usize = 0;
            while i < n
                invariant
                    i <= n == indices@.len(),
                    forall|j: int| 0 <= j < i ==> indices@[j] != sel,
                ensures
                    i <= n,
                    forall|j: int| 0 <= j < i ==> indices@[j] != sel,
                    i < n ==> indices@[i as int] == sel,
                decreases n - i,
            {
                if indices[i] == sel {
                    break;
                }
                i = i + 1;
            }
            proof {
                lemma_first_position(indices@, sel, i as int);
            }
            if i < n {
                cur = i;
            }
        },
        None => {},
    }
    if down && cur + 1 < n {
        Some(indices[cur + 1])
    } else if up && cur > 0 {
        Some(indices[cur - 1])
    } else {
        None
    }
}

/// Theme preference of the interface.
#[derive(Clone, Copy, PartialEq, Eq, Debug, Structural)]
pub enum Theme {
    Light,
    Dark,
    System,
}

impl Theme {
    /// The theme the switch moves to: light, then dark, then the system's,
    /// then light again.
    pub fn next(self) -> (r: Theme)
        ensures
            r == match self {
                Theme::Light => Theme::Dark,
                Theme::Dark => Theme::System,
                Theme::System => Theme::Light,
            },
    {
        match self {
            Theme::Light => Theme::Dark,
            Theme::Dark => Theme::System,
            Theme::System => Theme::Light,
        }
    }

    /// The tooltip of the switch: the current theme and the next one.
    pub fn tip(self, lang: Lang) -> (r: &'static str)
        ensures
            r@ == match self {
                Theme::Light => pick_spec(
                    lang,
                    "Thème : clair (cliquer pour obscur)"@,
                    "Theme: light (click for dark)"@,
                ),
                Theme::Dark => pick_spec(
                    lang,
                    "Thème : obscur (cliquer pour système)"@,
                    "Theme: dark (click for system)"@,
                ),
                Theme::System => pick_spec(
                    lang,
                    "Thème : système (cliquer pour clair)"@,
                    "Theme: system (click for light)"@,
                ),
            },
    {
        match self {
            Theme::Light => lang.pick(
                "Thème : clair (cliquer pour obscur)",
                "Theme: light (click for dark)",
            ),
            Theme::Dark => lang.pick(
                "Thème : obscur (cliquer pour système)",
                "Theme: dark (click for system)",
            ),
            Theme::System => lang.pick(
                "Thème : système (cliquer pour clair)",
                "Theme: system (click for light)",
            ),
        }
    }
}

/// Three presses of the theme switch come back to the starting theme.
pub proof fn lemma_theme_cycle(t: Theme)
    ensures
        ({
            let next = |t: Theme|
                match t {
                    Theme::Light => Theme::Dark,
                    Theme::Dark => Theme::System,
                    Theme::System => Theme::Light,
                };
            next(next(next(t))) == t
        }),
{
}

} // verus!
