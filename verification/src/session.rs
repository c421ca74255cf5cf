//! Recording session: accumulates the steps and manages the typed-text
//! buffer.

use vstd::prelude::*;

use crate::i18n::Lang;
use crate::input::Button;
use crate::model::{
    description_spec, window_opt_view, Action, ActionView, Step, StepView, WindowInfo,
    WindowInfoView,
};
use crate::strings::{chars_of, decimal_pad4, push_decimal_pad4};
use crate::clock::now_ms;
use crate::text::KeyToken;

verus! {

/// `a - b`, or 0 when `b > a`.
pub open spec fn saturating_sub(a: u128, b: u128) -> u128 {
    if a >= b {
        (a - b) as u128
    } else {
        0
    }
}

/// Whether a character is white space in the sense of Unicode's
/// `White_Space` property (std's `char::is_whitespace`).
pub open spec fn is_white_space(c: char) -> bool {
    let n = c as u32;
    ||| 0x09 <= n <= 0x0d
    ||| n == 0x20
    ||| n == 0x85
    ||| n == 0xa0
    ||| n == 0x1680
    ||| 0x2000 <= n <= 0x200a
    ||| n == 0x2028
    ||| n == 0x2029
    ||| n == 0x202f
    ||| n == 0x205f
    ||| n == 0x3000
}

/// Whether a text is empty once trimmed: every character is white space.
pub open spec fn is_blank(s: Seq<char>) -> bool {
    forall|i: int| 0 <= i < s.len() ==> is_white_space(#[trigger] s[i])
}

/// The text buffer after a key token: an insertion appends its text, a
/// backspace removes the last character (if any).
pub open spec fn apply_token(pending: Seq<char>, token: KeyToken) -> Seq<char> {
    match token {
        KeyToken::Insert(s) => pending + s@,
        KeyToken::Backspace => if pending.len() > 0 {
            pending.drop_last()
        } else {
            pending
        },
    }
}

/// The click action recorded for a button, an optional global position and
/// an optional window: the position relative to the window's origin (to the
/// screen's when no window is known).
pub open spec fn click_action(
    button: Button,
    global: Option<(i32, i32)>,
    window: Option<WindowInfoView>,
) -> ActionView {
    match global {
        Some((x, y)) => {
            let (rx, ry) = match window {
                Some(w) => ((x - w.x) as i32, (y - w.y) as i32),
                None => (x, y),
            };
            ActionView::Click {
                button,
                x: Some(x),
                y: Some(y),
                rel_x: Some(rx),
                rel_y: Some(ry),
            }
        },
        None => ActionView::Click { button, x: None, y: None, rel_x: None, rel_y: None },
    }
}

/// Whether the relative position of a click fits in `i32` (computing it
/// overflows otherwise).
pub open spec fn click_fits(global: Option<(i32, i32)>, window: Option<WindowInfoView>) -> bool {
    match (global, window) {
        (Some((x, y)), Some(w)) => i32::MIN <= x - w.x <= i32::MAX && i32::MIN <= y - w.y
            <= i32::MAX,
        _ => true,
    }
}

/// The name of the screenshot file with number `n`:
/// `step-NNNN.webp`, the number zero-padded to four digits.
pub open spec fn screenshot_name(n: nat) -> Seq<char> {
    "step-"@ + decimal_pad4(n) + ".webp"@
}

/// Whether a step records `action` as step number `index`, in `window`,
/// with `screenshot`, described in `lang`, its elapsed time counted from
/// `start_ms`.
pub open spec fn step_records(
    st: StepView,
    index: nat,
    action: ActionView,
    window: Option<WindowInfoView>,
    screenshot: Option<Seq<char>>,
    lang: Lang,
    start_ms: u128,
) -> bool {
    &&& st.index == index
    &&& st.action == action
    &&& st.window == window
    &&& st.screenshot == screenshot
    &&& st.description == description_spec(action, window, lang)
    &&& st.elapsed_ms == saturating_sub(st.timestamp_ms, start_ms)
}

/// Whether the steps are numbered 1, 2, … in order.
pub open spec fn numbered(steps: Seq<StepView>) -> bool {
    forall|i: int| 0 <= i < steps.len() ==> #[trigger] steps[i].index == i + 1
}

/// The start date of a session whose clock reading at the start is
/// `start_ms`: the same milliseconds as an `i64`, `i64::MAX` beyond it.
pub open spec fn start_date(start_ms: u128) -> i64 {
    if start_ms <= i64::MAX {
        start_ms as i64
    } else {
        i64::MAX
    }
}

/// A live recording session.
pub struct Session {
    /// Folder where the screenshots and the report are written.
    pub dir: String,
    /// Start date of the session (for the report), in milliseconds since
    /// the Unix epoch.
    pub started_at: i64,
    /// Recorded steps, in chronological order.
    pub steps: Vec<Step>,
    /// `true` while the capture is active.
    pub recording: bool,
    /// State of the Shift key (tracked for the case of typed text).
    pub shift_down: bool,
    /// Language in which step descriptions are built.
    pub lang: Lang,
    start_ms: u128,
    pending_text: String,
    screenshot_counter: usize,
}

/// Mathematical view of a [`Session`].
#[verifier::ext_equal]
pub struct SessionView {
    pub dir: Seq<char>,
    pub started_at: i64,
    pub steps: Seq<StepView>,
    pub recording: bool,
    pub shift_down: bool,
    pub lang: Lang,
    /// The clock reading (ms since the epoch) at the start of the session.
    pub start_ms: u128,
    /// The text typed since the last flush.
    pub pending: Seq<char>,
    /// How many screenshot names were reserved.
    pub counter: nat,
}

impl View for Session {
    type V = SessionView;

    closed spec fn view(&self) -> SessionView {
        SessionView {
            dir: self.dir@,
            started_at: self.started_at,
            steps: self.steps@.map_values(|st: Step| st@),
            recording: self.recording,
            shift_down: self.shift_down,
            lang: self.lang,
            start_ms: self.start_ms,
            pending: self.pending_text@,
            counter: self.screenshot_counter as nat,
        }
    }
}

impl SessionView {
    /// Consistency of the recorded steps: they are numbered 1, 2, … in
    /// order, each is described in the session's language, and each
    /// elapsed time is counted from the start of the session.
    pub open spec fn consistent(self) -> bool {
        forall|i: int|
            0 <= i < self.steps.len() ==> {
                let st = #[trigger] self.steps[i];
                &&& st.index == i + 1
                &&& st.description == description_spec(st.action, st.window, self.lang)
                &&& st.elapsed_ms == saturating_sub(st.timestamp_ms, self.start_ms)
            }
    }

    /// The session with other steps and another text buffer; everything
    /// else unchanged.
    pub open spec fn with_steps(self, steps: Seq<StepView>, pending: Seq<char>) -> SessionView {
        SessionView { steps, pending, ..self }
    }
}

impl Session {
    /// The recorded steps.
    pub(crate) fn steps_ref(&self) -> (r: &Vec<Step>)
        ensures
            r@.map_values(|st: Step| st@) == self@.steps,
    {
        &self.steps
    }

    /// The start date (ms since the Unix epoch).
    pub(crate) fn started_at_ms(&self) -> (r: i64)
        ensures
            r == self@.started_at,
    {
        self.started_at
    }

    /// How many screenshot names were reserved.
    pub fn screenshot_count(&self) -> (r: usize)
        ensures
            r == self@.counter,
    {
        self.screenshot_counter
    }

    /// Whether the session is recording.
    pub(crate) fn is_recording(&self) -> (r: bool)
        ensures
            r == self@.recording,
    {
        self.recording
    }

    /// The state of the Shift key.
    pub(crate) fn is_shift_down(&self) -> (r: bool)
        ensures
            r == self@.shift_down,
    {
        self.shift_down
    }

    /// Sets the state of the Shift key.
    pub(crate) fn set_shift_down(&mut self, down: bool)
        ensures
            final(self)@ == (SessionView { shift_down: down, ..old(self)@ }),
    {
        self.shift_down = down;
        proof {
            assert(self@ =~= (SessionView { shift_down: down, ..old(self)@ }));
        }
    }

    /// Creates a session recording into `dir` (the folder itself is created
    /// by the caller), describing its steps in `lang`.
    pub fn new(dir: String, lang: Lang) -> (r: Session)
        ensures
            r@.dir == dir@,
            r@.steps.len() == 0,
            r@.recording,
            !r@.shift_down,
            r@.lang == lang,
            r@.pending.len() == 0,
            r@.counter == 0,
            r@.consistent(),
            r@.started_at == start_date(r@.start_ms),
    {
        let now = now_ms();
        let started_at: i64 = if now <= 0x7fff_ffff_ffff_ffff {
            now as i64
        } else {
            0x7fff_ffff_ffff_ffff
        };
        let r = Session {
            dir,
            started_at,
            steps: Vec::new(),
            recording: true,
            shift_down: false,
            lang,
            start_ms: now,
            pending_text: String::new(),
            screenshot_counter: 0,
        };
        assert(r@.steps =~= Seq::<StepView>::empty());
        r
    }

    /// Applies a key token to the current text buffer.
    pub fn apply_key(&mut self, token: KeyToken)
        ensures
            final(self)@ == old(self)@.with_steps(
                old(self)@.steps,
                apply_token(old(self)@.pending, token),
            ),
    {
        match token {
            KeyToken::Insert(s) => self.pending_text.append(s.as_str()),
            KeyToken::Backspace => {
                pop_char(&mut self.pending_text);
            },
        }
    }

    /// Flushes the text buffer into a `Text` step, unless it is blank.
    pub fn flush_text(&mut self, window: Option<WindowInfo>)
        requires
            !is_blank(old(self)@.pending) ==> old(self)@.steps.len() < usize::MAX,
        ensures
            ({
                let o = old(self)@;
                let f = final(self)@;
                &&& f == o.with_steps(f.steps, Seq::empty())
                &&& is_blank(o.pending) ==> f.steps == o.steps
                &&& !is_blank(o.pending) ==> {
                    &&& f.steps.len() == o.steps.len() + 1
                    &&& f.steps.drop_last() == o.steps
                    &&& step_records(
                        f.steps.last(),
                        o.steps.len() + 1,
                        ActionView::Text { content: o.pending },
                        window_opt_view(window),
                        None,
                        o.lang,
                        o.start_ms,
                    )
                }
                &&& o.consistent() ==> f.consistent()
            }),
    {
        let mut content = String::new();
        std::mem::swap(&mut content, &mut self.pending_text);
        if blank(content.as_str()) {
            proof {
                assert(self@ =~= old(self)@.with_steps(self@.steps, Seq::empty()));
            }
            return;
        }
        let action = Action::Text { content };
        self.push_step(action, window, None);
    }

    /// Records a click (the pending text is flushed first, as a step of its
    /// own that precedes the click).
    pub fn record_click(
        &mut self,
        button: Button,
        global: Option<(i32, i32)>,
        window: Option<WindowInfo>,
        screenshot: Option<String>,
    )
        requires
            old(self)@.steps.len() + (if is_blank(old(self)@.pending) { 0int } else { 1 })
                < usize::MAX,
            click_fits(global, window_opt_view(window)),
        ensures
            ({
                let o = old(self)@;
                let f = final(self)@;
                let n = o.steps.len();
                let w = window_opt_view(window);
                let text_steps: nat = if is_blank(o.pending) { 0 } else { 1 };
                &&& f == o.with_steps(f.steps, Seq::empty())
                &&& f.steps.len() == n + text_steps + 1
                &&& f.steps.take(n as int) == o.steps
                &&& text_steps == 1 ==> step_records(
                    f.steps[n as int],
                    n + 1,
                    ActionView::Text { content: o.pending },
                    w,
                    None,
                    o.lang,
                    o.start_ms,
                )
                &&& step_records(
                    f.steps.last(),
                    n + text_steps + 1,
                    click_action(button, global, w),
                    w,
                    crate::i18n::opt_view(screenshot),
                    o.lang,
                    o.start_ms,
                )
                &&& o.consistent() ==> f.consistent()
            }),
    {
        // The text typed before this click is a distinct step that precedes it.
        let copy = match &window {
            Some(w) => Some(w.duplicate()),
            None => None,
        };
        self.flush_text(copy);
        // Position known on X11/Windows/macOS; absent on Wayland (evdev).
        let action = match global {
            Some((x, y)) => {
                let (rx, ry) = match &window {
                    Some(w) => (x - w.x, y - w.y),
                    None => (x, y),
                };
                Action::Click { button, x: Some(x), y: Some(y), rel_x: Some(rx), rel_y: Some(ry) }
            },
            None => Action::Click { button, x: None, y: None, rel_x: None, rel_y: None },
        };
        let ghost flushed = self@.steps;
        self.push_step(action, window, screenshot);
        proof {
            let n = old(self)@.steps.len();
            assert(self@.steps.drop_last() == flushed);
            if is_blank(old(self)@.pending) {
                assert(self@.steps.take(n as int) =~= flushed);
            } else {
                assert(self@.steps.take(n as int) =~= flushed.drop_last());
                assert(self@.steps[n as int] == flushed[n as int]);
            }
        }
    }

    /// Reserves the next screenshot file name.
    pub fn next_screenshot_name(&mut self) -> (r: String)
        requires
            old(self)@.counter < usize::MAX,
        ensures
            final(self)@ == (SessionView { counter: old(self)@.counter + 1, ..old(self)@ }),
            r@ == screenshot_name(final(self)@.counter),
    {
        self.screenshot_counter = self.screenshot_counter + 1;
        let mut r = String::from_str("step-");
        push_decimal_pad4(&mut r, self.screenshot_counter as u64);
        r.append(".webp");
        proof {
            assert(self@ =~= (SessionView { counter: old(self)@.counter + 1, ..old(self)@ }));
        }
        r
    }

    /// Stops the session and flushes the remaining text.
    pub fn stop(&mut self)
        requires
            !is_blank(old(self)@.pending) ==> old(self)@.steps.len() < usize::MAX,
        ensures
            ({
                let o = old(self)@;
                let f = final(self)@;
                &&& f == (SessionView { recording: false, ..o.with_steps(f.steps, Seq::empty()) })
                &&& is_blank(o.pending) ==> f.steps == o.steps
                &&& !is_blank(o.pending) ==> {
                    &&& f.steps.len() == o.steps.len() + 1
                    &&& f.steps.drop_last() == o.steps
                    &&& step_records(
                        f.steps.last(),
                        o.steps.len() + 1,
                        ActionView::Text { content: o.pending },
                        None,
                        None,
                        o.lang,
                        o.start_ms,
                    )
                }
                &&& o.consistent() ==> f.consistent()
            }),
    {
        self.flush_text(None);
        self.recording = false;
        proof {
            let o = old(self)@;
            assert(self@ =~= (SessionView { recording: false, ..o.with_steps(self@.steps, Seq::empty()) }));
        }
    }

    /// Appends a step taken at clock reading `now` (ms since the epoch).
    pub fn push_step_at(
        &mut self,
        action: Action,
        window: Option<WindowInfo>,
        screenshot: Option<String>,
        now: u128,
    )
        requires
            old(self)@.steps.len() < usize::MAX,
        ensures
            ({
                let o = old(self)@;
                let f = final(self)@;
                &&& f == o.with_steps(f.steps, o.pending)
                &&& f.steps.len() == o.steps.len() + 1
                &&& f.steps.drop_last() == o.steps
                &&& f.steps.last().timestamp_ms == now
                &&& step_records(
                    f.steps.last(),
                    o.steps.len() + 1,
                    action@,
                    window_opt_view(window),
                    crate::i18n::opt_view(screenshot),
                    o.lang,
                    o.start_ms,
                )
                &&& f.steps.last().elapsed_ms <= f.steps.last().timestamp_ms
                &&& numbered(o.steps) ==> numbered(f.steps)
                &&& o.consistent() ==> f.consistent()
            }),
    {
        let description = match &window {
            Some(w) => Step::build_description(&action, Some(w), self.lang),
            None => Step::build_description(&action, None, self.lang),
        };
        let elapsed_ms = if now >= self.start_ms {
            now - self.start_ms
        } else {
            0
        };
        let index = self.steps.len() + 1;
        self.steps.push(
            Step { index, timestamp_ms: now, elapsed_ms, action, window, screenshot, description },
        );
        proof {
            let o = old(self)@;
            assert(self@.steps.drop_last() =~= o.steps);
            assert(self@ =~= o.with_steps(self@.steps, o.pending));
            let f = self@;
            assert(f.steps.last() == self.steps@.last()@);
            assert(f.steps.last().description == description_spec(
                action@,
                window_opt_view(window),
                o.lang,
            ));
            assert(step_records(
                f.steps.last(),
                o.steps.len() + 1,
                action@,
                window_opt_view(window),
                crate::i18n::opt_view(screenshot),
                o.lang,
                o.start_ms,
            ));
            if numbered(o.steps) {
                assert forall|i: int| 0 <= i < f.steps.len() implies #[trigger] f.steps[i].index
                    == i + 1 by {
                    if i < o.steps.len() {
                        assert(f.steps[i] == o.steps[i]);
                    }
                }
            }
            if o.consistent() {
                assert forall|i: int| 0 <= i < f.steps.len() implies {
                    let st = #[trigger] f.steps[i];
                    &&& st.index == i + 1
                    &&& st.description == description_spec(st.action, st.window, f.lang)
                    &&& st.elapsed_ms == saturating_sub(st.timestamp_ms, f.start_ms)
                } by {
                    if i < o.steps.len() {
                        assert(f.steps[i] == o.steps[i]);
                    }
                }
            }
        }
    }

    /// Appends a step stamped with the current clock reading.
    fn push_step(&mut self, action: Action, window: Option<WindowInfo>, screenshot: Option<String>)
        requires
            old(self)@.steps.len() < usize::MAX,
        ensures
            ({
                let o = old(self)@;
                let f = final(self)@;
                &&& f == o.with_steps(f.steps, o.pending)
                &&& f.steps.len() == o.steps.len() + 1
                &&& f.steps.drop_last() == o.steps
                &&& step_records(
                    f.steps.last(),
                    o.steps.len() + 1,
                    action@,
                    window_opt_view(window),
                    crate::i18n::opt_view(screenshot),
                    o.lang,
                    o.start_ms,
                )
                &&& f.steps.last().elapsed_ms <= f.steps.last().timestamp_ms
                &&& numbered(o.steps) ==> numbered(f.steps)
                &&& o.consistent() ==> f.consistent()
            }),
    {
        let now = now_ms();
        self.push_step_at(action, window, screenshot, now);
    }
}

/// Removes the last character of a string (std's `String::pop`): `None`
/// and no change for an empty string.
#[verifier::external_body]
fn pop_char(s: &mut String) -> (r: Option<char>)
    ensures
        old(s)@.len() == 0 ==> r is None && final(s)@ == old(s)@,
        old(s)@.len() > 0 ==> r == Some(old(s)@.last()) && final(s)@ == old(s)@.drop_last(),
{
    s.pop()
}

/// Whether a character is white space (`char::is_whitespace`).
fn white_space(c: char) -> (r: bool)
    ensures
        r == is_white_space(c),
{
    let n = c as u32;
    (0x09 <= n && n <= 0x0d) || n == 0x20 || n == 0x85 || n == 0xa0 || n == 0x1680 || (0x2000 <= n
        && n <= 0x200a) || n == 0x2028 || n == 0x2029 || n == 0x202f || n == 0x205f || n == 0x3000
}

/// Whether a text is empty once trimmed (`s.trim().is_empty()`).
fn blank(s: &str) -> (r: bool)
    ensures
        r == is_blank(s@),
{
    let cs = chars_of(s);
    let mut i: usize = 0;
    while i < cs.len()
        invariant
            i <= cs.len(),
            cs@ == s@,
            forall|j: int| 0 <= j < i ==> is_white_space(#[trigger] cs@[j]),
        decreases cs.len() - i,
    {
        if !white_space(cs[i]) {
            return false;
        }
        i = i + 1;
    }
    true
}

} // verus!

verus! {

/// Distinct screenshot numbers give distinct file names, so a reserved name
/// never designates an earlier screenshot.
pub proof fn lemma_screenshot_names_distinct(a: nat, b: nat)
    requires
        a != b,
    ensures
        screenshot_name(a) != screenshot_name(b),
{
    reveal_strlit("step-");
    reveal_strlit(".webp");
    let na = screenshot_name(a);
    let nb = screenshot_name(b);
    if na == nb {
        let pa = decimal_pad4(a);
        let pb = decimal_pad4(b);
        assert(na.len() == 5 + pa.len() + 5);
        assert(nb.len() == 5 + pb.len() + 5);
        assert(na.subrange(5, na.len() - 5) =~= pa);
        assert(nb.subrange(5, nb.len() - 5) =~= pb);
        crate::strings::lemma_decimal_pad4_value(a);
        crate::strings::lemma_decimal_pad4_value(b);
    }
}

/// A backspace undoes the insertion of one character.
pub proof fn lemma_backspace_undoes_insert(pending: Seq<char>, token: KeyToken)
    requires
        token matches KeyToken::Insert(s) && s@.len() == 1,
    ensures
        apply_token(apply_token(pending, token), KeyToken::Backspace) == pending,
{
    if let KeyToken::Insert(s) = token {
        assert((pending + s@).drop_last() =~= pending);
    }
}

} // verus!
