//! Decisions of the capture loop: how each normalized input event changes
//! the session. The loop itself (threads, channels, screen capture) runs
//! outside the library and hands each event to these functions.

use vstd::prelude::*;

use crate::input::Button;
use crate::model::{window_opt_view, WindowInfo};
use crate::session::{
    click_action, click_fits, is_blank, screenshot_name, step_records, Session,
    SessionView,
};
use crate::text::{is_shift, key_text, key_to_token, Keycode};

verus! {

/// The text buffer after a key press with Shift in the given state: the
/// key's text is appended, Backspace removes the last character, other keys
/// change nothing.
pub open spec fn pending_after_key(pending: Seq<char>, key: Keycode, shift: bool) -> Seq<char> {
    match key_text(key, shift) {
        Some(t) => pending + t,
        None => if key == Keycode::Backspace && pending.len() > 0 {
            pending.drop_last()
        } else {
            pending
        },
    }
}

/// Applies a key press: ignored once the recording has stopped; a Shift key
/// sets the Shift state; any other key updates the text buffer.
pub fn on_key_down(session: &mut Session, key: Keycode)
    ensures
        ({
            let o = old(session)@;
            let f = final(session)@;
            &&& !o.recording ==> f == o
            &&& o.recording && (key == Keycode::LShift || key == Keycode::RShift) ==> f == (
            SessionView { shift_down: true, ..o })
            &&& o.recording && !(key == Keycode::LShift || key == Keycode::RShift) ==> f
                == o.with_steps(o.steps, pending_after_key(o.pending, key, o.shift_down))
        }),
{
    if !session.is_recording() {
        return;
    }
    if is_shift(&key) {
        session.set_shift_down(true);
        return;
    }
    let shift = session.is_shift_down();
    match key_to_token(&key, shift) {
        Some(token) => {
            session.apply_key(token);
        },
        None => {
            proof {
                assert(old(session)@ =~= old(session)@.with_steps(
                    old(session)@.steps,
                    old(session)@.pending,
                ));
            }
        },
    }
}

/// Applies a key release: releasing a Shift key clears the Shift state;
/// other releases change nothing.
pub fn on_key_up(session: &mut Session, key: Keycode)
    ensures
        (key == Keycode::LShift || key == Keycode::RShift) ==> final(session)@ == (SessionView {
            shift_down: false,
            ..old(session)@
        }),
        !(key == Keycode::LShift || key == Keycode::RShift) ==> final(session)@ == old(session)@,
{
    if !is_shift(&key) {
        return;
    }
    session.set_shift_down(false);
}

/// Records a click whose screen capture succeeded: ignored (`None`) once the
/// recording has stopped; otherwise reserves the next screenshot name,
/// records the click with it, and returns that name (the file to write the
/// capture to, relative to the session folder).
pub fn record_captured_click(
    session: &mut Session,
    button: Button,
    pos: Option<(i32, i32)>,
    window: Option<WindowInfo>,
) -> (r: Option<String>)
    requires
        old(session)@.recording ==> {
            &&& old(session)@.counter < usize::MAX
            &&& old(session)@.steps.len() + (if is_blank(old(session)@.pending) { 0int } else { 1 })
                < usize::MAX
            &&& click_fits(pos, window_opt_view(window))
        },
    ensures
        ({
            let o = old(session)@;
            let f = final(session)@;
            let n = o.steps.len();
            let w = window_opt_view(window);
            let text_steps: nat = if is_blank(o.pending) { 0 } else { 1 };
            &&& !o.recording ==> r is None && f == o
            &&& o.recording ==> {
                &&& r matches Some(name) && name@ == screenshot_name(o.counter + 1)
                &&& f == (SessionView { counter: o.counter + 1, ..o.with_steps(f.steps, Seq::empty()) })
                &&& f.steps.len() == n + text_steps + 1
                &&& f.steps.take(n as int) == o.steps
                &&& text_steps == 1 ==> step_records(
                    f.steps[n as int],
                    n + 1,
                    crate::model::ActionView::Text { content: o.pending },
                    w,
                    None,
                    o.lang,
                    o.start_ms,
                )
                &&& step_records(
                    f.steps.last(),
                    n + text_steps + 1,
                    click_action(button, pos, w),
                    w,
                    Some(screenshot_name(o.counter + 1)),
                    o.lang,
                    o.start_ms,
                )
                &&& o.consistent() ==> f.consistent()
            }
        }),
{
    if !session.is_recording() {
        return None;
    }
    let name = session.next_screenshot_name();
    session.record_click(button, pos, window, Some(name.clone()));
    proof {
        let o = old(session)@;
        let f = session@;
        assert(f =~= (SessionView { counter: o.counter + 1, ..o.with_steps(f.steps, Seq::empty()) }));
    }
    Some(name)
}

/// Backspace erases the last character typed: on a non-empty text buffer it
/// keeps all but the last character, and after a key that types one
/// character it gives back the buffer as it was before that key.
pub proof fn lemma_backspace_erases_typed_key(
    pending: Seq<char>,
    key: Keycode,
    shift: bool,
    shift2: bool,
)
    ensures
        pending.len() > 0 ==> pending_after_key(pending, Keycode::Backspace, shift2) + seq![
            pending.last(),
        ] == pending,
        pending.len() == 0 ==> pending_after_key(pending, Keycode::Backspace, shift2) == pending,
        key_text(key, shift) matches Some(t) && t.len() == 1 ==> pending_after_key(
            pending_after_key(pending, key, shift),
            Keycode::Backspace,
            shift2,
        ) == pending,
{
    if pending.len() > 0 {
        assert(pending.drop_last() + seq![pending.last()] =~= pending);
    }
    if let Some(t) = key_text(key, shift) {
        if t.len() == 1 {
            let typed = pending + t;
            assert(typed.len() > 0);
            assert(typed.drop_last() =~= pending);
        }
    }
}

} // verus!
