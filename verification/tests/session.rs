use ssr_core::export::{archive_entries, render_html, render_html_dated};
use ssr_core::model::{Action, Step, WindowInfo};
use ssr_core::recorder::{on_key_down, on_key_up, record_captured_click};
use ssr_core::session::Session;
use ssr_core::text::{key_to_token, KeyToken, Keycode};
use ssr_core::{Button, Lang};

fn window() -> WindowInfo {
    WindowInfo {
        title: "Éditeur".into(),
        app_name: "demo".into(),
        pid: 42,
        x: 100,
        y: 50,
        width: 800,
        height: 600,
    }
}

#[test]
fn records_text_then_click_and_exports() {
    let mut session = Session::new("/tmp/ssr-test-flow".to_string(), Lang::Fr);

    // Typing "Bonjour": Shift+b then "onjour".
    session.apply_key(KeyToken::Insert("B".into()));
    for c in "onjour".chars() {
        session.apply_key(KeyToken::Insert(c.to_string()));
    }

    // A click first flushes the text (Text step), then creates the Click step.
    session.record_click(Button::Left, Some((260, 130)), Some(window()), None);
    session.stop();

    assert_eq!(session.steps.len(), 2, "one Text step + one Click step");
    assert!(matches!(session.steps[0].action, Action::Text { .. }));
    if let Action::Click { rel_x, rel_y, .. } = session.steps[1].action {
        assert_eq!((rel_x, rel_y), (Some(160), Some(80)), "coordinates relative to the window");
    } else {
        panic!("the 2nd step must be a click");
    }

    // The report and the archive contents (the files are written by the app).
    let seconds: Vec<String> = session.steps.iter().map(|_| "0.0".to_string()).collect();
    let html = render_html(&session, Lang::Fr, &seconds);
    assert!(html.contains("Bonjour"));
    assert!(html.contains("Support Step Recorder"));
    let entries = archive_entries(&session);
    assert!(entries.contains(&"report.html".to_string()));
    assert!(entries.contains(&"steps.json".to_string()));
}

#[test]
fn steps_are_numbered_and_described() {
    let mut s = Session::new("d".to_string(), Lang::En);
    s.apply_key(KeyToken::Insert("hi\n".into()));
    s.record_click(Button::Right, None, None, Some("step-0001.webp".into()));
    s.record_click(Button::Other(7), Some((5, -3)), None, None);
    assert_eq!(s.steps.len(), 3);
    for (i, st) in s.steps.iter().enumerate() {
        assert_eq!(st.index, i + 1);
    }
    assert_eq!(s.steps[0].description, "Typed “hi⏎” in the active window");
    assert_eq!(s.steps[1].description, "Right click on the active window");
    assert_eq!(s.steps[1].screenshot.as_deref(), Some("step-0001.webp"));
    assert_eq!(s.steps[2].description, "Button 7 click on the active window");
    // Without a window, the relative position is the global one.
    if let Action::Click { x, y, rel_x, rel_y, .. } = s.steps[2].action {
        assert_eq!((x, y, rel_x, rel_y), (Some(5), Some(-3), Some(5), Some(-3)));
    } else {
        panic!("click expected");
    }
    // Wayland: no position at all.
    s.record_click(Button::Left, None, Some(window()), None);
    if let Action::Click { x, rel_x, .. } = s.steps[3].action {
        assert_eq!((x, rel_x), (None, None));
    } else {
        panic!("click expected");
    }
    for st in &s.steps {
        assert!(st.elapsed_ms <= st.timestamp_ms);
    }
}

#[test]
fn blank_text_is_not_a_step_and_backspace_erases() {
    let mut s = Session::new("d".to_string(), Lang::Fr);
    s.apply_key(KeyToken::Insert(" \t\n".into()));
    s.flush_text(None);
    assert!(s.steps.is_empty(), "white space only: no step");
    s.apply_key(KeyToken::Backspace); // on an empty buffer: nothing
    s.apply_key(KeyToken::Insert("ab".into()));
    s.apply_key(KeyToken::Insert("c".into()));
    s.apply_key(KeyToken::Backspace); // undoes "c"
    s.flush_text(Some(window()));
    assert_eq!(s.steps.len(), 1);
    match &s.steps[0].action {
        Action::Text { content } => assert_eq!(content, "ab"),
        _ => panic!("text expected"),
    }
    assert_eq!(s.steps[0].description, "Saisie « ab » dans « Éditeur » (demo)");
    // The buffer was emptied by the flush.
    s.flush_text(None);
    assert_eq!(s.steps.len(), 1);
    // Non-ASCII white space (U+3000) is blank too.
    s.apply_key(KeyToken::Insert("\u{3000}\u{a0}".into()));
    s.stop();
    assert_eq!(s.steps.len(), 1);
    assert!(!s.recording);
}

#[test]
fn screenshot_names_are_zero_padded_and_fresh() {
    let mut s = Session::new("d".to_string(), Lang::Fr);
    assert_eq!(s.next_screenshot_name(), "step-0001.webp");
    assert_eq!(s.next_screenshot_name(), "step-0002.webp");
    for _ in 0..9997 {
        s.next_screenshot_name();
    }
    assert_eq!(s.next_screenshot_name(), "step-10000.webp");
}

#[test]
fn push_step_at_stamps_the_step() {
    let mut s = Session::new("d".to_string(), Lang::Fr);
    s.push_step_at(Action::Text { content: "x".into() }, None, None, 0);
    assert_eq!(s.steps[0].timestamp_ms, 0);
    // Earlier than the start of the session: no negative elapsed time.
    assert_eq!(s.steps[0].elapsed_ms, 0);
    assert_eq!(s.steps[0].description, "Saisie « x » dans la fenêtre active");
}

#[test]
fn key_events_feed_the_buffer_while_recording() {
    let mut s = Session::new("d".to_string(), Lang::En);
    on_key_down(&mut s, Keycode::LShift);
    assert!(s.shift_down);
    on_key_down(&mut s, Keycode::H);
    on_key_up(&mut s, Keycode::LShift);
    assert!(!s.shift_down);
    on_key_down(&mut s, Keycode::I);
    on_key_down(&mut s, Keycode::F1); // no text
    on_key_up(&mut s, Keycode::I); // no effect
    let name = record_captured_click(&mut s, Button::Left, Some((1, 2)), None);
    assert_eq!(name.as_deref(), Some("step-0001.webp"));
    assert_eq!(s.steps.len(), 2);
    assert_eq!(s.steps[0].description, "Typed “Hi” in the active window");
    assert_eq!(s.steps[1].screenshot.as_deref(), Some("step-0001.webp"));
    // Once stopped, events are ignored.
    s.stop();
    on_key_down(&mut s, Keycode::A);
    assert!(record_captured_click(&mut s, Button::Left, None, None).is_none());
    s.flush_text(None);
    assert_eq!(s.steps.len(), 2);
}

#[test]
fn token_of_a_key_goes_into_the_buffer() {
    let mut s = Session::new("d".to_string(), Lang::Fr);
    if let Some(t) = key_to_token(&Keycode::Key2, true) {
        s.apply_key(t);
    }
    s.stop();
    assert_eq!(s.steps[0].description, "Saisie « @ » dans la fenêtre active");
}

#[test]
fn descriptions_in_both_languages() {
    let click = Action::Click { button: Button::Middle, x: None, y: None, rel_x: None, rel_y: None };
    let w = window();
    assert_eq!(Step::build_description(&click, Some(&w), Lang::Fr), "Clic milieu sur « Éditeur » (demo)");
    assert_eq!(Step::build_description(&click, Some(&w), Lang::En), "Middle click on « Éditeur » (demo)");
    let untitled = WindowInfo { title: "T".into(), ..Default::default() };
    assert_eq!(Step::build_description(&click, Some(&untitled), Lang::En), "Middle click on « T »");
    let text = Action::Text { content: "a\nb".into() };
    assert_eq!(Step::build_description(&text, None, Lang::Fr), "Saisie « a⏎b » dans la fenêtre active");
}

#[test]
fn dated_report_lists_the_steps() {
    let mut s = Session::new("d".to_string(), Lang::En);
    s.record_click(Button::Left, Some((3, 4)), Some(window()), Some("step-0001.webp".into()));
    s.apply_key(KeyToken::Insert("<b>&\"".into()));
    s.stop();
    let html = render_html_dated(&s, Lang::En, "2024-01-02 03:04:05", &vec!["1.5".into(), "2.0".into()]);
    assert!(html.starts_with("<!DOCTYPE html>\n<html lang=\"en\">"));
    assert!(html.contains("2 step(s) — recorded on 2024-01-02 03:04:05"));
    assert!(html.contains("<section class=\"step\">\n  <h2><span class=\"num\">1</span>Left click on « Éditeur » (demo)</h2>"));
    assert!(html.contains("<p class=\"ctx\">⏱ 1.5s — demo · PID 42 · 800×600</p>"));
    assert!(html.contains("<img src=\"step-0001.webp\" alt=\"capture étape 1\" onclick=\"zoom(this)\">"));
    assert!(html.contains("<section class=\"step typed\">"));
    assert!(html.contains("Typed “&lt;b&gt;&amp;&quot;” in the active window"));
    assert!(html.contains("⏱ 2.0s — </p>"));
    assert!(html.contains("replay ? `Step ${cur + 1} / ${all.length}` : '';"));
    assert!(html.ends_with("</html>\n"));
    let fr = render_html_dated(&s, Lang::Fr, "d", &vec!["1.5".into(), "2.0".into()]);
    assert!(fr.contains("<html lang=\"fr\">"));
    assert!(fr.contains("2 étape(s) — enregistré le d"));
    assert!(fr.contains("Clic gauche sur « Éditeur » (demo)"));
    assert_eq!(archive_entries(&s), vec!["report.html", "steps.json", "step-0001.webp"]);
}

#[test]
fn new_session_is_dated_by_the_system_clock() {
    let before = std::time::SystemTime::now()
        .duration_since(std::time::UNIX_EPOCH)
        .unwrap()
        .as_millis() as i64;
    let s = Session::new("d".to_string(), Lang::En);
    let after = std::time::SystemTime::now()
        .duration_since(std::time::UNIX_EPOCH)
        .unwrap()
        .as_millis() as i64;
    assert!(before <= s.started_at && s.started_at <= after);
}
