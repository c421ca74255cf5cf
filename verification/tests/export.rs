use ssr_core::export::{escape, render_step};
use ssr_core::model::{Action, Step, WindowInfo};
use ssr_core::{Button, Lang};

#[test]
fn escape_replaces_markup_characters() {
    assert_eq!(escape("a<b>&\"c'"), "a&lt;b&gt;&amp;&quot;c'");
    assert_eq!(escape("&amp;"), "&amp;amp;");
    assert_eq!(escape(""), "");
    assert_eq!(escape("é⏎"), "é⏎");
}

#[test]
fn step_section_formula() {
    let st = Step {
        index: 12,
        timestamp_ms: 0,
        elapsed_ms: 0,
        action: Action::Click { button: Button::Left, x: Some(1), y: Some(2), rel_x: None, rel_y: None },
        window: Some(WindowInfo {
            title: "T<".into(),
            app_name: "a&b".into(),
            pid: 7,
            x: 0,
            y: 0,
            width: 3,
            height: 4,
        }),
        screenshot: Some("s\".webp".into()),
        description: "ignored: rebuilt in the report's language".into(),
    };
    assert_eq!(
        render_step(&st, Lang::Fr, "0.3"),
        "<section class=\"step\">\n  <h2><span class=\"num\">12</span>Clic gauche sur « T&lt; » (a&amp;b)</h2>\n  <p class=\"ctx\">⏱ 0.3s — a&amp;b · PID 7 · 3×4</p>\n  <img src=\"s&quot;.webp\" alt=\"capture étape 12\" onclick=\"zoom(this)\">\n</section>\n"
    );
}

#[test]
fn report_out_of_the_calendar_is_dated_with_a_question_mark() {
    let mut session = ssr_core::Session::new("/tmp/out".to_string(), Lang::En);
    session.started_at = i64::MAX;
    let seconds: Vec<String> = Vec::new();
    let html = ssr_core::export::render_html(&session, Lang::En, &seconds);
    assert_eq!(html, ssr_core::export::render_html_dated(&session, Lang::En, "?", &seconds));
}
