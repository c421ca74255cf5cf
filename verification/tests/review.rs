use ssr_core::capture::{draw_click_marker, window_size, RgbaImage};
use ssr_core::model::{Action, WindowInfo};
use ssr_core::progress::Progress;
use ssr_core::review::{action_line, date_line, human_date, navigate, window_line, Theme};
use ssr_core::{Button, Lang};

#[test]
fn action_lines() {
    let click = Action::Click { button: Button::Left, x: Some(-5), y: Some(7), rel_x: None, rel_y: None };
    assert_eq!(action_line(&click, Lang::Fr), "Action : clic gauche   —   position (-5, 7)");
    let nowhere = Action::Click { button: Button::Other(9), x: None, y: Some(7), rel_x: None, rel_y: None };
    assert_eq!(action_line(&nowhere, Lang::En), "Action: click button 9");
    let min = Action::Click { button: Button::Right, x: Some(i32::MIN), y: Some(0), rel_x: None, rel_y: None };
    assert_eq!(action_line(&min, Lang::En), "Action: click right   —   position (-2147483648, 0)");
    let text = Action::Text { content: "a\nb".into() };
    assert_eq!(action_line(&text, Lang::Fr), "Action : saisie « a⏎b »");
    assert_eq!(action_line(&text, Lang::En), "Action: typed “a⏎b”");
}

#[test]
fn window_lines() {
    let mut w = WindowInfo { title: "T".into(), app_name: "A".into(), ..Default::default() };
    assert_eq!(window_line(Some(&w), Lang::Fr), ("Fenêtre : « T » (A)".to_string(), false));
    w.app_name.clear();
    assert_eq!(window_line(Some(&w), Lang::En), ("Window: « T »".to_string(), false));
    w.title.clear();
    w.app_name = "A".into();
    assert_eq!(window_line(Some(&w), Lang::En), ("Application: A".to_string(), false));
    w.app_name.clear();
    assert_eq!(
        window_line(Some(&w), Lang::Fr),
        ("Fenêtre : inconnue (non exposée sous Wayland)".to_string(), true)
    );
    assert_eq!(
        window_line(None, Lang::En),
        ("Window: unknown (not exposed under Wayland)".to_string(), true)
    );
}

#[test]
fn date_lines() {
    assert_eq!(date_line("01/02/2024 10:00:00", "1.5", Lang::Fr), "Date : 01/02/2024 10:00:00   (T+1.5s)");
    assert_eq!(date_line("x", "0.0", Lang::En), "Date: x   (T+0.0s)");
    // A date in the year 2024 whatever the time zone.
    assert!(human_date(1_717_200_000_000).contains("/2024 "));
    assert_eq!(human_date(i64::MAX as u128), "?");
    // The timestamp is read as an i64: u64::MAX is -1 ms, just before the epoch.
    assert!(human_date(u128::from(u64::MAX)).contains("1969") || human_date(u128::from(u64::MAX)).contains("1970"));
}

#[test]
fn keyboard_navigation() {
    let rows = vec![1usize, 2, 3];
    assert_eq!(navigate(&rows, Some(2), false, true), Some(3));
    assert_eq!(navigate(&rows, Some(2), true, false), Some(1));
    assert_eq!(navigate(&rows, Some(3), false, true), None);
    assert_eq!(navigate(&rows, Some(1), true, false), None);
    // No selection: the last step is the current one.
    assert_eq!(navigate(&rows, None, true, false), Some(2));
    assert_eq!(navigate(&rows, Some(42), true, false), Some(2));
    assert_eq!(navigate(&rows, None, false, false), None);
    assert_eq!(navigate(&vec![], Some(1), true, true), None);
    // Down takes precedence.
    assert_eq!(navigate(&rows, Some(2), true, true), Some(3));
}

#[test]
fn theme_switch() {
    assert_eq!(Theme::Light.next(), Theme::Dark);
    assert_eq!(Theme::Dark.next(), Theme::System);
    assert_eq!(Theme::System.next(), Theme::Light);
    assert_eq!(Theme::Light.next().next().next(), Theme::Light);
    assert_eq!(Theme::Dark.tip(Lang::Fr), "Thème : obscur (cliquer pour système)");
    assert_eq!(Theme::System.tip(Lang::En), "Theme: system (click for light)");
}

#[test]
fn click_marker_is_a_ring() {
    let img = RgbaImage::from_raw(40, 40, vec![0u8; 40 * 40 * 4]).unwrap();
    let mut img = img;
    draw_click_marker(&mut img, 20, 20);
    let data = img.into_raw();
    let px = |x: usize, y: usize| data[(y * 40 + x) * 4..(y * 40 + x) * 4 + 4].to_vec();
    assert_eq!(px(20, 20), vec![0, 0, 0, 0], "center untouched");
    assert_eq!(px(36, 20), vec![235, 30, 30, 255], "outer radius painted");
    assert_eq!(px(20, 7), vec![235, 30, 30, 255], "inner radius painted");
    assert_eq!(px(20, 8), vec![0, 0, 0, 0], "inside the ring untouched");
    assert_eq!(px(37, 20), vec![0, 0, 0, 0], "outside the ring untouched");
}

#[test]
fn click_marker_is_clipped_to_the_image() {
    let mut img = RgbaImage::from_raw(4, 2, vec![9u8; 32]).unwrap();
    draw_click_marker(&mut img, -16, 0);
    assert_eq!(img.into_raw(), {
        let mut v = vec![9u8; 32];
        v[0..4].copy_from_slice(&[235, 30, 30, 255]);
        v
    });
    assert!(RgbaImage::from_raw(2, 2, vec![0u8; 15]).is_none());
    assert_eq!(RgbaImage::from_raw(2, 3, vec![0u8; 24]).map(|i| (i.width(), i.height())), Some((2, 3)));
}

#[test]
fn progress_is_shared_between_clones() {
    let p = Progress::new();
    assert_eq!(p.get(), None);
    let q = p.clone();
    q.set("Compressing…");
    assert_eq!(p.get().as_deref(), Some("Compressing…"));
    p.clear();
    assert_eq!(q.get(), None);
}

#[test]
fn human_date_at_the_bounds_of_the_calendar() {
    // Last millisecond of 31 December 262142 and first of 1 January -262143.
    assert_ne!(human_date(8_210_266_876_799_999), "?");
    assert_eq!(human_date(8_210_266_876_800_000), "?");
    let first: i64 = -8_334_601_228_800_000;
    assert_ne!(human_date((first as u64) as u128), "?");
    assert_eq!(human_date(((first - 1) as u64) as u128), "?");
    // Only the low 64 bits count.
    assert_eq!(human_date((1u128 << 64) + 8_210_266_876_800_000), "?");
    assert_eq!(human_date((1u128 << 64) + 1_717_200_000_000), human_date(1_717_200_000_000));
}

#[test]
fn human_date_is_written_day_first() {
    let d: Vec<char> = human_date(1_717_200_000_000).chars().collect();
    assert_eq!(d.len(), 19);
    assert_eq!(d[2], '/');
    assert_eq!(d[5], '/');
    assert_eq!(d[10], ' ');
    assert_eq!(d[13], ':');
    assert_eq!(d[16], ':');
}

#[test]
fn human_date_keeps_the_seconds_of_the_instant() {
    // 2024-06-01 00:00:45 UTC: whole-minute time zones keep `:45`.
    let d = human_date(1_717_200_045_000);
    assert!(d.ends_with(":45"));
    // The milliseconds are dropped.
    assert_eq!(human_date(1_717_200_045_999), d);
}

#[test]
fn window_size_from_its_edges() {
    assert_eq!(window_size(10, 20, 110, 70), (100, 50));
    assert_eq!(window_size(-50, -10, 30, 0), (80, 10));
    assert_eq!(window_size(10, 20, 5, 20), (0, 0));
    assert_eq!(window_size(i32::MIN, 0, -1, 0), (i32::MAX as u32, 0));
}
