use upmd::config::{CliConfig, TuiConfig, INLINE_MAX_LINES_MAX};
use upmd::exec::Envs;
use upmd::rect::Rect;
use upmd::theme::Theme;
use upmd::tui::envs::{self, insert_cursor, EnvVars, Field};
use upmd::tui::notification::{self, notification_area, FlashKind, FlashMessage, DEFAULT_DURATION};
use upmd::tui::preview::images::{
    image_base_dir, is_url, resolve_path, DecodedImage, ImageCache,
};
use upmd::tui::search;
use upmd::tui::preview::rows::inline_pty_rows;

fn rect(x: u16, y: u16, width: u16, height: u16) -> Rect {
    Rect { x, y, width, height }
}

#[test]
fn test_tui_config_default() {
    assert_eq!(TuiConfig::default().inline_max_lines(), INLINE_MAX_LINES_MAX);
}

#[test]
fn test_cli_config_default() {
    assert!(CliConfig::default().preview_lines.is_none());
}

#[test]
fn test_new_message_not_expired_immediately() {
    let now = 5_000;
    let msg = FlashMessage::new("hello", FlashKind::Info, now, DEFAULT_DURATION);
    assert!(!msg.is_expired(now));
}

#[test]
fn test_new_message_expired_after_duration() {
    let now = 5_000;
    let msg = FlashMessage::new("hello", FlashKind::Info, now, DEFAULT_DURATION);
    assert!(msg.is_expired(now + DEFAULT_DURATION));
}

#[test]
fn test_new_message_respects_custom_duration() {
    let now = 5_000;
    let msg = FlashMessage::new("slow", FlashKind::Info, now, 100);
    assert!(!msg.is_expired(now + 50));
    assert!(msg.is_expired(now + 100));
}

#[test]
fn test_latest_message_replaces() {
    let old = FlashMessage::info("old", 0);
    let new = FlashMessage::success("new", 0);
    let current = Some(new.clone());
    assert_eq!(current.as_ref().unwrap().text, "new");
    assert_eq!(current.as_ref().unwrap().kind, FlashKind::Success);
    drop(old);
}

#[test]
fn test_notification_area_bottom_right() {
    let msg = FlashMessage::info("Saved", 0);
    let r = notification_area(&msg, rect(0, 0, 80, 24)).unwrap();
    assert_eq!(r.y, 23);
    assert_eq!(r.x + r.width, 80);
    assert_eq!(r.height, 1);
    assert_eq!(r.width, 7);
}

#[test]
fn test_notification_area_clips_to_terminal_width() {
    let msg = FlashMessage::info("A very long flash message", 0);
    let r = notification_area(&msg, rect(0, 0, 10, 3)).unwrap();
    assert_eq!(r, rect(0, 2, 10, 1));
}

#[test]
fn test_notification_area_empty_terminal_is_none() {
    let msg = FlashMessage::info("Saved", 0);
    assert_eq!(notification_area(&msg, rect(0, 0, 0, 3)), None);
    assert_eq!(notification_area(&msg, rect(0, 0, 10, 0)), None);
}

#[test]
fn wide_characters_take_two_columns_of_a_notification() {
    let msg = notification::info("日本", 0);
    assert_eq!(notification_area(&msg, rect(0, 0, 80, 24)).unwrap().width, 6);
}

#[test]
fn test_kinds_have_distinct_labels() {
    assert_eq!(FlashMessage::info("x", 0).kind, FlashKind::Info);
    assert_eq!(FlashMessage::success("x", 0).kind, FlashKind::Success);
    assert_eq!(FlashMessage::error("x", 0).kind, FlashKind::Error);
}

fn editing(name: &str, cursor_x: usize) -> EnvVars {
    let mut envs = EnvVars::new(&Envs::new());
    envs.edit_name = name.to_string();
    envs.editing_field = Some(Field::Name);
    envs.cursor_x = cursor_x;
    envs
}

#[test]
fn test_insert_multibyte_characters() {
    let mut envs = editing("ab", 1);
    envs.insert_char('é');
    assert_eq!(envs.edit_name, "aéb");
    assert_eq!(envs.cursor_x, 2);
    envs.insert_char('ก');
    assert_eq!(envs.edit_name, "aéกb");
    assert_eq!(envs.cursor_x, 3);
    envs.insert_char('a');
    assert_eq!(envs.edit_name, "aéกab");
    assert_eq!(envs.cursor_x, 4);
}

#[test]
fn test_delete_multibyte_characters() {
    let mut envs = editing("aéกb", 3);
    envs.delete_char();
    assert_eq!(envs.edit_name, "aéb");
    envs.delete_char();
    assert_eq!(envs.edit_name, "ab");
}

#[test]
fn test_insert_cursor_multibyte() {
    let mut s = "aéกb".to_string();
    insert_cursor(&mut s, 2);
    assert_eq!(s, "aé█กb");
}

#[test]
fn test_cursor_does_not_exceed_char_count() {
    let mut envs = editing("é", 1);
    envs.move_cursor_right();
    assert_eq!(envs.cursor_x, 1, "cursor should stop at char count");
}

#[test]
fn test_resolve_path() {
    let base = "/repo/docs";
    for (src, expected) in [
        ("/abs/image.png", "/abs/image.png"),
        ("img/a.png", "/repo/docs/img/a.png"),
    ] {
        assert_eq!(resolve_path(src, base), expected);
    }
}

#[test]
fn test_image_base_dir_from_file_parent() {
    assert_eq!(image_base_dir(Some("/repo/docs/runbook.md"), "/home"), "/repo/docs");
}

#[test]
fn images_without_a_directory_are_looked_for_in_the_current_one() {
    assert_eq!(image_base_dir(None, "/home"), "/home");
    assert_eq!(image_base_dir(Some("runbook.md"), "/home"), "/home");
}

#[test]
fn test_decode_request_lifecycle() {
    let base = "/repo/docs";
    let path = resolve_path("missing.png", base);
    let mut cache = ImageCache::new();
    cache.request("missing.png", base);
    cache.request("missing.png", base);
    assert_eq!(cache.take_requests(), vec![path.clone()]);
    assert!(cache.take_requests().is_empty());
    assert!(!cache.complete(&DecodedImage::Failed { path }, 80));
    cache.request("missing.png", base);
    assert!(cache.take_requests().is_empty());
}

#[test]
fn test_url_sources() {
    for src in [
        "HTTPS://example.com/image.png",
        "data:image/png;base64,AAAA",
        "file:///tmp/image.png",
    ] {
        assert!(is_url(src), "input: {src}");
        let mut cache = ImageCache::new();
        cache.request(src, "/repo/docs");
        assert!(cache.loading.is_empty(), "input: {src}");
        assert!(cache.entries.is_empty(), "input: {src}");
    }
    for src in ["img/a.png", "/abs/image.png", r"C:\images\a.png"] {
        assert!(!is_url(src), "input: {src}");
    }
}

#[test]
fn inline_pty_uses_all_rows_below_visible_source() {
    assert_eq!(inline_pty_rows(40, 4, 5, 0), (35, 0));
}

#[test]
fn inline_pty_scrolls_minimally_to_reserve_proportional_height() {
    assert_eq!(inline_pty_rows(40, 38, 5, 0), (16, 15));
}

#[test]
fn inline_pty_caps_target_when_source_nearly_fills_viewport() {
    assert_eq!(inline_pty_rows(40, 35, 36, 0), (4, 0));
}

#[test]
fn variables_are_listed_by_name_and_found_whatever_the_case() {
    let mut envs = Envs::new();
    for (name, value) in [("USER", "me"), ("HOME", "/home/me"), ("PATH", "/bin")] {
        envs.insert(name.to_string(), value.to_string());
    }
    let mut vars = EnvVars::new(&envs);
    let theme = Theme::default();
    let names = |vars: &EnvVars| -> Vec<String> {
        vars.render_envs(20, &Theme::default()).iter().map(|row| row.name.text()).collect()
    };
    assert_eq!(names(&vars), [" HOME ", " PATH ", " USER "]);
    vars.update(envs::Action::Main(envs::MainAction::Search));
    for c in "ME".chars() {
        vars.update(envs::Action::Search(search::Action::Input(c)));
    }
    let rows = vars.render_envs(20, &theme);
    assert_eq!(rows.len(), 2);
    assert_eq!(rows[0].name.text(), " HOME ");
    let marked: Vec<&str> = rows[0]
        .value
        .spans
        .iter()
        .filter(|span| span.style == theme.search_highlight_style())
        .map(|span| span.content.as_str())
        .collect();
    assert_eq!(marked, ["me", "me"]);
    vars.update(envs::Action::Search(search::Action::Input('x')));
    assert!(vars.render_envs(20, &theme).is_empty());
}
