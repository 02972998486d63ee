use lucy::app::{key_command, visible_window, App, Command, KeyInput, KeyOutcome, MouseInput, MouseKind};
use lucy::app_state::{LogEntry, Timestamp};
use lucy::layout::{LayoutInfo, Panel, Rect};

fn entry(request_id: &str, message: &str) -> LogEntry {
    LogEntry { timestamp: Timestamp { millis: 0 }, request_id: request_id.to_string(), message: message.to_string() }
}

fn app_with_screen() -> App {
    let mut app = App::new();
    app.set_screen(Rect::new(0, 0, 100, 40));
    app
}

#[test]
fn key_bindings() {
    assert_eq!(key_command(Panel::RequestList, KeyInput::Ctrl('c')), Command::Quit);
    assert_eq!(key_command(Panel::RequestList, KeyInput::Char('j')), Command::NextRequest(1));
    assert_eq!(key_command(Panel::RequestList, KeyInput::Ctrl('d')), Command::NextRequest(3));
    assert_eq!(key_command(Panel::RequestDetail, KeyInput::Char('j')), Command::Scroll(Panel::RequestDetail, 1));
    assert_eq!(key_command(Panel::SqlInfo, KeyInput::Ctrl('u')), Command::Scroll(Panel::SqlInfo, -10));
    assert_eq!(key_command(Panel::LogStream, KeyInput::PageUp), Command::Scroll(Panel::LogStream, -10));
    assert_eq!(key_command(Panel::RequestList, KeyInput::PageDown), Command::Nothing);
    assert_eq!(key_command(Panel::RequestList, KeyInput::Char('d')), Command::Nothing);
    assert_eq!(key_command(Panel::RequestList, KeyInput::Tab), Command::FocusNext);
    assert_eq!(key_command(Panel::RequestList, KeyInput::Char('a')), Command::ToggleLogStream);
}

#[test]
fn keys_drive_focus_selection_and_modes() {
    let mut app = app_with_screen();
    for id in ["a", "b", "c"] {
        app.add_log_entry(entry(id, "Started GET /"));
    }
    assert_eq!(app.state.selected_index, 2);
    assert_eq!(app.handle_key(KeyInput::Char(' ')), KeyOutcome::Continue);
    assert_eq!(app.state.selected_index, 0);
    app.handle_key(KeyInput::Down);
    assert_eq!(app.state.selected_index, 1);
    app.handle_key(KeyInput::Tab);
    assert_eq!(app.app_view.focused_panel, Panel::RequestDetail);
    app.handle_key(KeyInput::BackTab);
    app.handle_key(KeyInput::BackTab);
    assert_eq!(app.app_view.focused_panel, Panel::LogStream);
    assert_eq!(app.handle_key(KeyInput::Char('m')), KeyOutcome::SetMouseCapture(false));
    assert!(app.copy_mode_enabled);
    assert_eq!(app.handle_key(KeyInput::Char('M')), KeyOutcome::SetMouseCapture(true));
    app.handle_key(KeyInput::Char('s'));
    assert!(app.simple_mode_enabled);
    assert_eq!(app.handle_key(KeyInput::Ctrl('c')), KeyOutcome::Quit);
}

#[test]
fn selecting_resets_detail_and_shows_the_row() {
    let mut app = app_with_screen();
    for i in 0..60 {
        app.add_log_entry(entry(&format!("r{}", i), "x"));
    }
    app.app_view.set_scroll_offset(Panel::RequestDetail, 4);
    app.select_request(50);
    assert_eq!(app.state.selected_index, 50);
    assert_eq!(app.app_view.get_scroll_offset(Panel::RequestDetail), 0);
    let height = app.app_view.viewport_height(Panel::RequestList);
    let offset = app.app_view.get_scroll_offset(Panel::RequestList);
    assert!(offset <= 50 && 50 < offset + height);
    app.select_request(500);
    assert_eq!(app.state.selected_index, 50);
}

#[test]
fn scroll_limits_follow_content() {
    let mut app = app_with_screen();
    for i in 0..40 {
        app.add_log_entry(entry("r", &format!("line {}", i)));
    }
    let height = app.app_view.viewport_height(Panel::RequestDetail);
    assert_eq!(app.get_max_detail_scroll(), 40 - height);
    app.apply_scroll_to(Panel::RequestDetail, 1000);
    assert_eq!(app.app_view.get_scroll_offset(Panel::RequestDetail), 40 - height);
    app.apply_scroll_to(Panel::RequestDetail, isize::MIN);
    assert_eq!(app.app_view.get_scroll_offset(Panel::RequestDetail), 0);
    assert_eq!(app.get_max_sql_scroll(), 0);
    let visible = app.visible_detail_entries(3);
    assert_eq!(visible.len(), 3);
    assert_eq!(visible[0].message, "line 39");
}

#[test]
fn stream_follows_unless_scrolled_away() {
    let mut app = app_with_screen();
    let height = app.app_view.viewport_height(Panel::LogStream);
    for i in 0..(height + 5) {
        app.add_log_entry(entry("", &format!("l{}", i)));
    }
    assert_eq!(app.app_view.get_scroll_offset(Panel::LogStream), 5);
    assert_eq!(app.get_max_stream_scroll(), 5);
    app.app_view.set_scroll_offset(Panel::LogStream, 1);
    app.add_log_entry(entry("", "more"));
    assert_eq!(app.app_view.get_scroll_offset(Panel::LogStream), 1);
    app.app_view.focused_panel = Panel::LogStream;
    app.add_log_entry(entry("", "again"));
    assert_eq!(app.app_view.get_scroll_offset(Panel::LogStream), 7);
    let visible = app.get_visible_logs(2);
    assert_eq!(visible.len(), 2);
    assert_eq!(visible[0].message, format!("l{}", 7));
}

#[test]
fn mouse_selects_scrolls_and_focuses() {
    let mut app = App::new();
    app.app_view.layout_info = LayoutInfo::new()
        .with_region(Panel::RequestList, Rect::new(0, 0, 20, 30))
        .with_region(Panel::RequestDetail, Rect::new(20, 0, 80, 30));
    for id in ["a", "b", "c", "d"] {
        app.add_log_entry(entry(id, "x"));
    }
    app.app_view.focused_panel = Panel::RequestDetail;
    app.handle_mouse_event(MouseInput { kind: MouseKind::LeftDown, column: 3, row: 4 });
    assert_eq!(app.app_view.focused_panel, Panel::RequestList);
    assert_eq!(app.state.selected_index, 2);
    app.handle_mouse_event(MouseInput { kind: MouseKind::ScrollDown, column: 3, row: 4 });
    assert_eq!(app.state.selected_index, 3);
    app.handle_mouse_event(MouseInput { kind: MouseKind::LeftDown, column: 3, row: 20 });
    assert_eq!(app.state.selected_index, 3);
    app.handle_mouse_event(MouseInput { kind: MouseKind::LeftDown, column: 50, row: 5 });
    assert_eq!(app.app_view.focused_panel, Panel::RequestDetail);
    app.toggle_copy_mode();
    app.handle_mouse_event(MouseInput { kind: MouseKind::LeftDown, column: 3, row: 2 });
    assert_eq!(app.app_view.focused_panel, Panel::RequestDetail);
    assert_eq!(app.state.selected_index, 3);
}

#[test]
fn windows_of_rows() {
    assert_eq!(visible_window(0, 0, 5), (0, 0));
    assert_eq!(visible_window(2, 10, 5), (2, 7));
    assert_eq!(visible_window(8, 10, 5), (8, 10));
    assert_eq!(visible_window(50, 10, 5), (9, 10));
}
