use lucy::app_state::StatusType;
use lucy::simple_mode::simple_line;

fn shown(line: &str) -> Option<(String, StatusType)> {
    simple_line(line)
}

#[test]
fn completion_lines_take_the_status_tone() {
    assert_eq!(
        shown("[abc] Completed 200 OK in 5ms (Views: 1.0ms)"),
        Some(("Completed 200 OK in 5ms (Views: 1.0ms)".to_string(), StatusType::Success))
    );
    assert_eq!(shown("Completed 404 Not Found in 3ms").unwrap().1, StatusType::Warning);
    assert_eq!(
        shown("Completed 500 Internal Server Error in 10ms").unwrap().1,
        StatusType::Error
    );
    assert_eq!(shown("Completed 302 Found in 1ms").unwrap().1, StatusType::Unknown);
    assert_eq!(shown("Completed 200 Äpfel in 5ms").unwrap().1, StatusType::Success);
}

#[test]
fn summary_lines_are_shown_plain() {
    assert_eq!(
        shown("[x] Started GET \"/users\" for 127.0.0.1"),
        Some(("Started GET \"/users\" for 127.0.0.1".to_string(), StatusType::Unknown))
    );
    assert!(shown("Processing by UsersController#index as HTML").is_some());
    assert!(shown("Processing by Admin::UsersController#show as JSON").is_some());
    assert!(shown("  Parameters: {\"id\"=>\"1\"}").is_some());
    assert!(shown("  User Load (0.2ms)  SELECT \"users\".* FROM \"users\"").is_some());
    assert!(shown("  \u{21b3} app/controllers/users_controller.rb:5").is_some());
}

#[test]
fn other_lines_are_hidden() {
    assert!(shown("Rendering layout").is_none());
    assert!(shown("  CACHE User Load (0.0ms)  SELECT \"users\".* FROM \"users\"").is_none());
    assert!(shown("Completed 200 OK in ms").is_none());
    assert!(shown("Started get \"/x\"").is_none());
    assert!(shown("Processing by UsersController as HTML").is_none());
    assert!(shown("Parameters: {\"id\"\n}").is_none());
    assert!(shown("").is_none());
}

#[test]
fn the_text_after_the_last_bracket_is_kept() {
    assert_eq!(
        shown("[a] [b] Started GET \"/x\"").unwrap().0,
        "Started GET \"/x\""
    );
}
