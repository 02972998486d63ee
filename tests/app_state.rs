use lucy::app_state::{classify_status, AppState, LogEntry, LogGroup, StatusType, Timestamp};
use lucy::sql_info::QueryType;

fn entry(request_id: &str, message: &str) -> LogEntry {
    LogEntry {
        timestamp: Timestamp { millis: 1_700_000_000_000 },
        request_id: request_id.to_string(),
        message: message.to_string(),
    }
}

#[test]
fn test_app_state_new() {
    let state = AppState::new();
    assert_eq!(state.selected_index, 0);
    assert!(state.request_ids().is_empty());
    assert!(state.groups.is_empty());
    assert!(state.request_ids.is_empty());
    assert!(state.all_logs.is_empty());
}

#[test]
fn test_select_request() {
    let mut state = AppState::new();

    assert!(!state.select_request(0));

    state.add_log_entry(entry("test-id", "Started GET /test"));

    assert!(state.select_request(0));
    assert_eq!(state.selected_index, 0);

    assert!(!state.select_request(1));
}

#[test]
fn test_add_log_entry() {
    let mut state = AppState::new();

    let is_new = state.add_log_entry(entry("req-1", "Started GET /test"));
    assert!(is_new);
    assert_eq!(state.request_ids().len(), 1);
    assert_eq!(state.request_ids()[0], "req-1");
    assert_eq!(state.all_logs.len(), 1);
    assert_eq!(state.selected_index, 0);

    let is_new2 = state.add_log_entry(entry("req-1", "Processing by TestController"));
    assert!(!is_new2);
    assert_eq!(state.request_ids().len(), 1);
    assert_eq!(state.all_logs.len(), 2);
    assert_eq!(state.selected_index, 0);

    let is_new3 = state.add_log_entry(entry("req-2", "Started GET /another"));
    assert!(is_new3);
    assert_eq!(state.request_ids().len(), 2);
    assert_eq!(state.request_ids()[0], "req-2");
    assert_eq!(state.request_ids()[1], "req-1");
    assert_eq!(state.all_logs.len(), 3);
    assert_eq!(state.selected_index, 1);
}

#[test]
fn test_selected_index_adjustment() {
    let mut state = AppState::new();
    assert_eq!(state.selected_index, 0);

    state.add_log_entry(entry("req-1", "Started GET /test1"));
    assert_eq!(state.selected_index, 0);

    state.add_log_entry(entry("req-2", "Started GET /test2"));
    assert_eq!(state.selected_index, 1);

    state.select_request(0);
    assert_eq!(state.selected_index, 0);

    state.add_log_entry(entry("req-3", "Started GET /test3"));
    assert_eq!(state.selected_index, 1);
}

#[test]
fn test_time_order_preservation() {
    let mut state = AppState::new();

    let requests = ["req-3", "req-2", "req-1"];

    for &req_id in &requests {
        state.add_log_entry(entry(req_id, &format!("Started GET /{}", req_id)));
    }

    assert_eq!(state.request_ids()[0], "req-1");
    assert_eq!(state.request_ids()[1], "req-2");
    assert_eq!(state.request_ids()[2], "req-3");

    let ids = state.request_ids();
    assert_eq!(ids[0], "req-1");
    assert_eq!(ids[1], "req-2");
    assert_eq!(ids[2], "req-3");
}

#[test]
fn three_new_requests_keep_the_first_selected() {
    let mut state = AppState::new();
    for id in ["req-3", "req-2", "req-1"] {
        state.add_log_entry(entry(id, "Started GET /"));
    }
    assert_eq!(state.request_ids, vec!["req-1", "req-2", "req-3"]);
    assert_eq!(state.selected_index, 2);
    assert_eq!(state.selected_request_id().unwrap(), "req-3");
}

#[test]
fn started_then_completed_round_trip() {
    let mut state = AppState::new();
    state.add_log_entry(entry("abc-1", "[abc-1] Started GET \"/x\""));
    state.add_log_entry(entry("abc-1", "[abc-1] Completed 200 OK in 5ms"));
    let group = state.selected_group().unwrap();
    assert!(group.finished);
    assert_eq!(group.status_type, StatusType::Success);
    assert!(group.title.starts_with("GET \"/x\""));
    assert_eq!(group.entries.len(), 2);
    assert_eq!(state.selected_entries_count(), 2);
}

#[test]
fn sql_lines_of_one_request_are_aggregated() {
    let mut state = AppState::new();
    state.add_log_entry(entry("abc-1", "[abc-1] SQL (0.1ms) SELECT * FROM users"));
    state.add_log_entry(entry(
        "abc-1",
        "[abc-1] SQL (0.1ms) SELECT o.* FROM orders o JOIN users u ON o.user_id=u.id",
    ));
    let sql = &state.selected_group().unwrap().sql_query_info;
    assert_eq!(sql.query_count(QueryType::Select), 2);
    assert_eq!(sql.table_count("users"), 2);
    assert_eq!(sql.table_count("orders"), 1);
    assert_eq!(state.selected_sql_line_count(), 6);
}

#[test]
fn entries_are_newest_first() {
    let mut state = AppState::new();
    for m in ["one", "two", "three"] {
        state.add_log_entry(entry("r", m));
    }
    let group = state.selected_group().unwrap();
    let messages: Vec<&str> = group.entries.iter().map(|e| e.message.as_str()).collect();
    assert_eq!(messages, vec!["three", "two", "one"]);
    assert_eq!(group.title, "...");
}

#[test]
fn unscoped_lines_only_reach_the_flat_buffer() {
    let mut state = AppState::new();
    assert!(!state.add_log_entry(entry("", "booting")));
    assert_eq!(state.all_logs.len(), 1);
    assert_eq!(state.log_group_count(), 0);
    assert!(state.selected_group().is_none());
    assert_eq!(state.selected_entries_count(), 0);
    assert_eq!(state.selected_sql_line_count(), 0);
}

#[test]
fn finished_never_reverts_and_bad_status_keeps_class() {
    let mut group = LogGroup::new(&entry("r", "Completed 404 Not Found"));
    assert!(group.finished);
    assert_eq!(group.status_type, StatusType::Warning);
    group.add_entry(entry("r", "Started GET /again"));
    assert!(group.finished);
    group.add_entry(entry("r", "Completed abc"));
    assert_eq!(group.status_type, StatusType::Warning);
    group.add_entry(entry("r", "Completed 503 Service Unavailable"));
    assert_eq!(group.status_type, StatusType::Error);
    group.add_entry(entry("r", "Completed 302 Found"));
    assert_eq!(group.status_type, StatusType::Unknown);
    group.add_entry(entry("r", "Completed +201 Created"));
    assert_eq!(group.status_type, StatusType::Success);
    group.add_entry(entry("r", "Completed 70000 Odd"));
    assert_eq!(group.status_type, StatusType::Success);
    assert_eq!(group.title, "GET /again");
}

#[test]
fn completed_must_be_a_word_of_its_own() {
    let group = LogGroup::new(&entry("r", "xCompleted 500 Error"));
    assert!(group.finished);
    assert_eq!(group.status_type, StatusType::Unknown);
    let group = LogGroup::new(&entry("r", "Completed"));
    assert!(!group.finished);
}

#[test]
fn status_classes() {
    assert_eq!(classify_status(200), StatusType::Success);
    assert_eq!(classify_status(299), StatusType::Success);
    assert_eq!(classify_status(400), StatusType::Warning);
    assert_eq!(classify_status(499), StatusType::Warning);
    assert_eq!(classify_status(500), StatusType::Error);
    assert_eq!(classify_status(599), StatusType::Error);
    assert_eq!(classify_status(199), StatusType::Unknown);
    assert_eq!(classify_status(600), StatusType::Unknown);
}

#[test]
fn next_and_previous_stop_at_the_ends() {
    let mut state = AppState::new();
    for id in ["a", "b", "c", "d"] {
        state.add_log_entry(entry(id, "x"));
    }
    state.select_request(0);
    assert!(state.next_request(2));
    assert_eq!(state.selected_index, 2);
    assert!(state.next_request(10));
    assert_eq!(state.selected_index, 3);
    assert!(!state.next_request(0));
    assert!(state.previous_request(usize::MAX));
    assert_eq!(state.selected_index, 0);
    let mut empty = AppState::new();
    assert!(!empty.next_request(1));
    assert!(!empty.previous_request(1));
}
