use lucy::sql_info::{parse_sql_from_logs, QueryType, SqlQueryInfo};

#[test]
fn test_sql_query_info_new() {
    let info = SqlQueryInfo::new();

    assert_eq!(info.query_count(QueryType::Select), 0);
    assert_eq!(info.query_count(QueryType::Insert), 0);
    assert_eq!(info.query_count(QueryType::Update), 0);
    assert_eq!(info.query_count(QueryType::Delete), 0);

    assert_eq!(info.table_kinds(), 0);

    assert_eq!(info.total_queries(), 0);
}

#[test]
fn test_sql_query_info_from_message() {
    let select_msg = "SQL (0.5ms) SELECT * FROM users WHERE id = 1";
    let info = SqlQueryInfo::from_message(select_msg).unwrap();
    assert_eq!(info.query_count(QueryType::Select), 1);
    assert_eq!(info.query_count(QueryType::Insert), 0);
    assert_eq!(info.total_queries(), 1);
    assert!(info.contains_table("users"));

    let insert_msg = "SQL (0.8ms) INSERT INTO products (name, price) VALUES ('Test', 9.99)";
    let info = SqlQueryInfo::from_message(insert_msg).unwrap();
    assert_eq!(info.query_count(QueryType::Insert), 1);
    assert_eq!(info.total_queries(), 1);
    assert!(info.contains_table("products"));

    let non_sql_msg = "Processing request";
    assert!(SqlQueryInfo::from_message(non_sql_msg).is_none());
}

#[test]
fn test_sql_query_info_merge() {
    let mut info1 = SqlQueryInfo::new();
    info1.set_query_count(QueryType::Select, 2);
    info1.set_table_count("users", 2);

    let mut info2 = SqlQueryInfo::new();
    info2.set_query_count(QueryType::Select, 1);
    info2.set_query_count(QueryType::Update, 1);
    info2.set_table_count("users", 1);
    info2.set_table_count("orders", 1);

    info1.merge(&info2);

    assert_eq!(info1.query_count(QueryType::Select), 3);
    assert_eq!(info1.query_count(QueryType::Update), 1);
    assert_eq!(info1.query_count(QueryType::Insert), 0);
    assert_eq!(info1.query_count(QueryType::Delete), 0);

    assert_eq!(info1.table_count("users"), 3);
    assert_eq!(info1.table_count("orders"), 1);

    assert_eq!(info1.total_queries(), 4);
}

#[test]
fn test_sorted_tables() {
    let mut info = SqlQueryInfo::new();
    info.set_table_count("zebra", 3);
    info.set_table_count("apple", 1);
    info.set_table_count("banana", 2);

    let sorted = info.sorted_tables();

    assert_eq!(sorted.len(), 3);
    assert_eq!(sorted[0].0, "apple");
    assert_eq!(sorted[1].0, "banana");
    assert_eq!(sorted[2].0, "zebra");

    assert_eq!(sorted[0].1, 1);
    assert_eq!(sorted[1].1, 2);
    assert_eq!(sorted[2].1, 3);
}

#[test]
fn test_display_line_count() {
    let mut info = SqlQueryInfo::new();
    assert_eq!(info.display_line_count(), 4);

    info.set_table_count("users", 1);
    assert_eq!(info.display_line_count(), 5);

    info.set_table_count("orders", 1);
    assert_eq!(info.display_line_count(), 6);
}

#[test]
fn test_parse_sql_from_logs() {
    let logs = [
        "SQL (0.5ms) SELECT * FROM users WHERE id = 1",
        "SQL (0.8ms) INSERT INTO products (name, price) VALUES ('Test', 9.99)",
        "SQL (0.3ms) UPDATE orders SET status = 'shipped' WHERE id = 123",
        "SQL (0.2ms) DELETE FROM cart_items WHERE user_id = 456",
        "SQL (0.4ms) SELECT o.* FROM orders o JOIN users u ON o.user_id = u.id",
        "Not an SQL query",
    ];

    let info = parse_sql_from_logs(&logs);

    assert_eq!(info.query_count(QueryType::Select), 2);
    assert_eq!(info.query_count(QueryType::Insert), 1);
    assert_eq!(info.query_count(QueryType::Update), 1);
    assert_eq!(info.query_count(QueryType::Delete), 1);
    assert_eq!(info.total_queries(), 5);

    assert!(info.contains_table("users"));
    assert!(info.contains_table("products"));
    assert!(info.contains_table("orders"));
    assert!(info.contains_table("cart_items"));

    assert_eq!(info.table_count("orders"), 2);
}

#[test]
fn select_takes_priority_over_other_keywords() {
    let info = SqlQueryInfo::from_message("INSERT INTO logs SELECT * FROM events").unwrap();
    assert_eq!(info.query_count(QueryType::Select), 1);
    assert_eq!(info.query_count(QueryType::Insert), 0);
    assert_eq!(info.total_queries(), 1);
    assert_eq!(info.table_count("logs"), 1);
    assert_eq!(info.table_count("events"), 1);

    let info = SqlQueryInfo::from_message("UPDATE a SET x = 1; DELETE FROM b").unwrap();
    assert_eq!(info.query_count(QueryType::Update), 1);
    assert_eq!(info.query_count(QueryType::Delete), 0);
}

#[test]
fn keywords_need_a_trailing_space() {
    assert!(SqlQueryInfo::from_message("SELECT\tx").is_none());
    assert!(SqlQueryInfo::from_message("select * from users").is_none());
    let info = SqlQueryInfo::from_message("DELETE FROM sessions").unwrap();
    assert_eq!(info.query_count(QueryType::Delete), 1);
    assert_eq!(info.table_count("sessions"), 1);
}

#[test]
fn quoted_and_terminated_table_names() {
    let info = SqlQueryInfo::from_message("SELECT \"users\".* FROM \"users\" WHERE 1").unwrap();
    assert_eq!(info.table_count("users"), 1);
    assert_eq!(info.table_kinds(), 1);

    let info = SqlQueryInfo::from_message("SELECT * FROM (SELECT * FROM inner_t) AS x").unwrap();
    assert_eq!(info.table_count("inner_t"), 1);
    assert_eq!(info.table_kinds(), 1);

    let info = SqlQueryInfo::from_message("SELECT * FROM users;").unwrap();
    assert_eq!(info.table_kinds(), 0);

    let info = SqlQueryInfo::from_message("SELECT * FROM   accounts").unwrap();
    assert_eq!(info.table_count("accounts"), 1);
}

#[test]
fn table_references_do_not_overlap() {
    let info = SqlQueryInfo::from_message("SELECT * FROM INTO x").unwrap();
    assert_eq!(info.table_count("INTO"), 1);
    assert_eq!(info.table_count("x"), 0);
    assert_eq!(info.table_kinds(), 1);
}

#[test]
fn merge_with_empty_changes_nothing() {
    let mut info = SqlQueryInfo::from_message("SELECT * FROM users JOIN orders ON 1").unwrap();
    info.merge(&SqlQueryInfo::new());
    assert_eq!(info.query_count(QueryType::Select), 1);
    assert_eq!(info.table_count("users"), 1);
    assert_eq!(info.table_count("orders"), 1);
    assert_eq!(info.table_kinds(), 2);
}

#[test]
fn merge_order_and_grouping_do_not_matter() {
    let msgs = [
        "SELECT * FROM users",
        "UPDATE orders SET a = 1",
        "SELECT * FROM orders JOIN users ON 1",
        "DELETE FROM carts",
    ];
    let parts: Vec<SqlQueryInfo> =
        msgs.iter().map(|m| SqlQueryInfo::from_message(m).unwrap()).collect();

    let mut forward = SqlQueryInfo::new();
    for p in parts.iter() {
        forward.merge(p);
    }
    let mut backward = SqlQueryInfo::new();
    for p in parts.iter().rev() {
        backward.merge(p);
    }
    let mut left = parse_sql_from_logs(&msgs[..2]);
    let right = parse_sql_from_logs(&msgs[2..]);
    left.merge(&right);
    let batch = parse_sql_from_logs(&msgs);

    for info in [&forward, &backward, &left] {
        for q in [QueryType::Select, QueryType::Insert, QueryType::Update, QueryType::Delete] {
            assert_eq!(info.query_count(q), batch.query_count(q));
        }
        assert_eq!(info.sorted_tables(), batch.sorted_tables());
    }
    assert_eq!(batch.table_count("users"), 2);
    assert_eq!(batch.table_count("orders"), 2);
    assert_eq!(batch.table_count("carts"), 1);
}

#[test]
fn two_selects_count_their_tables() {
    let logs = [
        "SQL (0.1ms) SELECT * FROM users",
        "SQL (0.1ms) SELECT o.* FROM orders o JOIN users u ON o.user_id=u.id",
    ];
    let info = parse_sql_from_logs(&logs);
    assert_eq!(info.query_count(QueryType::Select), 2);
    assert_eq!(info.table_count("users"), 2);
    assert_eq!(info.table_count("orders"), 1);
}
