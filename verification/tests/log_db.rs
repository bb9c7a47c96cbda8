use mso::logdb::{like_pattern, count_value, page_lines, LogDb};
use mso::protocol::{StreamKind, TimestampedLine};

fn test_db() -> LogDb {
    LogDb::open_in_memory().unwrap()
}

fn new_id() -> u128 {
    uuid::Uuid::new_v4().as_u128()
}

#[test]
fn test_insert_and_count() {
    let db = test_db();
    let pid = new_id();
    db.insert(pid, 0, "hello", 1000).unwrap();
    db.insert(pid, 1, "world", 2000).unwrap();
    db.insert(pid, 0, "test", 3000).unwrap();
    let (logs, total) = db.get_logs(pid, 0, 10).unwrap();
    assert_eq!(total, 3);
    assert_eq!(logs.len(), 3);
    assert_eq!(logs[0].line, "hello");
}

#[test]
fn test_get_logs_pagination() {
    let db = test_db();
    let pid = new_id();
    for i in 0..10u64 {
        db.insert(pid, 0, &format!("line {}", i), i * 1000).unwrap();
    }
    let (logs, total) = db.get_logs(pid, 0, 3).unwrap();
    assert_eq!(total, 10);
    assert_eq!(logs.len(), 3);
    assert_eq!(logs[0].line, "line 7");
    assert_eq!(logs[2].line, "line 9");

    let (logs2, _) = db.get_logs(pid, 3, 3).unwrap();
    assert_eq!(logs2.len(), 3);
    assert_eq!(logs2[0].line, "line 4");
}

#[test]
fn test_search_logs() {
    let db = test_db();
    let pid = new_id();
    db.insert(pid, 0, "error: connection refused", 1000).unwrap();
    db.insert(pid, 0, "info: server started", 2000).unwrap();
    db.insert(pid, 0, "error: timeout", 3000).unwrap();
    let (logs, total) = db.search_logs(pid, "error", None, 0, 10).unwrap();
    assert_eq!(total, 2);
    assert_eq!(logs.len(), 2);
    assert!(logs[0].line.contains("error"));
}

#[test]
fn test_search_logs_with_stream_filter() {
    let db = test_db();
    let pid = new_id();
    db.insert(pid, 0, "stdout line", 1000).unwrap();
    db.insert(pid, 1, "stderr line", 2000).unwrap();
    let (logs, total) = db.search_logs(pid, "line", Some(StreamKind::Stderr), 0, 10).unwrap();
    assert_eq!(total, 1);
    assert_eq!(logs[0].line, "stderr line");
}

#[test]
fn get_logs_keeps_processes_apart_and_times() {
    let db = test_db();
    let a = new_id();
    let b = new_id();
    db.insert(a, 0, "a1", 10).unwrap();
    db.insert(b, 0, "b1", 20).unwrap();
    db.insert(a, 1, "a2", 30).unwrap();
    let (logs, total) = db.get_logs(a, 0, 10).unwrap();
    assert_eq!(total, 2);
    assert_eq!(logs.len(), 2);
    assert_eq!(logs[0].line, "a1");
    assert_eq!(logs[0].timestamp, 10);
    assert_eq!(logs[1].line, "a2");
    assert_eq!(logs[1].timestamp, 30);
}

#[test]
fn get_logs_of_unknown_process_is_empty() {
    let db = test_db();
    let (logs, total) = db.get_logs(new_id(), 0, 10).unwrap();
    assert_eq!(total, 0);
    assert!(logs.is_empty());
}

#[test]
fn page_never_exceeds_limit() {
    let db = test_db();
    let pid = new_id();
    for i in 0..5u64 {
        db.insert(pid, 0, "x", i).unwrap();
    }
    let (logs, total) = db.get_logs(pid, 0, 0).unwrap();
    assert!(logs.is_empty());
    assert_eq!(total, 5);
    let (logs, _) = db.search_logs(pid, "x", None, 0, 2).unwrap();
    assert_eq!(logs.len(), 2);
}

#[test]
fn prune_removes_only_older_lines() {
    let db = test_db();
    let a = new_id();
    let b = new_id();
    db.insert(a, 0, "old a", 1000).unwrap();
    db.insert(a, 0, "new a", 5000).unwrap();
    db.insert(b, 0, "old b", 1000).unwrap();
    assert_eq!(db.prune_before(2000, Some(a)).unwrap(), 1);
    let (logs, total) = db.get_logs(a, 0, 10).unwrap();
    assert_eq!(total, 1);
    assert_eq!(logs[0].line, "new a");
    assert_eq!(db.get_logs(b, 0, 10).unwrap().1, 1);
    assert_eq!(db.prune_before(2000, None).unwrap(), 1);
    assert_eq!(db.get_logs(b, 0, 10).unwrap().1, 0);
}

#[test]
fn timestamp_beyond_i64_is_refused() {
    let db = test_db();
    let pid = new_id();
    assert!(db.insert(pid, 0, "too late", u64::MAX).is_err());
    assert_eq!(db.get_logs(pid, 0, 10).unwrap().1, 0);
}

#[test]
fn like_pattern_wraps_query() {
    assert_eq!(like_pattern("err"), "%err%");
    assert_eq!(like_pattern(""), "%%");
}

#[test]
fn count_value_defaults_to_zero() {
    assert_eq!(count_value(Some(7)), 7);
    assert_eq!(count_value(None), 0);
}

#[test]
fn page_keeps_readable_rows_oldest_first() {
    let rows = vec![
        Some(TimestampedLine { timestamp: 3, line: "c".to_string() }),
        None,
        Some(TimestampedLine { timestamp: 2, line: "b".to_string() }),
        Some(TimestampedLine { timestamp: 1, line: "a".to_string() }),
        None,
    ];
    let out = page_lines(rows);
    let lines: Vec<(u64, &str)> = out.iter().map(|l| (l.timestamp, l.line.as_str())).collect();
    assert_eq!(lines, vec![(1, "a"), (2, "b"), (3, "c")]);
    assert!(page_lines(vec![None, None]).is_empty());
}

use mso::logdb::{insert_call, logs_calls, search_calls, prune_call, SqlArg};

fn text(a: &SqlArg) -> &str {
    match a {
        SqlArg::Text(s) => s.as_str(),
        _ => panic!("not text"),
    }
}

fn int_arg(a: &SqlArg) -> i64 {
    match a {
        SqlArg::Int(i) => *i,
        _ => panic!("not int"),
    }
}

const PID: u128 = 0x0123456789abcdef0123456789abcdef;
const PID_TEXT: &str = "01234567-89ab-cdef-0123-456789abcdef";

#[test]
fn statements_bind_their_arguments() {
    let c = insert_call(PID, 1, "line", 99);
    assert!(c.sql.starts_with("INSERT INTO logs"));
    assert_eq!(text(&c.args[0]), PID_TEXT);
    assert_eq!(int_arg(&c.args[1]), 1);
    assert_eq!(text(&c.args[2]), "line");
    assert!(matches!(c.args[3], SqlArg::Unsigned(99)));

    let (count, page) = logs_calls(PID, 5, 7);
    assert_eq!(count.sql, "SELECT COUNT(*) FROM logs WHERE process_id = ?1");
    assert_eq!(count.args.len(), 1);
    assert_eq!(page.args.len(), 3);
    assert_eq!((int_arg(&page.args[1]), int_arg(&page.args[2])), (7, 5));

    let (count, page) = search_calls(PID, "err", Some(mso::protocol::StreamKind::Stderr), 0, 10);
    assert_eq!(text(&count.args[1]), "%err%");
    assert_eq!(int_arg(&count.args[2]), 1);
    assert_eq!(page.args.len(), 5);
    let (count, page) = search_calls(PID, "err", None, 0, 10);
    assert_eq!(count.args.len(), 2);
    assert_eq!(page.args.len(), 4);

    let p = prune_call(1000, Some(PID));
    assert_eq!(p.sql, "DELETE FROM logs WHERE process_id = ?1 AND timestamp < ?2");
    assert_eq!(text(&p.args[0]), PID_TEXT);
    assert_eq!(int_arg(&p.args[1]), 1000);
    let p = prune_call(u64::MAX, None);
    assert_eq!(int_arg(&p.args[0]), -1);
}
