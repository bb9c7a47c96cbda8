use mso::view::{command_text, env_text, health_label, tags_text};
use mso::app::App;
use mso::protocol::{ManagedProcess, ProcessStatus, StreamKind, TimestampedLine};
use mso::view::{list_rows, list_title, log_title, search_line, status_left, status_right, ListRow};

fn proc_(id: u128, pid: u32, name: &str, status: ProcessStatus) -> ManagedProcess {
    let mut p = ManagedProcess::default();
    p.id = id;
    p.pid = pid;
    p.command = vec![name.to_string()];
    p.status = status;
    p
}

#[test]
fn rows_group_by_status() {
    let ps = vec![
        proc_(1, 10, "a", ProcessStatus::Crashed),
        proc_(2, 20, "b", ProcessStatus::Running),
        proc_(3, 30, "c", ProcessStatus::Crashed),
        proc_(4, 40, "d", ProcessStatus::Running),
    ];
    let rows = list_rows(&ps, 2);
    assert_eq!(rows, vec![
        ListRow::Header { status: ProcessStatus::Running, count: 2 },
        ListRow::Entry { index: 1, selected: false, striped: false },
        ListRow::Entry { index: 3, selected: false, striped: true },
        ListRow::Header { status: ProcessStatus::Crashed, count: 2 },
        ListRow::Entry { index: 0, selected: false, striped: true },
        ListRow::Entry { index: 2, selected: true, striped: false },
    ]);
    assert!(list_rows(&vec![], 0).is_empty());
}

#[test]
fn titles() {
    assert_eq!(list_title(3), " Processes (3) ");
    let mut app = App::new(false);
    assert_eq!(log_title(&app), " Logs — (no process selected) ");
    app.processes = vec![proc_(1, 77, "web", ProcessStatus::Running)];
    app.log_lines = vec![TimestampedLine { timestamp: 0, line: "x".into() }; 4].into();
    app.log_total_lines = 2;
    assert_eq!(log_title(&app), " Logs — web (PID 77) — 4 lines ◆FOLLOW ");
    app.log_follow_mode = false;
    app.log_total_lines = 9;
    assert_eq!(log_title(&app), " Logs — web (PID 77) — 9 lines ◇PAUSED ");
}

#[test]
fn search_line_texts() {
    let mut app = App::new(false);
    app.search_query = "err".into();
    assert_eq!(search_line(&app), " /err ");
    app.search_results = vec![(0, TimestampedLine { timestamp: 0, line: "a".into() }), (1, TimestampedLine { timestamp: 0, line: "b".into() })];
    app.search_idx = 1;
    app.filter_stream = Some(StreamKind::Stderr);
    assert_eq!(search_line(&app), " /err (2/2) [stderr] ");
}

#[test]
fn status_bar_texts() {
    let mut app = App::new(false);
    assert_eq!(status_left(&app), " [j/k] nav  [r] restart  [x] kill [t] tag [F3] ◆follow  [/] search  [Esc] quit ");
    let mut ro = App::new(true);
    ro.filtered_tag = Some("web".into());
    ro.log_follow_mode = false;
    assert_eq!(status_left(&ro), " [READONLY] [j/k] nav [t] tag✓ [F3] ◇pause  [/] search  [Esc] quit ");
    app.processes = vec![proc_(1, 1, "a", ProcessStatus::Running), proc_(2, 2, "b", ProcessStatus::Stopped)];
    app.daemon_uptime_secs = 61;
    assert_eq!(status_right(&app), "1/2 running  │ daemon 1m01s");
    assert_eq!(status_right(&ro), " tag:web0/0 running  │ daemon 0s");
}

use mso::view::{name_label, label_cut_is_safe};

#[test]
fn labels_keep_nineteen_bytes() {
    assert_eq!(name_label("node", ""), "node");
    assert_eq!(name_label("node", "app"), "node (app)");
    assert_eq!(name_label("abcdefghijklmnopqrstuvwxyz", ""), "abcdefghijklmnopqrs…");
    assert_eq!(name_label("python3", "my-long-project"), "python3 (my-long-pr…");
    assert_eq!(name_label("abcdefghijklmnopqrst", ""), "abcdefghijklmnopqrst");
    let s = format!("{}é{}", "a".repeat(17), "b".repeat(5));
    assert!(label_cut_is_safe(&s, ""));
    assert_eq!(name_label(&s, ""), format!("{}é…", "a".repeat(17)));
    let bad = format!("{}é{}", "a".repeat(18), "b".repeat(5));
    assert!(!label_cut_is_safe(&bad, ""));
    assert!(label_cut_is_safe("short", "dir"));
}

#[test]
fn test_status_bar_empty() {
    let app = App::new(false);
    let output = format!("{} {}", status_left(&app), status_right(&app));
    assert!(output.contains("quit"), "should show quit hint, got: {output:?}");
}

#[test]
fn test_log_view_empty() {
    let app = App::new(false);
    let output = log_title(&app);
    assert!(output.contains("no process selected"), "should show hint");
}

#[test]
fn process_card_texts() {
    let mut p = proc_(1, 7, "node", ProcessStatus::Running);
    p.command = vec!["node".to_string(), "server.js".to_string(), "--port=80".to_string()];
    assert_eq!(command_text(&p), "node server.js --port=80");
    assert_eq!(tags_text(&p), "none");
    p.tags = vec!["web".to_string(), "api".to_string()];
    assert_eq!(tags_text(&p), "web, api");
    assert_eq!(health_label(&p), "");
    p.health_check = Some(mso::protocol::HealthCheckConfig { url: "http://x".to_string(), interval_secs: 1, timeout_secs: 1, max_failures: 3 });
    p.health_ok = true;
    assert_eq!(health_label(&p), "  ✓ Healthy");
    p.health_ok = false;
    assert_eq!(health_label(&p), "  ✗ Unhealthy");
    assert_eq!(env_text(&p), "");
    p.env_vars = vec![("A".to_string(), "1".to_string()), ("B".to_string(), "".to_string())];
    assert_eq!(env_text(&p), "A=1\nB=");
    p.env_vars = (0..15).map(|i| (format!("K{i}"), format!("{i}"))).collect();
    let expected: Vec<String> = (0..12).map(|i| format!("K{i}={i}")).collect();
    assert_eq!(env_text(&p), format!("{} (+3 more)", expected.join("\n")));
    p.env_vars.truncate(12);
    assert_eq!(env_text(&p), expected.join("\n"));
}
