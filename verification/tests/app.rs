use mso::app::{App, KeyCode, KeyEvent, NotifKind, MouseEvent, MouseKind, MAX_NOTIFICATIONS};
use mso::protocol::{ClientMessage, DaemonMessage, ManagedProcess, ProcessSnapshot, ProcessStatus};

fn key(c: char) -> KeyEvent {
    KeyEvent { code: KeyCode::Char(c), ctrl: false }
}

fn process(id: u128, pid: u32, name: &str, tags: &[&str]) -> ManagedProcess {
    let mut p = ManagedProcess::default();
    p.id = id;
    p.pid = pid;
    p.command = vec![name.to_string()];
    p.status = ProcessStatus::Running;
    p.tags = tags.iter().map(|t| t.to_string()).collect();
    p
}

fn app_with(readonly: bool, procs: Vec<ManagedProcess>) -> App {
    let mut app = App::new(readonly);
    app.on_daemon_msg(DaemonMessage::StateSnapshot(ProcessSnapshot { processes: procs }), 0);
    app
}

fn press(app: &mut App, k: KeyEvent, now: u64) {
    assert!(app.key_is_safe(k));
    app.handle_key(k, now);
}

#[test]
fn kill_needs_confirmation() {
    let mut app = app_with(false, vec![process(7, 99, "svc", &[])]);
    press(&mut app, key('x'), 10);
    assert_eq!(app.confirm_kill, Some(7));
    assert_eq!(app.toast.as_ref().unwrap().0, "Kill PID 99? [y/N]");
    assert!(app.outbox.is_empty());
    press(&mut app, key('y'), 20);
    assert_eq!(app.confirm_kill, None);
    assert_eq!(app.toast.as_ref().unwrap().0, "Killed PID 99");
    let out = app.take_outbox();
    assert!(matches!(out.as_slice(), [ClientMessage::KillProcess(7)]));
    assert!(app.outbox.is_empty());
}

#[test]
fn kill_can_be_cancelled() {
    let mut app = app_with(false, vec![process(7, 99, "svc", &[])]);
    press(&mut app, key('x'), 10);
    press(&mut app, key('n'), 11);
    assert_eq!(app.confirm_kill, None);
    assert_eq!(app.toast.as_ref().unwrap().0, "Kill cancelled");
    assert!(app.outbox.is_empty());
}

#[test]
fn restart_key_queues_restart() {
    let mut app = app_with(false, vec![process(7, 99, "svc", &[])]);
    press(&mut app, key('r'), 10);
    assert!(matches!(app.outbox.as_slice(), [ClientMessage::RestartProcess(7)]));
    assert_eq!(app.toast.as_ref().unwrap().0, "Restarting PID 99");
}

#[test]
fn readonly_dashboard_never_kills() {
    let mut app = app_with(true, vec![process(7, 99, "svc", &[])]);
    for c in ['x', 'r', 'y'] {
        press(&mut app, key(c), 1);
    }
    press(&mut app, KeyEvent { code: KeyCode::Backspace, ctrl: false }, 1);
    assert!(app.confirm_kill.is_none());
    assert!(app
        .outbox
        .iter()
        .all(|m| !matches!(m, ClientMessage::KillProcess(_) | ClientMessage::RestartProcess(_))));
}

#[test]
fn escape_quits_and_ctrl_c_quits() {
    let mut app = App::new(false);
    press(&mut app, KeyEvent { code: KeyCode::Esc, ctrl: false }, 0);
    assert!(app.should_quit);
    let mut app = App::new(false);
    press(&mut app, KeyEvent { code: KeyCode::Char('c'), ctrl: true }, 0);
    assert!(app.should_quit);
}

#[test]
fn notifications_keep_the_newest_hundred() {
    let mut app = app_with(false, vec![process(7, 99, "svc", &[])]);
    for i in 0..150u64 {
        let status = if i % 2 == 0 { ProcessStatus::Crashed } else { ProcessStatus::Running };
        app.on_daemon_msg(DaemonMessage::StatusChanged { process_id: 7, status }, i);
        assert!(app.notifications.len() <= MAX_NOTIFICATIONS);
    }
    assert_eq!(app.notifications.len(), MAX_NOTIFICATIONS);
    let last = app.notifications.back().unwrap();
    assert_eq!(last.timestamp, 149);
    assert_eq!(last.kind, NotifKind::Info);
    assert_eq!(last.message, "svc: Crashed → Running");
    assert_eq!(app.notifications[0].timestamp, 50);
    assert_eq!(app.notifications[0].kind, NotifKind::Crash);
}

#[test]
fn tag_picker_lists_sorted_distinct_tags() {
    let mut app = app_with(false, vec![
        process(1, 1, "a", &["web", "prod"]),
        process(2, 2, "b", &["db", "web"]),
    ]);
    press(&mut app, key('t'), 0);
    assert!(app.tag_filter_mode);
    assert_eq!(app.all_tags, vec!["db", "prod", "web"]);
    press(&mut app, key('2'), 0);
    assert!(!app.tag_filter_mode);
    assert_eq!(app.filtered_tag.as_deref(), Some("prod"));
    let shown: Vec<u128> = app.displayed_processes().iter().map(|p| p.id).collect();
    assert_eq!(shown, vec![1]);
}

#[test]
fn moving_selection_resets_search() {
    let mut app = app_with(false, vec![process(1, 1, "a", &[]), process(2, 2, "b", &[])]);
    app.log_scroll_offset = 9;
    press(&mut app, KeyEvent { code: KeyCode::Down, ctrl: false }, 0);
    assert_eq!(app.selected_index, 1);
    assert_eq!(app.log_scroll_offset, 0);
    assert!(app.search_results.is_empty());
    assert!(app.log_follow_mode);
    assert_eq!(app.selected_process().unwrap().id, 2);
}

#[test]
fn log_event_reaches_selected_process() {
    let mut app = app_with(false, vec![process(1, 1, "a", &[])]);
    app.on_daemon_msg(
        DaemonMessage::LogEvent { process_id: 1, stream: mso::protocol::StreamKind::Stdout, line: "ERROR boom".into(), timestamp: 5 },
        6,
    );
    assert_eq!(app.log_lines.len(), 1);
    assert_eq!(app.log_lines[0].line, "ERROR boom");
    assert_eq!(app.processes[0].log_lines.len(), 1);
    assert_eq!(app.notifications.len(), 1);
    assert_eq!(app.notifications[0].message, "a: ERROR boom");
}

#[test]
fn wheel_scrolls_log() {
    let mut app = App::new(false);
    app.handle_mouse(MouseEvent { kind: MouseKind::ScrollDown, column: 50, row: 5 });
    assert_eq!(app.log_scroll_offset, 3);
    app.handle_mouse(MouseEvent { kind: MouseKind::ScrollUp, column: 50, row: 5 });
    assert_eq!(app.log_scroll_offset, 0);
    app.handle_mouse(MouseEvent { kind: MouseKind::ScrollUp, column: 50, row: 5 });
    assert_eq!(app.log_scroll_offset, 0);
}

#[test]
fn border_drag_resizes_within_limits() {
    let mut app = App::new(false);
    let down = MouseEvent { kind: MouseKind::LeftDown, column: 43, row: 3 };
    assert!(app.mouse_is_safe(down));
    app.handle_mouse(down);
    assert!(app.resize_dragging);
    app.handle_mouse(MouseEvent { kind: MouseKind::LeftDrag, column: 200, row: 3 });
    assert_eq!(app.sidebar_width, 60);
    app.handle_mouse(MouseEvent { kind: MouseKind::LeftDrag, column: 5, row: 3 });
    assert_eq!(app.sidebar_width, 30);
    app.handle_mouse(MouseEvent { kind: MouseKind::Up, column: 5, row: 3 });
    assert!(!app.resize_dragging);
}

#[test]
fn click_selects_process_slot() {
    let mut app = app_with(false, vec![process(1, 1, "a", &[]), process(2, 2, "b", &[]), process(3, 3, "c", &[])]);
    app.handle_mouse(MouseEvent { kind: MouseKind::LeftDown, column: 5, row: 7 });
    assert_eq!(app.selected_index, 2);
    app.handle_mouse(MouseEvent { kind: MouseKind::LeftDown, column: 5, row: 0 });
    assert_eq!(app.selected_index, 2);
    assert!(!app.mouse_is_safe(MouseEvent { kind: MouseKind::LeftDown, column: 32810, row: 1 }));
    assert!(app.mouse_is_safe(MouseEvent { kind: MouseKind::ScrollUp, column: 65535, row: 65535 }));
}

#[test]
fn dashboard_bounds_hold_across_daemon_messages() {
    let mut app = app_with(false, vec![process(1, 1, "a", &[]), process(2, 2, "b", &[])]);
    for i in 0..(mso::protocol::MAX_LOG_LINES as u64 + 30) {
        app.on_daemon_msg(
            DaemonMessage::LogEvent { process_id: 2, stream: mso::protocol::StreamKind::Stderr, line: format!("ERROR {i}"), timestamp: i },
            i,
        );
        assert!(app.notifications.len() <= MAX_NOTIFICATIONS);
        assert!(app.processes.iter().all(|p| p.log_lines.len() <= mso::protocol::MAX_LOG_LINES));
    }
    assert_eq!(app.processes[1].log_lines.len(), mso::protocol::MAX_LOG_LINES);
    let mut order = app.process_order.clone();
    order.sort();
    assert_eq!(order, vec![0, 1]);
    app.on_daemon_msg(DaemonMessage::StateSnapshot(ProcessSnapshot { processes: vec![process(3, 3, "c", &[])] }), 0);
    assert_eq!(app.process_order, vec![0]);
}
