use mso::listener::{plan_request, Request, logs_reply, search_reply, restart_reply, kill_reply, prune_reply, spawn_failed_reply, error_reply};
use mso::protocol::{ClientMessage, DaemonMessage, ManagedProcess, ProcessRegistration, ProcessStatus, RestartPolicy, StreamKind, TimestampedLine};

fn reg(pid: u32) -> ProcessRegistration {
    ProcessRegistration {
        pid,
        command: vec!["echo".into()],
        working_dir: "/tmp".into(),
        env_vars: vec![],
        silence_duration: None,
        restart_policy: RestartPolicy::No,
        tags: vec![],
        health_check: None,
        log_file: None,
    }
}

#[test]
fn registration_spawns_or_adopts() {
    assert!(matches!(plan_request(ClientMessage::RegisterProcess(reg(0)), 9, 0), Request::Spawn { id: 9, .. }));
    assert!(matches!(plan_request(ClientMessage::RegisterProcess(reg(77)), 9, 0), Request::Adopt { id: 9, pid: 77, .. }));
}

#[test]
fn fire_and_forget_messages() {
    match plan_request(ClientMessage::LogLine { process_id: 1, stream: StreamKind::Stderr, line: "x".into() }, 0, 55) {
        Request::AppendLog { process_id, stream, line, timestamp } => {
            assert_eq!((process_id, stream, line.as_str(), timestamp), (1, StreamKind::Stderr, "x", 55));
        }
        other => panic!("unexpected {other:?}"),
    }
    assert!(matches!(
        plan_request(ClientMessage::ProcessExited { process_id: 1, exit_code: Some(0) }, 0, 0),
        Request::MarkExited { process_id: 1, status: ProcessStatus::Stopped }
    ));
    assert!(matches!(
        plan_request(ClientMessage::ProcessExited { process_id: 1, exit_code: Some(2) }, 0, 0),
        Request::MarkExited { status: ProcessStatus::Crashed, .. }
    ));
    assert!(matches!(plan_request(ClientMessage::StopStream(1), 0, 0), Request::Skip));
    assert!(matches!(plan_request(ClientMessage::StreamLogs(4), 0, 0), Request::Stream(4)));
}

#[test]
fn requests_with_replies() {
    assert!(matches!(plan_request(ClientMessage::Ping, 0, 0), Request::Pong));
    assert!(matches!(plan_request(ClientMessage::GetState, 0, 0), Request::Snapshot));
    assert!(matches!(plan_request(ClientMessage::GetLogs { process_id: 3, offset: 1, limit: 2 }, 0, 0), Request::Logs { process_id: 3, offset: 1, limit: 2 }));
    assert!(matches!(plan_request(ClientMessage::RestartProcess(3), 0, 0), Request::Restart(3)));
    assert!(matches!(plan_request(ClientMessage::KillProcess(3), 0, 0), Request::Kill(3)));
    assert!(matches!(
        plan_request(ClientMessage::PruneLogs { older_than_days: 2, process_id: Some(5) }, 0, 3 * 86_400_000),
        Request::Prune { cutoff: 86_400_000, process_id: Some(5) }
    ));
    assert!(matches!(
        plan_request(ClientMessage::PruneLogs { older_than_days: 2, process_id: None }, 0, 1000),
        Request::Prune { cutoff: 0, process_id: None }
    ));
    assert!(matches!(
        plan_request(ClientMessage::PruneLogs { older_than_days: 100_000, process_id: None }, 0, 1_700_000_000_000),
        Request::Prune { cutoff: 0, process_id: None }
    ));
}

#[test]
fn replies() {
    let lines = vec![TimestampedLine { timestamp: 1, line: "a".into() }];
    assert!(matches!(logs_reply(Ok((lines.clone(), 4))), DaemonMessage::LogsBatch { total: 4, .. }));
    assert!(matches!(logs_reply(Err("disk".into())), DaemonMessage::Error(s) if s == "db error: disk"));
    assert!(matches!(search_reply(Ok((lines, 1)), "q".into()), DaemonMessage::SearchResult { total: 1, query, .. } if query == "q"));
    assert!(matches!(search_reply(Err("e".into()), "q".into()), DaemonMessage::Error(s) if s == "search error: e"));
    assert!(matches!(kill_reply(Ok(()), 3), DaemonMessage::StatusChanged { process_id: 3, status: ProcessStatus::Stopped }));
    assert!(matches!(kill_reply(Err("gone".into()), 3), DaemonMessage::Error(s) if s == "kill failed: gone"));
    assert!(matches!(prune_reply(Ok(12)), DaemonMessage::LogsPruned { count: 12 }));
    assert!(matches!(prune_reply(Err("x".into())), DaemonMessage::Error(s) if s == "prune failed: x"));
    assert!(matches!(spawn_failed_reply("no such file"), DaemonMessage::Error(s) if s == "spawn failed: no such file"));
    assert!(matches!(error_reply("a", "b"), DaemonMessage::Error(s) if s == "ab"));
}

#[test]
fn restart_reply_names_newest_running() {
    let mut a = ManagedProcess::default();
    a.id = 1;
    a.status = ProcessStatus::Running;
    a.started_at = 5;
    let mut b = ManagedProcess::default();
    b.id = 2;
    b.status = ProcessStatus::Running;
    b.started_at = 9;
    assert!(matches!(restart_reply(Ok(()), &vec![a.clone(), b]), DaemonMessage::StatusChanged { process_id: 2, status: ProcessStatus::Running }));
    a.status = ProcessStatus::Stopped;
    assert!(matches!(restart_reply(Ok(()), &vec![a]), DaemonMessage::Error(s) if s == "restart succeeded but no running process found"));
    assert!(matches!(restart_reply(Err("nope".into()), &vec![]), DaemonMessage::Error(s) if s == "restart failed: nope"));
}
