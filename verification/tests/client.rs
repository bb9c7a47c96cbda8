use mso::client::{find_named_process, log_line_text, ports_text, short_id, registration_outcome, stream_event, stream_plan, prune_message, StreamEvent, StreamPlan};
use mso::logdb::{logs_calls, SqlArg};
use mso::protocol::{ClientMessage, DaemonMessage, ManagedProcess, ProcessStatus, StreamKind, TimestampedLine};

const ID: u128 = 0xa1a2a3a4b1b2c1c2d1d2d3d4d5d6d7d8;

fn id_text(id: u128) -> String {
    let (count, _) = logs_calls(id, 0, 1);
    match &count.args[0] {
        SqlArg::Text(s) => s.clone(),
        _ => panic!("not text"),
    }
}

#[test]
fn uuid_text_is_hyphenated_lower_hex() {
    assert_eq!(id_text(ID), "a1a2a3a4-b1b2-c1c2-d1d2-d3d4d5d6d7d8");
    assert_eq!(id_text(0), "00000000-0000-0000-0000-000000000000");
    assert_eq!(id_text(ID), uuid::Uuid::from_u128(ID).to_string());
}

fn parsed(s: &str) -> Option<u128> {
    match prune_message(1, Some(s.to_string())) {
        ClientMessage::PruneLogs { process_id, .. } => process_id,
        _ => panic!("wrong message"),
    }
}

#[test]
fn parse_uuid_accepts_the_usual_forms() {
    assert_eq!(parsed("a1a2a3a4-b1b2-c1c2-d1d2-d3d4d5d6d7d8"), Some(ID));
    assert_eq!(parsed("A1A2A3A4B1B2C1C2D1D2D3D4D5D6D7D8"), Some(ID));
    assert_eq!(parsed("{a1a2a3a4-b1b2-c1c2-d1d2-d3d4d5d6d7d8}"), Some(ID));
    assert_eq!(parsed("not a uuid"), None);
}

#[test]
fn short_id_is_first_eight() {
    assert_eq!(short_id(ID), "a1a2a3a4");
}

fn proc_(id: u128, pid: u32) -> ManagedProcess {
    let mut p = ManagedProcess::default();
    p.id = id;
    p.pid = pid;
    p
}

#[test]
fn process_named_by_id_prefix_or_pid() {
    let procs = vec![proc_(ID, 4242), proc_(0xffff << 112, 17)];
    assert_eq!(find_named_process(&procs, "a1a2"), Some(0));
    assert_eq!(find_named_process(&procs, "ffff"), Some(1));
    assert_eq!(find_named_process(&procs, "17"), Some(1));
    assert_eq!(find_named_process(&procs, "4242"), Some(0));
    assert_eq!(find_named_process(&procs, "424"), None);
    assert_eq!(find_named_process(&procs, ""), Some(0));
}

#[test]
fn log_line_is_clock_and_text() {
    let tl = TimestampedLine { timestamp: 3_723_000, line: "hi".into() };
    assert_eq!(log_line_text(&tl), "[01:02:03] hi");
    let tl = TimestampedLine { timestamp: 86_400_000 + 59_000, line: "".into() };
    assert_eq!(log_line_text(&tl), "[00:00:59] ");
}

#[test]
fn ports_column() {
    assert_eq!(ports_text(&vec![]), "-");
    assert_eq!(ports_text(&vec![80]), ":80");
    assert_eq!(ports_text(&vec![80, 443, 8080]), ":80 :443 :8080");
}

#[test]
fn registration_replies() {
    assert_eq!(registration_outcome(DaemonMessage::Registered { id: 5, pid: 9 }), Ok((5, 9)));
    assert_eq!(registration_outcome(DaemonMessage::Error("boom".into())), Err("daemon rejected: boom".to_string()));
    assert_eq!(registration_outcome(DaemonMessage::Pong), Err("unexpected daemon response".to_string()));
}

#[test]
fn stream_events() {
    let out = stream_event(DaemonMessage::LogEvent { process_id: 1, stream: StreamKind::Stdout, line: "a".into(), timestamp: 0 });
    assert!(matches!(out, StreamEvent::Stdout(l) if l == "a"));
    let err = stream_event(DaemonMessage::LogEvent { process_id: 1, stream: StreamKind::Stderr, line: "b".into(), timestamp: 0 });
    assert!(matches!(err, StreamEvent::Stderr(l) if l == "b"));
    assert!(matches!(stream_event(DaemonMessage::StatusChanged { process_id: 1, status: ProcessStatus::Stopped }), StreamEvent::Exited));
    assert!(matches!(stream_event(DaemonMessage::StatusChanged { process_id: 1, status: ProcessStatus::Crashed }), StreamEvent::Crashed));
    assert!(matches!(stream_event(DaemonMessage::StatusChanged { process_id: 1, status: ProcessStatus::Running }), StreamEvent::Ignore));
    assert!(matches!(stream_event(DaemonMessage::Pong), StreamEvent::Ignore));
}

#[test]
fn silence_plans() {
    assert_eq!(stream_plan(Some(0)), StreamPlan::Background);
    assert_eq!(stream_plan(Some(5)), StreamPlan::For(5));
    assert_eq!(stream_plan(None), StreamPlan::Forever);
}

#[test]
fn prune_request_names_process() {
    match prune_message(7, Some("a1a2a3a4-b1b2-c1c2-d1d2-d3d4d5d6d7d8".into())) {
        ClientMessage::PruneLogs { older_than_days, process_id } => {
            assert_eq!(older_than_days, 7);
            assert_eq!(process_id, Some(ID));
        }
        _ => panic!("wrong message"),
    }
    assert!(matches!(prune_message(1, Some("junk".into())), ClientMessage::PruneLogs { process_id: None, .. }));
    assert!(matches!(prune_message(1, None), ClientMessage::PruneLogs { older_than_days: 1, process_id: None }));
}

#[test]
fn only_single_process_pids_are_signalled() {
    assert!(!mso::client::is_signalable_pid(0));
    assert!(mso::client::is_signalable_pid(1));
    assert!(mso::client::is_signalable_pid(i32::MAX as u32));
    assert!(!mso::client::is_signalable_pid(i32::MAX as u32 + 1));
    assert!(!mso::client::is_signalable_pid(u32::MAX));
}
