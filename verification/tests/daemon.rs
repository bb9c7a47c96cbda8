use mso::daemon::{save_step, SaveAction};
use mso::daemon::{
    exit_status, health_step, health_message, monitor_step, MonitorAction, newest_running, prune_cutoff, retention_days,
    reconcile_loaded, respawn_registration, render_metrics, metrics_response, is_metrics_request, byte_len, output_line,
    status_label_text,
};
use mso::protocol::{ManagedProcess, ProcessStatus, RestartPolicy};

fn proc_(id: u128, status: ProcessStatus, started_at: u64) -> ManagedProcess {
    let mut p = ManagedProcess::default();
    p.id = id;
    p.status = status;
    p.started_at = started_at;
    p
}

#[test]
fn exit_codes() {
    assert_eq!(exit_status(Some(0)), ProcessStatus::Stopped);
    assert_eq!(exit_status(Some(1)), ProcessStatus::Crashed);
    assert_eq!(exit_status(None), ProcessStatus::Crashed);
}

#[test]
fn health_failures_count_until_limit() {
    let (f, restart) = health_step(0, false, 3);
    assert_eq!((f, restart), (1, false));
    let (f, restart) = health_step(f, false, 3);
    assert_eq!((f, restart), (2, false));
    let (f, restart) = health_step(f, false, 3);
    assert_eq!((f, restart), (3, true));
    assert_eq!(health_step(2, true, 3), (0, false));
    assert_eq!(health_message(false, 2), "health: FAIL (failures=2)");
    assert_eq!(health_message(true, 0), "health: OK (failures=0)");
}

#[test]
fn exit_monitor_decisions() {
    let mut p = proc_(1, ProcessStatus::Running, 0);
    assert_eq!(monitor_step(Some(&p), true), MonitorAction::KeepWatching);
    assert_eq!(monitor_step(Some(&p), false), MonitorAction::MarkStopped);
    p.restart_policy = RestartPolicy::Always;
    assert_eq!(monitor_step(Some(&p), false), MonitorAction::Restart);
    p.status = ProcessStatus::Stopped;
    assert_eq!(monitor_step(Some(&p), true), MonitorAction::Restart);
    assert_eq!(monitor_step(None, true), MonitorAction::MarkStopped);
}

#[test]
fn newest_running_process() {
    let ps = vec![
        proc_(1, ProcessStatus::Running, 10),
        proc_(2, ProcessStatus::Stopped, 50),
        proc_(3, ProcessStatus::Running, 30),
        proc_(4, ProcessStatus::Running, 30),
    ];
    assert_eq!(newest_running(&ps), Some(4));
    assert_eq!(newest_running(&vec![proc_(2, ProcessStatus::Crashed, 1)]), None);
}

#[test]
fn prune_cutoffs() {
    assert_eq!(prune_cutoff(10 * 86_400_000, 3), 7 * 86_400_000);
    assert_eq!(prune_cutoff(86_400_000, 1), 0);
    assert_eq!(prune_cutoff(1000, 1), 0);
    assert_eq!(prune_cutoff(u64::MAX, u64::MAX), 0);
    assert_eq!(retention_days(0), 1);
    assert_eq!(retention_days(30), 30);
}

#[test]
fn reloaded_records() {
    let mut p = proc_(1, ProcessStatus::Running, 0);
    p.pid = 55;
    reconcile_loaded(&mut p, true);
    assert_eq!((p.status, p.pid), (ProcessStatus::Running, 55));
    reconcile_loaded(&mut p, false);
    assert_eq!((p.status, p.pid), (ProcessStatus::Crashed, 0));
    let mut q = proc_(2, ProcessStatus::Stopped, 0);
    q.pid = 9;
    reconcile_loaded(&mut q, false);
    assert_eq!((q.status, q.pid), (ProcessStatus::Stopped, 9));
}

#[test]
fn restart_registration_copies_settings() {
    let mut p = proc_(1, ProcessStatus::Crashed, 0);
    p.pid = 12;
    p.command = vec!["srv".into(), "--port".into(), "80".into()];
    p.working_dir = "/srv".into();
    p.env_vars = vec![("A".into(), "1".into())];
    p.restart_policy = RestartPolicy::Always;
    p.tags = vec!["x".into()];
    let r = respawn_registration(&p);
    assert_eq!(r.pid, 0);
    assert_eq!(r.command, p.command);
    assert_eq!(r.working_dir, "/srv");
    assert_eq!(r.env_vars, p.env_vars);
    assert_eq!(r.silence_duration, None);
    assert_eq!(r.restart_policy, RestartPolicy::Always);
    assert_eq!(r.tags, vec!["x"]);
}

#[test]
fn metrics_page() {
    let mut p = proc_(1, ProcessStatus::Running, 0);
    p.pid = 42;
    p.command = vec!["web".into()];
    p.memory_bytes = 1024;
    p.io_bytes = 7;
    p.ports = vec![80, 443];
    p.uptime_secs = 5;
    let mut q = proc_(2, ProcessStatus::Crashed, 0);
    q.pid = 43;
    let body = render_metrics(&vec![p, q], &vec!["1.5".to_string(), "0.0".to_string()]);
    let expected = "# HELP mso_cpu_percent CPU usage percentage\n# TYPE mso_cpu_percent gauge\n\
# HELP mso_daemon_up Daemon health\n# TYPE mso_daemon_up gauge\nmso_daemon_up 1\n\
mso_cpu_percent{pid=\"42\",name=\"web\",status=\"running\"} 1.5\n\
mso_memory_bytes{pid=\"42\",name=\"web\"} 1024\n\
mso_io_bytes{pid=\"42\",name=\"web\"} 7\n\
mso_open_port{pid=\"42\",port=\"80\"} 1\n\
mso_open_port{pid=\"42\",port=\"443\"} 1\n\
mso_uptime_seconds{pid=\"42\",name=\"web\"} 5\n\
mso_cpu_percent{pid=\"43\",name=\"unknown\",status=\"crashed\"} 0.0\n\
mso_memory_bytes{pid=\"43\",name=\"unknown\"} 0\n\
mso_io_bytes{pid=\"43\",name=\"unknown\"} 0\n\
mso_uptime_seconds{pid=\"43\",name=\"unknown\"} 0\n";
    assert_eq!(body, expected);
    let resp = metrics_response(&body);
    assert_eq!(resp, format!("HTTP/1.1 200 OK\r\nContent-Type: text/plain\r\nContent-Length: {}\r\n\r\n{}", body.len(), body));
}

#[test]
fn metrics_requests_and_lengths() {
    assert!(is_metrics_request("GET /metrics HTTP/1.1\r\n"));
    assert!(!is_metrics_request("GET / HTTP/1.1\r\n"));
    assert_eq!(byte_len("aé↑😀"), "aé↑😀".len());
    assert_eq!(status_label_text(ProcessStatus::Sleeping), "sleeping");
}

#[test]
fn output_chunks_decode_lossily() {
    let l = output_line(&vec![b'h', b'i', 0xff, b'\n'], 77);
    assert_eq!(l.timestamp, 77);
    assert_eq!(l.line, "hi\u{fffd}\n");
}

#[test]
fn save_retries_twice_then_gives_up() {
    assert_eq!(save_step(1, true), SaveAction::Done);
    assert_eq!(save_step(1, false), SaveAction::RetryAfter(100));
    assert_eq!(save_step(2, false), SaveAction::RetryAfter(200));
    assert_eq!(save_step(3, false), SaveAction::GiveUp);
    assert_eq!(save_step(3, true), SaveAction::Done);
}

#[test]
fn other_requests_get_not_found() {
    assert!(!is_metrics_request("GET / HTTP/1.1"));
    assert_eq!(mso::daemon::not_found_response(), "HTTP/1.1 404 Not Found\r\n\r\n");
}
