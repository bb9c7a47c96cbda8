//! The daemon's decisions, apart from the sockets, child processes and
//! timers that carry them out: how an exit or a health probe changes a
//! process, when a process is restarted, what a restart registers, which
//! log rows a prune removes, and what the metrics endpoint serves.
use vstd::prelude::*;
use crate::protocol::{
    ManagedProcess, ProcessId, ProcessRegistration, ProcessStatus, ProcessView, RegistrationView,
    RestartPolicy, TimestampedLine, copy_opt_health, copy_opt_string, copy_pairs, copy_strings,
};
use crate::text::{copy_string, dec, push_dec, push_str, str_starts_with, starts_with_seq};
use crate::theme::{utf8_len, utf8_width};

verus! {

/// The status a client-reported exit leaves: a clean exit (code 0) stops
/// the process; any other code, or none (killed by a signal), is a crash.
pub open spec fn exit_status_spec(exit_code: Option<i32>) -> ProcessStatus {
    if exit_code == Some(0i32) { ProcessStatus::Stopped } else { ProcessStatus::Crashed }
}

pub fn exit_status(exit_code: Option<i32>) -> (s: ProcessStatus)
    ensures
        s == exit_status_spec(exit_code),
{
    match exit_code {
        Some(0) => ProcessStatus::Stopped,
        _ => ProcessStatus::Crashed,
    }
}

/// The registration a restart spawns from: the process's command,
/// directory, environment, policy, tags, health check and log file, with
/// the daemon spawning it (`pid` 0) and no silence period.
pub open spec fn respawn_view(p: ProcessView) -> RegistrationView {
    RegistrationView {
        pid: 0,
        command: p.command,
        working_dir: p.working_dir,
        env_vars: p.env_vars,
        silence_duration: None,
        restart_policy: p.restart_policy,
        tags: p.tags,
        health_check: p.health_check,
        log_file: p.log_file,
    }
}

pub fn respawn_registration(p: &ManagedProcess) -> (r: ProcessRegistration)
    ensures
        r.deep_view() == respawn_view(p.deep_view()),
{
    ProcessRegistration {
        pid: 0,
        command: copy_strings(&p.command),
        working_dir: copy_string(&p.working_dir),
        env_vars: copy_pairs(&p.env_vars),
        silence_duration: None,
        restart_policy: p.restart_policy,
        tags: copy_strings(&p.tags),
        health_check: copy_opt_health(&p.health_check),
        log_file: copy_opt_string(&p.log_file),
    }
}

/// What the exit monitor does after a poll.
#[derive(Debug, Clone, Copy, PartialEq, Eq, Structural)]
pub enum MonitorAction {
    /// The process is still running: poll again later.
    KeepWatching,
    /// It is gone and its policy is `Always`: spawn it anew.
    Restart,
    /// It is gone: mark it stopped, reap it, persist the table.
    MarkStopped,
}

/// The exit monitor's decision for a tracked process (`None` once it has
/// left the table); `pid_alive` is what probing its PID found, consulted
/// only for a running process.
pub open spec fn monitor_decision(p: Option<ProcessView>, pid_alive: bool) -> MonitorAction {
    match p {
        Some(v) => if v.status == ProcessStatus::Running && pid_alive {
            MonitorAction::KeepWatching
        } else if v.restart_policy == RestartPolicy::Always {
            MonitorAction::Restart
        } else {
            MonitorAction::MarkStopped
        },
        None => MonitorAction::MarkStopped,
    }
}

pub fn monitor_step(p: Option<&ManagedProcess>, pid_alive: bool) -> (a: MonitorAction)
    ensures
        a == monitor_decision(
            match p {
                Some(q) => Some(q.deep_view()),
                None => None,
            },
            pid_alive,
        ),
{
    match p {
        Some(v) => {
            if v.status == ProcessStatus::Running && pid_alive {
                MonitorAction::KeepWatching
            } else if v.restart_policy == RestartPolicy::Always {
                MonitorAction::Restart
            } else {
                MonitorAction::MarkStopped
            }
        },
        None => MonitorAction::MarkStopped,
    }
}

/// One health probe: a success clears the failure count, a failure adds
/// one; reaching `max_failures` stops the probing and restarts (kills) the
/// process.
pub open spec fn health_decision(failures: u32, ok: bool, max_failures: u32) -> (u32, bool) {
    let f = if ok { 0u32 } else { (failures + 1) as u32 };
    (f, f >= max_failures)
}

pub fn health_step(failures: u32, ok: bool, max_failures: u32) -> (r: (u32, bool))
    requires
        failures < u32::MAX,
    ensures
        r == health_decision(failures, ok, max_failures),
{
    let f = if ok { 0 } else { failures + 1 };
    (f, f >= max_failures)
}

/// The line a health probe logs: `health: OK (failures=N)` or
/// `health: FAIL (failures=N)`.
pub open spec fn health_line(ok: bool, failures: u32) -> Seq<char> {
    "health: "@ + (if ok { "OK"@ } else { "FAIL"@ }) + " (failures="@ + dec(failures as nat) + ")"@
}

pub fn health_message(ok: bool, failures: u32) -> (r: String)
    ensures
        r@ == health_line(ok, failures),
{
    let mut r = String::new();
    push_str(&mut r, "health: ");
    push_str(&mut r, if ok { "OK" } else { "FAIL" });
    push_str(&mut r, " (failures=");
    push_dec(&mut r, failures as u64);
    push_str(&mut r, ")");
    assert(r@ =~= health_line(ok, failures));
    r
}

/// A process record read back from disk: one saved as running is kept
/// running only if its PID is set and alive (`pid_alive`, probed for a
/// nonzero PID); otherwise it is marked crashed and loses its PID.
pub open spec fn reloaded(p: ProcessView, pid_alive: bool) -> ProcessView {
    if p.status == ProcessStatus::Running && !(p.pid > 0 && pid_alive) {
        ProcessView { status: ProcessStatus::Crashed, pid: 0, ..p }
    } else {
        p
    }
}

pub fn reconcile_loaded(p: &mut ManagedProcess, pid_alive: bool)
    ensures
        final(p).deep_view() == reloaded(old(p).deep_view(), pid_alive),
{
    if p.status == ProcessStatus::Running {
        if p.pid > 0 && pid_alive {
            p.status = ProcessStatus::Running;
        } else {
            p.status = ProcessStatus::Crashed;
            p.pid = 0;
        }
    }
}

/// Whether process `i` is the one a restart reply names: running, with the
/// latest start time, the last such in the table on a tie.
pub open spec fn is_newest_running(ps: Seq<ProcessView>, i: int) -> bool {
    &&& 0 <= i < ps.len()
    &&& ps[i].status == ProcessStatus::Running
    &&& forall|j: int| 0 <= j < ps.len() && ps[j].status == ProcessStatus::Running ==> ps[j].started_at <= ps[i].started_at
    &&& forall|j: int| i < j < ps.len() && ps[j].status == ProcessStatus::Running ==> ps[j].started_at < ps[i].started_at
}

/// The identity of the most recently started running process.
pub fn newest_running(ps: &Vec<ManagedProcess>) -> (r: Option<ProcessId>)
    ensures
        match r {
            Some(id) => exists|i: int| is_newest_running(ps.deep_view(), i) && ps.deep_view()[i].id == id,
            None => forall|i: int| 0 <= i < ps.len() ==> ps.deep_view()[i].status != ProcessStatus::Running,
        },
{
    let ghost pv = ps.deep_view();
    let mut best: Option<usize> = None;
    let mut i: usize = 0;
    while i < ps.len()
        invariant
            pv == ps.deep_view(),
            i <= ps.len(),
            match best {
                Some(b) => b < i && is_newest_running(pv.take(i as int), b as int),
                None => forall|j: int| 0 <= j < i ==> pv[j].status != ProcessStatus::Running,
            },
        decreases ps.len() - i,
    {
        if ps[i].status == ProcessStatus::Running {
            match best {
                Some(b) => {
                    if ps[i].started_at >= ps[b].started_at {
                        best = Some(i);
                    }
                },
                None => {
                    best = Some(i);
                },
            }
        }
        i = i + 1;
        proof {
            let t = pv.take(i as int);
            assert(forall|j: int| 0 <= j < i ==> t[j] == pv[j]);
            match best {
                Some(b) => {
                    assert(forall|j: int| 0 <= j < i - 1 ==> pv.take(i - 1)[j] == pv[j]);
                },
                None => {},
            }
        }
    }
    assert(pv.take(i as int) =~= pv);
    match best {
        Some(b) => Some(ps[b].id),
        None => None,
    }
}

// ── Persisting the table ───────────────────────────────────────────

/// How many times the table is written before the daemon gives up.
pub const SAVE_ATTEMPTS: u64 = 3;

/// What follows one attempt to write the process table.
#[derive(Debug, Clone, Copy, PartialEq, Eq, Structural)]
pub enum SaveAction {
    /// The write succeeded.
    Done,
    /// It failed: wait this many milliseconds and try again.
    RetryAfter(u64),
    /// It failed for the last time: warn and stop.
    GiveUp,
}

/// After attempt `attempt` (counted from 1): stop on success, else wait
/// 100 ms per attempt made and retry, until the last attempt has failed.
pub open spec fn save_decision(attempt: u64, ok: bool) -> SaveAction {
    if ok {
        SaveAction::Done
    } else if attempt < SAVE_ATTEMPTS {
        SaveAction::RetryAfter((100 * attempt) as u64)
    } else {
        SaveAction::GiveUp
    }
}

pub fn save_step(attempt: u64, ok: bool) -> (r: SaveAction)
    ensures
        r == save_decision(attempt, ok),
{
    if ok {
        SaveAction::Done
    } else if attempt < SAVE_ATTEMPTS {
        SaveAction::RetryAfter(100 * attempt)
    } else {
        SaveAction::GiveUp
    }
}

/// The cut-off (epoch millis) of a prune of logs older than `days`: `days`
/// days before `now`, or the epoch itself when that reaches back before it.
pub open spec fn prune_cutoff_spec(now: u64, days: u64) -> u64 {
    if days as nat * 86400000 <= now as nat {
        (now as nat - days as nat * 86400000) as u64
    } else {
        0
    }
}

pub fn prune_cutoff(now: u64, days: u64) -> (r: u64)
    ensures
        r == prune_cutoff_spec(now, days),
{
    if days > now / 86400000 {
        assert(days as nat * 86400000 > now as nat) by (nonlinear_arith)
            requires
                days > now / 86400000;
        return 0;
    }
    assert(days as nat * 86400000 <= now as nat) by (nonlinear_arith)
        requires
            days <= now / 86400000;
    now - days * 86400000
}

/// The retention the hourly prune uses: the configured days, at least one.
pub fn retention_days(configured: u64) -> (d: u64)
    ensures
        d == if configured < 1 { 1 } else { configured },
{
    if configured < 1 { 1 } else { configured }
}

// ── Metrics ────────────────────────────────────────────────────────

/// The lower-case status label of the metrics.
pub open spec fn status_label(s: ProcessStatus) -> Seq<char> {
    match s {
        ProcessStatus::Running => "running"@,
        ProcessStatus::Sleeping => "sleeping"@,
        ProcessStatus::Crashed => "crashed"@,
        ProcessStatus::Stopped => "stopped"@,
    }
}

pub fn status_label_text(s: ProcessStatus) -> (r: &'static str)
    ensures
        r@ == status_label(s),
{
    match s {
        ProcessStatus::Running => "running",
        ProcessStatus::Sleeping => "sleeping",
        ProcessStatus::Crashed => "crashed",
        ProcessStatus::Stopped => "stopped",
    }
}

/// The name a process has in the metrics: its command's first word, or
/// `unknown`.
pub open spec fn metric_name(p: ProcessView) -> Seq<char> {
    if p.command.len() > 0 { p.command[0] } else { "unknown"@ }
}

pub open spec fn metrics_header() -> Seq<char> {
    "# HELP mso_cpu_percent CPU usage percentage\n# TYPE mso_cpu_percent gauge\n"@
        + "# HELP mso_daemon_up Daemon health\n# TYPE mso_daemon_up gauge\nmso_daemon_up 1\n"@
}

pub open spec fn port_lines(pid: u32, ports: Seq<u16>) -> Seq<char>
    decreases ports.len(),
{
    if ports.len() == 0 {
        seq![]
    } else {
        port_lines(pid, ports.drop_last()) + "mso_open_port{pid=\""@ + dec(pid as nat) + "\",port=\""@
            + dec(ports.last() as nat) + "\"} 1\n"@
    }
}

/// One labelled gauge line: `metric{pid="..",name=".."<extra>"} value`.
pub open spec fn gauge_line(metric: Seq<char>, pid: u32, name: Seq<char>, extra: Seq<char>, value: Seq<char>) -> Seq<char> {
    metric + "{pid=\""@ + dec(pid as nat) + "\",name=\""@ + name + extra + "\"} "@ + value + "\n"@
}

/// The metric lines of one process; `cpu` is its CPU figure as the
/// daemon prints it.
pub open spec fn process_metrics(p: ProcessView, cpu: Seq<char>) -> Seq<char> {
    let name = metric_name(p);
    gauge_line("mso_cpu_percent"@, p.pid, name, "\",status=\""@ + status_label(p.status), cpu)
        + gauge_line("mso_memory_bytes"@, p.pid, name, seq![], dec(p.memory_bytes as nat))
        + gauge_line("mso_io_bytes"@, p.pid, name, seq![], dec(p.io_bytes as nat))
        + port_lines(p.pid, p.ports)
        + gauge_line("mso_uptime_seconds"@, p.pid, name, seq![], dec(p.uptime_secs as nat))
}

/// The metrics page for the processes, each with its CPU figure.
pub open spec fn metrics_body(ps: Seq<ProcessView>, cpus: Seq<Seq<char>>) -> Seq<char>
    decreases ps.len(),
{
    if ps.len() == 0 || cpus.len() < ps.len() {
        metrics_header()
    } else {
        metrics_body(ps.drop_last(), cpus) + process_metrics(ps.last(), cpus[ps.len() - 1])
    }
}

fn push_gauge(s: &mut String, metric: &str, pid: u32, name: &str, extra: &str, value: &str)
    ensures
        final(s)@ == old(s)@ + gauge_line(metric@, pid, name@, extra@, value@),
{
    push_str(s, metric);
    push_str(s, "{pid=\"");
    push_dec(s, pid as u64);
    push_str(s, "\",name=\"");
    push_str(s, name);
    push_str(s, extra);
    push_str(s, "\"} ");
    push_str(s, value);
    push_str(s, "\n");
    assert(s@ =~= old(s)@ + gauge_line(metric@, pid, name@, extra@, value@));
}

fn push_gauge_number(s: &mut String, metric: &str, pid: u32, name: &str, value: u64)
    ensures
        final(s)@ == old(s)@ + gauge_line(metric@, pid, name@, seq![], dec(value as nat)),
{
    let mut v = String::new();
    push_dec(&mut v, value);
    let e = String::new();
    proof {
        assert(v@ =~= dec(value as nat));
        assert(e@ =~= Seq::<char>::empty());
    }
    push_gauge(s, metric, pid, name, e.as_str(), v.as_str());
}

fn push_port_lines(s: &mut String, pid: u32, ports: &Vec<u16>)
    ensures
        final(s)@ == old(s)@ + port_lines(pid, ports@),
{
    let ghost before_ports = s@;
    let mut k: usize = 0;
    while k < ports.len()
        invariant
            k <= ports@.len(),
            s@ == before_ports + port_lines(pid, ports@.take(k as int)),
        decreases ports@.len() - k,
    {
        push_str(s, "mso_open_port{pid=\"");
        push_dec(s, pid as u64);
        push_str(s, "\",port=\"");
        push_dec(s, ports[k] as u64);
        push_str(s, "\"} 1\n");
        proof {
            assert(ports@.take(k + 1).drop_last() =~= ports@.take(k as int));
        }
        k = k + 1;
        assert(s@ =~= before_ports + port_lines(pid, ports@.take(k as int)));
    }
    assert(ports@.take(k as int) =~= ports@);
}

fn metric_name_text(p: &ManagedProcess) -> (name: &str)
    ensures
        name@ == metric_name(p.deep_view()),
{
    if p.command.len() > 0 {
        p.command[0].as_str()
    } else {
        "unknown"
    }
}

fn push_process_metrics(s: &mut String, p: &ManagedProcess, cpu: &String)
    ensures
        final(s)@ == old(s)@ + process_metrics(p.deep_view(), cpu@),
{
    let ghost start = s@;
    let ghost pv = p.deep_view();
    let name = metric_name_text(p);
    let mut extra = String::new();
    push_str(&mut extra, "\",status=\"");
    push_str(&mut extra, status_label_text(p.status));
    let ghost s0 = s@;
    push_gauge(s, "mso_cpu_percent", p.pid, name, extra.as_str(), cpu.as_str());
    let ghost s1 = s@;
    push_gauge_number(s, "mso_memory_bytes", p.pid, name, p.memory_bytes);
    let ghost s2 = s@;
    push_gauge_number(s, "mso_io_bytes", p.pid, name, p.io_bytes);
    let ghost s3 = s@;
    push_port_lines(s, p.pid, &p.ports);
    let ghost s4 = s@;
    push_gauge_number(s, "mso_uptime_seconds", p.pid, name, p.uptime_secs);
    proof {
        assert(extra@ =~= "\",status=\""@ + status_label(pv.status));
        assert(s1 == start + gauge_line("mso_cpu_percent"@, pv.pid, metric_name(pv), "\",status=\""@ + status_label(pv.status), cpu@));
        assert(s@ =~= start + process_metrics(pv, cpu@));
    }
}

/// The metrics page; `cpus[i]` is how the daemon prints process `i`'s CPU
/// percentage.
pub fn render_metrics(ps: &Vec<ManagedProcess>, cpus: &Vec<String>) -> (body: String)
    requires
        cpus@.len() == ps@.len(),
    ensures
        body@ == metrics_body(ps.deep_view(), cpus.deep_view()),
{
    let mut s = String::new();
    push_str(&mut s, "# HELP mso_cpu_percent CPU usage percentage\n# TYPE mso_cpu_percent gauge\n");
    push_str(&mut s, "# HELP mso_daemon_up Daemon health\n# TYPE mso_daemon_up gauge\nmso_daemon_up 1\n");
    let ghost pv = ps.deep_view();
    let ghost cv = cpus.deep_view();
    assert(s@ =~= metrics_header());
    let mut i: usize = 0;
    while i < ps.len()
        invariant
            pv == ps.deep_view(),
            cv == cpus.deep_view(),
            cv.len() == pv.len(),
            i <= pv.len(),
            s@ == metrics_body(pv.take(i as int), cv),
        decreases pv.len() - i,
    {
        push_process_metrics(&mut s, &ps[i], &cpus[i]);
        proof {
            assert(pv.take(i + 1).drop_last() =~= pv.take(i as int));
            assert(pv.take(i + 1).last() == pv[i as int]);
        }
        i = i + 1;
    }
    assert(pv.take(i as int) =~= pv);
    s
}

/// Whether an HTTP request asks for the metrics page.
pub fn is_metrics_request(request: &str) -> (r: bool)
    ensures
        r == starts_with_seq(request@, "GET /metrics"@),
{
    str_starts_with(request, "GET /metrics")
}

/// The byte length of a string (`str::len`).
pub fn byte_len(s: &str) -> (n: usize)
    requires
        utf8_len(s@) <= usize::MAX,
    ensures
        n == utf8_len(s@),
{
    let v = crate::text::chars_of(s);
    let mut n: usize = 0;
    let mut i: usize = 0;
    while i < v.len()
        invariant
            v@ == s@,
            i <= v.len(),
            n == crate::theme::utf8_prefix_len(v@, i as int),
            utf8_len(s@) <= usize::MAX,
        decreases v.len() - i,
    {
        proof {
            crate::theme::lemma_prefix_len_mono(v@, i + 1, v@.len() as int);
        }
        let c = v[i];
        let w: usize = if (c as u32) < 0x80 { 1 } else if (c as u32) < 0x800 { 2 } else if (c as u32) < 0x10000 { 3 } else { 4 };
        assert(w == utf8_width(c));
        n = n + w;
        i = i + 1;
    }
    n
}

/// The HTTP reply carrying the metrics page.
/// The reply to any request other than `GET /metrics`.
pub open spec fn not_found_reply() -> Seq<char> {
    "HTTP/1.1 404 Not Found\r\n\r\n"@
}

pub fn not_found_response() -> (r: &'static str)
    ensures
        r@ == not_found_reply(),
{
    "HTTP/1.1 404 Not Found\r\n\r\n"
}

pub open spec fn metrics_reply(body: Seq<char>) -> Seq<char> {
    "HTTP/1.1 200 OK\r\nContent-Type: text/plain\r\nContent-Length: "@ + dec(utf8_len(body)) + "\r\n\r\n"@ + body
}

pub fn metrics_response(body: &String) -> (r: String)
    requires
        utf8_len(body@) <= u64::MAX,
        utf8_len(body@) <= usize::MAX,
    ensures
        r@ == metrics_reply(body@),
{
    let n = byte_len(body.as_str());
    let mut r = String::new();
    push_str(&mut r, "HTTP/1.1 200 OK\r\nContent-Type: text/plain\r\nContent-Length: ");
    push_dec(&mut r, n as u64);
    push_str(&mut r, "\r\n\r\n");
    push_str(&mut r, body.as_str());
    assert(r@ =~= metrics_reply(body@));
    r
}

} // verus!

verus! {

/// `String::from_utf8_lossy`: the text of a byte chunk, each invalid UTF-8
/// sequence replaced by U+FFFD.
pub uninterp spec fn utf8_lossy(bytes: Seq<u8>) -> Seq<char>;

/// The text of a chunk read from a child's pipe
/// (`String::from_utf8_lossy(..).to_string()`).
#[verifier::external_body]
fn decode_output(bytes: &Vec<u8>) -> (r: String)
    ensures
        r@ == utf8_lossy(bytes@),
{
    String::from_utf8_lossy(bytes.as_slice()).to_string()
}

/// The log line a chunk read from a child's pipe at `ts` becomes: its
/// lossily decoded text, stamped.
pub fn output_line(chunk: &Vec<u8>, ts: u64) -> (r: TimestampedLine)
    ensures
        r.timestamp == ts,
        r.line@ == utf8_lossy(chunk@),
{
    TimestampedLine { timestamp: ts, line: decode_output(chunk) }
}

} // verus!
