//! The messages exchanged between clients and the daemon, and the records
//! they carry. Every record has a view in which strings are character
//! sequences, so contracts can speak of contents.
use vstd::prelude::*;
use std::collections::VecDeque;
use crate::text::copy_string;
use crate::vecs::{deque_len, deque_new, deque_pop_front, deque_push_back};

verus! {

/// A process's identity: the 128-bit value of its UUID.
pub type ProcessId = u128;

/// The magic bytes that follow the length field of every frame.
pub const WIRE_MAGIC: [u8; 4] = [77u8, 83u8, 79u8, 0u8];

/// Most log lines a process record keeps in memory.
pub const MAX_LOG_LINES: usize = 500;

// ── Log lines ──────────────────────────────────────────────────────

/// One captured chunk of output with its capture time (epoch millis).
#[derive(Debug, Clone)]
pub struct TimestampedLine {
    pub timestamp: u64,
    pub line: String,
}

pub struct LineView {
    pub timestamp: u64,
    pub line: Seq<char>,
}

impl DeepView for TimestampedLine {
    type V = LineView;

    open spec fn deep_view(&self) -> LineView {
        LineView { timestamp: self.timestamp, line: self.line@ }
    }
}

impl TimestampedLine {
    pub fn duplicate(&self) -> (r: TimestampedLine)
        ensures
            r.deep_view() == self.deep_view(),
    {
        TimestampedLine { timestamp: self.timestamp, line: copy_string(&self.line) }
    }
}

/// A copy of a list of log lines.
pub fn copy_lines(v: &VecDeque<TimestampedLine>) -> (r: VecDeque<TimestampedLine>)
    ensures
        r.deep_view() == v.deep_view(),
{
    let n = deque_len(v);
    let mut r: VecDeque<TimestampedLine> = deque_new();
    let mut i: usize = 0;
    while i < n
        invariant
            n == v.deep_view().len(),
            i <= n,
            r.deep_view() == v.deep_view().take(i as int),
        decreases n - i,
    {
        let x = v[i].duplicate();
        assert(x.deep_view() == v.deep_view()[i as int]);
        let ghost before = r.deep_view();
        deque_push_back(&mut r, x);
        assert(v.deep_view().take(i + 1) =~= v.deep_view().take(i as int).push(v.deep_view()[i as int]));
        i = i + 1;
    }
    assert(v.deep_view().take(n as int) =~= v.deep_view());
    r
}

/// A copy of a list of strings.
pub fn copy_strings(v: &Vec<String>) -> (r: Vec<String>)
    ensures
        r.deep_view() == v.deep_view(),
{
    let mut r: Vec<String> = Vec::new();
    let mut i: usize = 0;
    while i < v.len()
        invariant
            i <= v.len(),
            r.deep_view() == v.deep_view().take(i as int),
        decreases v.len() - i,
    {
        let x = copy_string(&v[i]);
        let ghost before = r.deep_view();
        r.push(x);
        assert(r.deep_view() =~= before.push(v.deep_view()[i as int]));
        assert(v.deep_view().take(i + 1) =~= v.deep_view().take(i as int).push(v.deep_view()[i as int]));
        i = i + 1;
    }
    assert(v.deep_view().take(v.len() as int) =~= v.deep_view());
    r
}

/// A copy of a list of name/value pairs.
pub fn copy_pairs(v: &Vec<(String, String)>) -> (r: Vec<(String, String)>)
    ensures
        r.deep_view() == v.deep_view(),
{
    let mut r: Vec<(String, String)> = Vec::new();
    let mut i: usize = 0;
    while i < v.len()
        invariant
            i <= v.len(),
            r.deep_view() == v.deep_view().take(i as int),
        decreases v.len() - i,
    {
        let x = (copy_string(&v[i].0), copy_string(&v[i].1));
        let ghost before = r.deep_view();
        r.push(x);
        assert(r.deep_view() =~= before.push(v.deep_view()[i as int]));
        assert(v.deep_view().take(i + 1) =~= v.deep_view().take(i as int).push(v.deep_view()[i as int]));
        i = i + 1;
    }
    assert(v.deep_view().take(v.len() as int) =~= v.deep_view());
    r
}

/// A copy of an optional string.
pub fn copy_opt_string(v: &Option<String>) -> (r: Option<String>)
    ensures
        r.deep_view() == v.deep_view(),
{
    match v {
        Some(s) => Some(copy_string(s)),
        None => None,
    }
}

/// A copy of a list of ports.
pub fn copy_ports(v: &Vec<u16>) -> (r: Vec<u16>)
    ensures
        r@ == v@,
{
    let mut r: Vec<u16> = Vec::new();
    let mut i: usize = 0;
    while i < v.len()
        invariant
            i <= v.len(),
            r@ == v@.take(i as int),
        decreases v.len() - i,
    {
        r.push(v[i]);
        i = i + 1;
        assert(r@ =~= v@.take(i as int));
    }
    assert(v@.take(v.len() as int) =~= v@);
    r
}

/// The bounded log of a process after `line` arrives: the oldest line
/// leaves once `MAX_LOG_LINES` are held.
pub open spec fn ring_push<T>(lines: Seq<T>, line: T) -> Seq<T> {
    if lines.len() >= MAX_LOG_LINES {
        lines.drop_first().push(line)
    } else {
        lines.push(line)
    }
}

/// Appends `line` to a bounded in-memory log.
pub fn push_log_line(lines: &mut VecDeque<TimestampedLine>, line: TimestampedLine)
    ensures
        final(lines).deep_view() == ring_push(old(lines).deep_view(), line.deep_view()),
{
    if deque_len(lines) >= MAX_LOG_LINES {
        deque_pop_front(lines);
    }
    deque_push_back(lines, line);
}

// ── Shared enums ───────────────────────────────────────────────────

#[derive(Debug, Clone, Copy, PartialEq, Eq, Hash, Structural)]
pub enum StreamKind {
    Stdout,
    Stderr,
}

impl StreamKind {
    /// The integer code stored with each log row (`stream as i32`).
    pub fn code(&self) -> (c: i32)
        ensures
            c == (match self { StreamKind::Stdout => 0i32, StreamKind::Stderr => 1i32 }),
    {
        match self {
            StreamKind::Stdout => 0,
            StreamKind::Stderr => 1,
        }
    }
}

#[derive(Debug, Clone, Copy, PartialEq, Eq, Hash, Structural)]
pub enum RestartPolicy {
    No,
    Always,
}

impl Default for RestartPolicy {
    fn default() -> (r: RestartPolicy)
        ensures
            r == RestartPolicy::No,
    {
        RestartPolicy::No
    }
}

#[derive(Debug, Clone, Copy, PartialEq, Eq, Hash, Structural)]
pub enum ProcessStatus {
    Running,
    Sleeping,
    Crashed,
    Stopped,
}

// ── Records ────────────────────────────────────────────────────────

/// How the daemon probes a process's health over HTTP.
#[derive(Debug, Clone)]
pub struct HealthCheckConfig {
    pub url: String,
    pub interval_secs: u64,
    pub timeout_secs: u64,
    pub max_failures: u32,
}

pub struct HealthView {
    pub url: Seq<char>,
    pub interval_secs: u64,
    pub timeout_secs: u64,
    pub max_failures: u32,
}

impl DeepView for HealthCheckConfig {
    type V = HealthView;

    open spec fn deep_view(&self) -> HealthView {
        HealthView {
            url: self.url@,
            interval_secs: self.interval_secs,
            timeout_secs: self.timeout_secs,
            max_failures: self.max_failures,
        }
    }
}

impl HealthCheckConfig {
    pub fn duplicate(&self) -> (r: HealthCheckConfig)
        ensures
            r.deep_view() == self.deep_view(),
    {
        HealthCheckConfig {
            url: copy_string(&self.url),
            interval_secs: self.interval_secs,
            timeout_secs: self.timeout_secs,
            max_failures: self.max_failures,
        }
    }
}

pub fn copy_opt_health(v: &Option<HealthCheckConfig>) -> (r: Option<HealthCheckConfig>)
    ensures
        r.deep_view() == v.deep_view(),
{
    match v {
        Some(h) => Some(h.duplicate()),
        None => None,
    }
}

/// What a client asks the daemon to supervise. `pid == 0` asks the daemon to
/// spawn the command itself.
#[derive(Debug, Clone)]
pub struct ProcessRegistration {
    pub pid: u32,
    pub command: Vec<String>,
    pub working_dir: String,
    pub env_vars: Vec<(String, String)>,
    pub silence_duration: Option<u64>,
    pub restart_policy: RestartPolicy,
    pub tags: Vec<String>,
    pub health_check: Option<HealthCheckConfig>,
    pub log_file: Option<String>,
}

pub struct RegistrationView {
    pub pid: u32,
    pub command: Seq<Seq<char>>,
    pub working_dir: Seq<char>,
    pub env_vars: Seq<(Seq<char>, Seq<char>)>,
    pub silence_duration: Option<u64>,
    pub restart_policy: RestartPolicy,
    pub tags: Seq<Seq<char>>,
    pub health_check: Option<HealthView>,
    pub log_file: Option<Seq<char>>,
}

impl DeepView for ProcessRegistration {
    type V = RegistrationView;

    open spec fn deep_view(&self) -> RegistrationView {
        RegistrationView {
            pid: self.pid,
            command: self.command.deep_view(),
            working_dir: self.working_dir@,
            env_vars: self.env_vars.deep_view(),
            silence_duration: self.silence_duration,
            restart_policy: self.restart_policy,
            tags: self.tags.deep_view(),
            health_check: self.health_check.deep_view(),
            log_file: self.log_file.deep_view(),
        }
    }
}

impl ProcessRegistration {
    pub fn duplicate(&self) -> (r: ProcessRegistration)
        ensures
            r.deep_view() == self.deep_view(),
    {
        ProcessRegistration {
            pid: self.pid,
            command: copy_strings(&self.command),
            working_dir: copy_string(&self.working_dir),
            env_vars: copy_pairs(&self.env_vars),
            silence_duration: self.silence_duration,
            restart_policy: self.restart_policy,
            tags: copy_strings(&self.tags),
            health_check: copy_opt_health(&self.health_check),
            log_file: copy_opt_string(&self.log_file),
        }
    }
}

/// A supervised process as the daemon tracks it. `cpu_percent_bits` holds
/// the IEEE-754 bit pattern of the CPU percentage, which the library
/// carries but never computes with.
#[derive(Debug, Clone)]
pub struct ManagedProcess {
    pub id: ProcessId,
    pub pid: u32,
    pub command: Vec<String>,
    pub working_dir: String,
    pub env_vars: Vec<(String, String)>,
    pub status: ProcessStatus,
    pub started_at: u64,
    pub uptime_secs: u64,
    pub ports: Vec<u16>,
    pub cpu_percent_bits: u32,
    pub memory_bytes: u64,
    pub io_bytes: u64,
    pub restart_policy: RestartPolicy,
    pub tags: Vec<String>,
    pub health_check: Option<HealthCheckConfig>,
    pub log_file: Option<String>,
    pub health_ok: bool,
    pub sparkline_cpu: String,
    pub sparkline_mem: String,
    pub log_lines: VecDeque<TimestampedLine>,
}

pub struct ProcessView {
    pub id: ProcessId,
    pub pid: u32,
    pub command: Seq<Seq<char>>,
    pub working_dir: Seq<char>,
    pub env_vars: Seq<(Seq<char>, Seq<char>)>,
    pub status: ProcessStatus,
    pub started_at: u64,
    pub uptime_secs: u64,
    pub ports: Seq<u16>,
    pub cpu_percent_bits: u32,
    pub memory_bytes: u64,
    pub io_bytes: u64,
    pub restart_policy: RestartPolicy,
    pub tags: Seq<Seq<char>>,
    pub health_check: Option<HealthView>,
    pub log_file: Option<Seq<char>>,
    pub health_ok: bool,
    pub sparkline_cpu: Seq<char>,
    pub sparkline_mem: Seq<char>,
    pub log_lines: Seq<LineView>,
}

impl DeepView for ManagedProcess {
    type V = ProcessView;

    open spec fn deep_view(&self) -> ProcessView {
        ProcessView {
            id: self.id,
            pid: self.pid,
            command: self.command.deep_view(),
            working_dir: self.working_dir@,
            env_vars: self.env_vars.deep_view(),
            status: self.status,
            started_at: self.started_at,
            uptime_secs: self.uptime_secs,
            ports: self.ports@,
            cpu_percent_bits: self.cpu_percent_bits,
            memory_bytes: self.memory_bytes,
            io_bytes: self.io_bytes,
            restart_policy: self.restart_policy,
            tags: self.tags.deep_view(),
            health_check: self.health_check.deep_view(),
            log_file: self.log_file.deep_view(),
            health_ok: self.health_ok,
            sparkline_cpu: self.sparkline_cpu@,
            sparkline_mem: self.sparkline_mem@,
            log_lines: self.log_lines.deep_view(),
        }
    }
}

impl Default for ManagedProcess {
    fn default() -> (r: ManagedProcess)
        ensures
            r.id == 0,
            r.pid == 0,
            r.command@.len() == 0,
            r.working_dir@.len() == 0,
            r.env_vars@.len() == 0,
            r.status == ProcessStatus::Running,
            r.started_at == 0,
            r.uptime_secs == 0,
            r.ports@.len() == 0,
            r.cpu_percent_bits == 0,
            r.memory_bytes == 0,
            r.io_bytes == 0,
            r.restart_policy == RestartPolicy::No,
            r.tags@.len() == 0,
            r.health_check.is_none(),
            r.log_file.is_none(),
            r.health_ok,
            r.sparkline_cpu@.len() == 0,
            r.sparkline_mem@.len() == 0,
            r.log_lines.deep_view().len() == 0,
    {
        ManagedProcess {
            id: 0,
            pid: 0,
            command: Vec::new(),
            working_dir: String::new(),
            env_vars: Vec::new(),
            status: ProcessStatus::Running,
            started_at: 0,
            uptime_secs: 0,
            ports: Vec::new(),
            cpu_percent_bits: 0,
            memory_bytes: 0,
            io_bytes: 0,
            restart_policy: RestartPolicy::No,
            tags: Vec::new(),
            health_check: None,
            log_file: None,
            health_ok: true,
            sparkline_cpu: String::new(),
            sparkline_mem: String::new(),
            log_lines: deque_new(),
        }
    }
}

/// The record of a freshly registered process, as `from_registration`
/// builds it, started at `now`.
/// An environment in which no variable is set twice, as in the map the
/// client reads it into.
pub open spec fn env_keys_distinct(env: Seq<(Seq<char>, Seq<char>)>) -> bool {
    forall|i: int, j: int| 0 <= i < j < env.len() ==> (#[trigger] env[i]).0 != (#[trigger] env[j]).0
}

pub open spec fn registered_view(id: ProcessId, pid: u32, reg: RegistrationView, now: u64) -> ProcessView {
    ProcessView {
        id: id,
        pid: pid,
        command: reg.command,
        working_dir: reg.working_dir,
        env_vars: reg.env_vars,
        status: ProcessStatus::Running,
        started_at: now,
        uptime_secs: 0,
        ports: seq![],
        cpu_percent_bits: 0,
        memory_bytes: 0,
        io_bytes: 0,
        restart_policy: reg.restart_policy,
        tags: reg.tags,
        health_check: reg.health_check,
        log_file: reg.log_file,
        health_ok: true,
        sparkline_cpu: seq![],
        sparkline_mem: seq![],
        log_lines: seq![],
    }
}

impl ManagedProcess {
    /// The record of a newly registered process; `started_at` is the
    /// current wall-clock time in epoch millis.
    pub fn from_registration(id: ProcessId, pid: u32, reg: &ProcessRegistration) -> (r: ManagedProcess)
        ensures
            r.deep_view() == registered_view(id, pid, reg.deep_view(), r.started_at),
    {
        let now = crate::config::epoch_millis();
        Self::registered_at(id, pid, reg, now)
    }

    /// The record of a process registered at `now` (epoch millis).
    pub fn registered_at(id: ProcessId, pid: u32, reg: &ProcessRegistration, now: u64) -> (r: ManagedProcess)
        ensures
            r.deep_view() == registered_view(id, pid, reg.deep_view(), now),
    {
        let r = ManagedProcess {
            id,
            pid,
            command: copy_strings(&reg.command),
            working_dir: copy_string(&reg.working_dir),
            env_vars: copy_pairs(&reg.env_vars),
            status: ProcessStatus::Running,
            started_at: now,
            uptime_secs: 0,
            ports: Vec::new(),
            cpu_percent_bits: 0,
            memory_bytes: 0,
            io_bytes: 0,
            restart_policy: reg.restart_policy,
            tags: copy_strings(&reg.tags),
            health_check: copy_opt_health(&reg.health_check),
            log_file: copy_opt_string(&reg.log_file),
            health_ok: true,
            sparkline_cpu: String::new(),
            sparkline_mem: String::new(),
            log_lines: deque_new(),
        };
        assert(r.ports@ =~= seq![]);
        assert(r.log_lines.deep_view() =~= seq![]);
        r
    }

    pub fn duplicate(&self) -> (r: ManagedProcess)
        ensures
            r.deep_view() == self.deep_view(),
    {
        ManagedProcess {
            id: self.id,
            pid: self.pid,
            command: copy_strings(&self.command),
            working_dir: copy_string(&self.working_dir),
            env_vars: copy_pairs(&self.env_vars),
            status: self.status,
            started_at: self.started_at,
            uptime_secs: self.uptime_secs,
            ports: copy_ports(&self.ports),
            cpu_percent_bits: self.cpu_percent_bits,
            memory_bytes: self.memory_bytes,
            io_bytes: self.io_bytes,
            restart_policy: self.restart_policy,
            tags: copy_strings(&self.tags),
            health_check: copy_opt_health(&self.health_check),
            log_file: copy_opt_string(&self.log_file),
            health_ok: self.health_ok,
            sparkline_cpu: copy_string(&self.sparkline_cpu),
            sparkline_mem: copy_string(&self.sparkline_mem),
            log_lines: copy_lines(&self.log_lines),
        }
    }
}

/// A copy of a list of process records.
pub fn copy_processes(v: &Vec<ManagedProcess>) -> (r: Vec<ManagedProcess>)
    ensures
        r.deep_view() == v.deep_view(),
{
    let mut r: Vec<ManagedProcess> = Vec::new();
    let mut i: usize = 0;
    while i < v.len()
        invariant
            i <= v.len(),
            r.deep_view() == v.deep_view().take(i as int),
        decreases v.len() - i,
    {
        let x = v[i].duplicate();
        let ghost before = r.deep_view();
        r.push(x);
        assert(r.deep_view() =~= before.push(v.deep_view()[i as int]));
        assert(v.deep_view().take(i + 1) =~= v.deep_view().take(i as int).push(v.deep_view()[i as int]));
        i = i + 1;
    }
    assert(v.deep_view().take(v.len() as int) =~= v.deep_view());
    r
}

/// Every process the daemon tracks.
#[derive(Debug, Clone)]
pub struct ProcessSnapshot {
    pub processes: Vec<ManagedProcess>,
}

/// Resource figures sampled for one process.
#[derive(Debug, Clone)]
pub struct ProcessTelemetry {
    pub ports: Vec<u16>,
    pub cpu_percent_bits: u32,
    pub memory_bytes: u64,
    pub io_bytes: u64,
}

// ── Client → Daemon ────────────────────────────────────────────────

#[derive(Debug, Clone)]
pub enum ClientMessage {
    RegisterProcess(ProcessRegistration),
    GetState,
    GetLogs { process_id: ProcessId, offset: usize, limit: usize },
    SearchLogs {
        process_id: ProcessId,
        query: String,
        stream: Option<StreamKind>,
        offset: usize,
        limit: usize,
    },
    StreamLogs(ProcessId),
    StopStream(ProcessId),
    LogLine { process_id: ProcessId, stream: StreamKind, line: String },
    ProcessExited { process_id: ProcessId, exit_code: Option<i32> },
    RestartProcess(ProcessId),
    KillProcess(ProcessId),
    PruneLogs { older_than_days: u64, process_id: Option<ProcessId> },
    Ping,
}

pub enum ClientMessageView {
    RegisterProcess(RegistrationView),
    GetState,
    GetLogs { process_id: ProcessId, offset: usize, limit: usize },
    SearchLogs {
        process_id: ProcessId,
        query: Seq<char>,
        stream: Option<StreamKind>,
        offset: usize,
        limit: usize,
    },
    StreamLogs(ProcessId),
    StopStream(ProcessId),
    LogLine { process_id: ProcessId, stream: StreamKind, line: Seq<char> },
    ProcessExited { process_id: ProcessId, exit_code: Option<i32> },
    RestartProcess(ProcessId),
    KillProcess(ProcessId),
    PruneLogs { older_than_days: u64, process_id: Option<ProcessId> },
    Ping,
}

impl DeepView for ClientMessage {
    type V = ClientMessageView;

    open spec fn deep_view(&self) -> ClientMessageView {
        match self {
            ClientMessage::RegisterProcess(r) => ClientMessageView::RegisterProcess(r.deep_view()),
            ClientMessage::GetState => ClientMessageView::GetState,
            ClientMessage::GetLogs { process_id, offset, limit } =>
                ClientMessageView::GetLogs { process_id: *process_id, offset: *offset, limit: *limit },
            ClientMessage::SearchLogs { process_id, query, stream, offset, limit } =>
                ClientMessageView::SearchLogs {
                    process_id: *process_id,
                    query: query@,
                    stream: *stream,
                    offset: *offset,
                    limit: *limit,
                },
            ClientMessage::StreamLogs(id) => ClientMessageView::StreamLogs(*id),
            ClientMessage::StopStream(id) => ClientMessageView::StopStream(*id),
            ClientMessage::LogLine { process_id, stream, line } =>
                ClientMessageView::LogLine { process_id: *process_id, stream: *stream, line: line@ },
            ClientMessage::ProcessExited { process_id, exit_code } =>
                ClientMessageView::ProcessExited { process_id: *process_id, exit_code: *exit_code },
            ClientMessage::RestartProcess(id) => ClientMessageView::RestartProcess(*id),
            ClientMessage::KillProcess(id) => ClientMessageView::KillProcess(*id),
            ClientMessage::PruneLogs { older_than_days, process_id } =>
                ClientMessageView::PruneLogs { older_than_days: *older_than_days, process_id: *process_id },
            ClientMessage::Ping => ClientMessageView::Ping,
        }
    }
}

// ── Daemon → Client ────────────────────────────────────────────────

#[derive(Debug, Clone)]
pub enum DaemonMessage {
    Registered { id: ProcessId, pid: u32 },
    StateSnapshot(ProcessSnapshot),
    LogEvent { process_id: ProcessId, stream: StreamKind, line: String, timestamp: u64 },
    LogsBatch { logs: Vec<TimestampedLine>, total: usize },
    SearchResult { logs: Vec<TimestampedLine>, total: usize, query: String },
    StatusChanged { process_id: ProcessId, status: ProcessStatus },
    HealthStatus { process_id: ProcessId, healthy: bool, failures: u32 },
    TelemetryUpdate { process_id: ProcessId, telemetry: ProcessTelemetry },
    LogsPruned { count: usize },
    Pong,
    Error(String),
}

} // verus!
