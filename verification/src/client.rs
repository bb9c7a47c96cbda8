//! The command-line client's decisions: which process a user's text names,
//! how a log line and a port list are printed, what a registration reply
//! means, what each streamed message does to the terminal, and how long a
//! wrapped command streams before it goes to the background.
use vstd::prelude::*;
use crate::ids::{parse_uuid, uuid_parse, uuid_text, uuid_text_spec, hex_digits};
use crate::protocol::{ClientMessage, DaemonMessage, ManagedProcess, ProcessId, ProcessStatus, ProcessView, StreamKind, TimestampedLine};
use crate::scan::sub_chars;
use crate::text::{chars_of, dec, push_dec, push_str, starts_with_seq, str_eq, str_starts_with, string_from_chars, u64_to_string};
use crate::theme::{clock_text, format_clock};

verus! {

/// Whether the user's text names process `p`: a prefix of its UUID, or its
/// PID written out.
pub open spec fn names_process(p: ProcessView, text: Seq<char>) -> bool {
    starts_with_seq(uuid_text_spec(p.id), text) || dec(p.pid as nat) == text
}

/// The first process the text names, as `mso logs` looks it up.
pub fn find_named_process(procs: &Vec<ManagedProcess>, text: &str) -> (r: Option<usize>)
    ensures
        match r {
            Some(i) => i < procs.len() && names_process(procs.deep_view()[i as int], text@)
                && forall|j: int| 0 <= j < i ==> !names_process(procs.deep_view()[j], text@),
            None => forall|j: int| 0 <= j < procs.len() ==> !names_process(procs.deep_view()[j], text@),
        },
{
    let mut i: usize = 0;
    while i < procs.len()
        invariant
            i <= procs.len(),
            forall|j: int| 0 <= j < i ==> !names_process(procs.deep_view()[j], text@),
        decreases procs.len() - i,
    {
        let id_text = uuid_text(procs[i].id);
        let pid_text = u64_to_string(procs[i].pid as u64);
        if str_starts_with(id_text.as_str(), text) || str_eq(pid_text.as_str(), text) {
            return Some(i);
        }
        i = i + 1;
    }
    None
}

/// A stored log line as `mso logs` prints it: `[HH:MM:SS] line`.
pub open spec fn log_line_text_spec(ts: u64, line: Seq<char>) -> Seq<char> {
    "["@ + clock_text(ts as nat) + "] "@ + line
}

pub fn log_line_text(tl: &TimestampedLine) -> (r: String)
    ensures
        r@ == log_line_text_spec(tl.timestamp, tl.line@),
{
    let clock = format_clock(tl.timestamp);
    let mut r = String::new();
    push_str(&mut r, "[");
    push_str(&mut r, clock.as_str());
    push_str(&mut r, "] ");
    push_str(&mut r, tl.line.as_str());
    assert(r@ =~= log_line_text_spec(tl.timestamp, tl.line@));
    r
}

/// Ports as `mso stats` lists them: `:p` for each, separated by spaces.
pub open spec fn port_list(ports: Seq<u16>) -> Seq<char>
    decreases ports.len(),
{
    if ports.len() == 0 {
        seq![]
    } else if ports.len() == 1 {
        ":"@ + dec(ports[0] as nat)
    } else {
        port_list(ports.drop_last()) + " :"@ + dec(ports.last() as nat)
    }
}

/// The ports column: the port list, or `-` when there is none.
pub open spec fn ports_column(ports: Seq<u16>) -> Seq<char> {
    if ports.len() == 0 { "-"@ } else { port_list(ports) }
}

pub fn ports_text(ports: &Vec<u16>) -> (r: String)
    ensures
        r@ == ports_column(ports@),
{
    if ports.len() == 0 {
        return String::from_str("-");
    }
    let mut r = String::new();
    push_str(&mut r, ":");
    push_dec(&mut r, ports[0] as u64);
    assert(r@ =~= port_list(ports@.take(1)));
    let mut i: usize = 1;
    while i < ports.len()
        invariant
            1 <= i <= ports.len(),
            r@ == port_list(ports@.take(i as int)),
        decreases ports.len() - i,
    {
        push_str(&mut r, " :");
        push_dec(&mut r, ports[i] as u64);
        assert(ports@.take(i + 1).drop_last() =~= ports@.take(i as int));
        i = i + 1;
        assert(r@ =~= port_list(ports@.take(i as int)));
    }
    assert(ports@.take(i as int) =~= ports@);
    r
}

proof fn lemma_hex_len(v: nat, n: nat)
    ensures
        hex_digits(v, n).len() == n,
    decreases n,
{
    if n > 0 {
        lemma_hex_len(v / 16, (n - 1) as nat);
    }
}

/// The short form of a process identity: the first 8 characters of its
/// UUID.
pub fn short_id(id: ProcessId) -> (r: String)
    ensures
        r@ == uuid_text_spec(id).take(8),
{
    proof {
        lemma_hex_len(id as nat, 32);
    }
    let full = uuid_text(id);
    let v = chars_of(full.as_str());
    let head = sub_chars(&v, 0, 8);
    assert(v@.subrange(0, 8) =~= v@.take(8));
    string_from_chars(&head)
}

/// How the runner reads the daemon's answer to its registration.
pub fn registration_outcome(resp: DaemonMessage) -> (r: Result<(ProcessId, u32), String>)
    ensures
        match resp {
            DaemonMessage::Registered { id, pid } => r == Ok::<(ProcessId, u32), String>((id, pid)),
            DaemonMessage::Error(e) => r matches Err(s) && s@ == "daemon rejected: "@ + e@,
            _ => r matches Err(s) && s@ == "unexpected daemon response"@,
        },
{
    match resp {
        DaemonMessage::Registered { id, pid } => Ok((id, pid)),
        DaemonMessage::Error(e) => {
            let mut s = String::new();
            push_str(&mut s, "daemon rejected: ");
            push_str(&mut s, e.as_str());
            Err(s)
        },
        _ => Err(String::from_str("unexpected daemon response")),
    }
}

/// What a streamed message does to the wrapped command's terminal.
#[derive(Debug)]
pub enum StreamEvent {
    /// Print the line on standard output.
    Stdout(String),
    /// Print the line on standard error.
    Stderr(String),
    /// The process exited: say so and stop streaming.
    Exited,
    /// The process crashed: say so and stop streaming.
    Crashed,
    /// Nothing to do.
    Ignore,
}

pub fn stream_event(msg: DaemonMessage) -> (r: StreamEvent)
    ensures
        match msg {
            DaemonMessage::LogEvent { line, stream, .. } => match stream {
                StreamKind::Stdout => r == StreamEvent::Stdout(line),
                StreamKind::Stderr => r == StreamEvent::Stderr(line),
            },
            DaemonMessage::StatusChanged { status, .. } => match status {
                ProcessStatus::Stopped => r == StreamEvent::Exited,
                ProcessStatus::Crashed => r == StreamEvent::Crashed,
                _ => r == StreamEvent::Ignore,
            },
            _ => r == StreamEvent::Ignore,
        },
{
    match msg {
        DaemonMessage::LogEvent { line, stream, .. } => match stream {
            StreamKind::Stdout => StreamEvent::Stdout(line),
            StreamKind::Stderr => StreamEvent::Stderr(line),
        },
        DaemonMessage::StatusChanged { status, .. } => match status {
            ProcessStatus::Stopped => StreamEvent::Exited,
            ProcessStatus::Crashed => StreamEvent::Crashed,
            _ => StreamEvent::Ignore,
        },
        _ => StreamEvent::Ignore,
    }
}

/// How long a wrapped command streams its output.
#[derive(Debug, Clone, Copy, PartialEq, Eq, Structural)]
pub enum StreamPlan {
    /// Go to the background at once.
    Background,
    /// Stream for this many seconds, then go to the background.
    For(u64),
    /// Stream until the process ends.
    Forever,
}

/// The plan for a silence setting: `Some(0)` backgrounds at once, `Some(n)`
/// streams `n` seconds, `None` streams until the end.
pub fn stream_plan(silence_secs: Option<u64>) -> (r: StreamPlan)
    ensures
        r == match silence_secs {
            Some(n) => if n == 0 { StreamPlan::Background } else { StreamPlan::For(n) },
            None => StreamPlan::Forever,
        },
{
    match silence_secs {
        Some(n) => if n == 0 { StreamPlan::Background } else { StreamPlan::For(n) },
        None => StreamPlan::Forever,
    }
}

/// The request `mso prune` sends: logs older than `days`, of the process
/// whose UUID the text spells (all processes when it spells none).
pub fn prune_message(days: u64, process: Option<String>) -> (r: ClientMessage)
    ensures
        r == (ClientMessage::PruneLogs {
            older_than_days: days,
            process_id: match process {
                Some(s) => uuid_parse(s@),
                None => None,
            },
        }),
{
    let pid = match process {
        Some(s) => parse_uuid(s.as_str()),
        None => None,
    };
    ClientMessage::PruneLogs { older_than_days: days, process_id: pid }
}

} // verus!

verus! {

/// Whether `pid` names a single process to `kill(2)`: zero and values
/// past `i32::MAX` (negative as a `pid_t`) name process groups instead.
pub open spec fn names_one_process(pid: u32) -> bool {
    1 <= pid <= i32::MAX
}

pub fn is_signalable_pid(pid: u32) -> (r: bool)
    ensures
        r == names_one_process(pid),
{
    1 <= pid && pid <= 0x7fff_ffff
}

/// The PID a daemon PID file holds: its trimmed text as a `u32`.
pub fn parse_pid_file(content: &str) -> (r: Option<u32>)
    ensures
        r matches Some(p) ==> crate::scan::parse_uint(crate::scan::trimmed(content@), 10, u32::MAX as nat) == Some(p as nat),
        r is None ==> crate::scan::parse_uint(crate::scan::trimmed(content@), 10, u32::MAX as nat) is None,
{
    let v = chars_of(content);
    assert(v@.subrange(0, v.len() as int) =~= v@);
    let (a, b) = crate::scan::trim_bounds(&v, 0, v.len());
    match crate::scan::parse_uint_in(&v, a, b, 10, 4294967295) {
        Some(p) => Some(p as u32),
        None => None,
    }
}

} // verus!
