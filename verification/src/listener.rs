//! What the daemon does with each message a client sends on its socket,
//! and the replies it sends back once the work is done: the connection
//! loop reads a frame, asks `plan_request` what the message calls for,
//! carries that out against the process table, the children and the log
//! store, and builds the reply from the outcome.
use vstd::prelude::*;
use crate::daemon::{exit_status, exit_status_spec, is_newest_running, newest_running, prune_cutoff, prune_cutoff_spec};
use crate::protocol::{
    ClientMessage, DaemonMessage, ManagedProcess, ProcessId, ProcessRegistration, ProcessStatus, StreamKind,
    TimestampedLine,
};
use crate::text::push_str;

verus! {

/// The work a client message calls for.
#[derive(Debug)]
pub enum Request {
    /// Append a captured line to the process's in-memory log and broadcast
    /// it; no reply.
    AppendLog { process_id: ProcessId, stream: StreamKind, line: String, timestamp: u64 },
    /// Record how the process exited and persist the table; no reply.
    MarkExited { process_id: ProcessId, status: ProcessStatus },
    /// Spawn the registered command as process `id`, persist, and reply
    /// `Registered`.
    Spawn { id: ProcessId, reg: ProcessRegistration },
    /// Record a process the client already started, persist, and reply
    /// `Registered`.
    Adopt { id: ProcessId, pid: u32, reg: ProcessRegistration },
    /// Reply with the whole table.
    Snapshot,
    /// Reply with a page of stored log lines.
    Logs { process_id: ProcessId, offset: usize, limit: usize },
    /// Reply with a page of stored log lines matching a query.
    Search { process_id: ProcessId, query: String, stream: Option<StreamKind>, offset: usize, limit: usize },
    /// Forward the process's live log lines to this client; no reply.
    Stream(ProcessId),
    /// Nothing to do and no reply.
    Skip,
    /// Restart the process and reply with the status of its successor.
    Restart(ProcessId),
    /// Kill the process and reply that it stopped.
    Kill(ProcessId),
    /// Delete stored lines older than `cutoff` (epoch millis), of one
    /// process or all.
    Prune { cutoff: u64, process_id: Option<ProcessId> },
    /// Reply `Pong`.
    Pong,
}

/// The request a message makes, for a connection that would name a new
/// process `new_id` and reads the clock as `now`.
pub fn plan_request(msg: ClientMessage, new_id: ProcessId, now: u64) -> (r: Request)
    ensures
        match msg {
            ClientMessage::LogLine { process_id, stream, line } =>
                r == (Request::AppendLog { process_id, stream, line, timestamp: now }),
            ClientMessage::ProcessExited { process_id, exit_code } =>
                r == (Request::MarkExited { process_id, status: exit_status_spec(exit_code) }),
            ClientMessage::RegisterProcess(reg) => if reg.pid == 0 {
                r == (Request::Spawn { id: new_id, reg })
            } else {
                r == (Request::Adopt { id: new_id, pid: reg.pid, reg })
            },
            ClientMessage::GetState => r == Request::Snapshot,
            ClientMessage::GetLogs { process_id, offset, limit } =>
                r == (Request::Logs { process_id, offset, limit }),
            ClientMessage::SearchLogs { process_id, query, stream, offset, limit } =>
                r == (Request::Search { process_id, query, stream, offset, limit }),
            ClientMessage::StreamLogs(id) => r == Request::Stream(id),
            ClientMessage::StopStream(_) => r == Request::Skip,
            ClientMessage::RestartProcess(id) => r == Request::Restart(id),
            ClientMessage::KillProcess(id) => r == Request::Kill(id),
            ClientMessage::PruneLogs { older_than_days, process_id } =>
                r == (Request::Prune { cutoff: prune_cutoff_spec(now, older_than_days), process_id }),
            ClientMessage::Ping => r == Request::Pong,
        },
{
    match msg {
        ClientMessage::LogLine { process_id, stream, line } =>
            Request::AppendLog { process_id, stream, line, timestamp: now },
        ClientMessage::ProcessExited { process_id, exit_code } =>
            Request::MarkExited { process_id, status: exit_status(exit_code) },
        ClientMessage::RegisterProcess(reg) => {
            if reg.pid == 0 {
                Request::Spawn { id: new_id, reg }
            } else {
                let pid = reg.pid;
                Request::Adopt { id: new_id, pid, reg }
            }
        },
        ClientMessage::GetState => Request::Snapshot,
        ClientMessage::GetLogs { process_id, offset, limit } => Request::Logs { process_id, offset, limit },
        ClientMessage::SearchLogs { process_id, query, stream, offset, limit } =>
            Request::Search { process_id, query, stream, offset, limit },
        ClientMessage::StreamLogs(id) => Request::Stream(id),
        ClientMessage::StopStream(_) => Request::Skip,
        ClientMessage::RestartProcess(id) => Request::Restart(id),
        ClientMessage::KillProcess(id) => Request::Kill(id),
        ClientMessage::PruneLogs { older_than_days, process_id } =>
            Request::Prune { cutoff: prune_cutoff(now, older_than_days), process_id },
        ClientMessage::Ping => Request::Pong,
    }
}

/// An error reply: `prefix` followed by the error's text.
pub fn error_reply(prefix: &str, e: &str) -> (r: DaemonMessage)
    ensures
        r matches DaemonMessage::Error(s) && s@ == prefix@ + e@,
{
    let mut s = String::new();
    push_str(&mut s, prefix);
    push_str(&mut s, e);
    DaemonMessage::Error(s)
}

/// The reply to a log page request.
pub fn logs_reply(outcome: Result<(Vec<TimestampedLine>, usize), String>) -> (r: DaemonMessage)
    ensures
        match outcome {
            Ok((logs, total)) => r == (DaemonMessage::LogsBatch { logs, total }),
            Err(e) => r matches DaemonMessage::Error(s) && s@ == "db error: "@ + e@,
        },
{
    match outcome {
        Ok((logs, total)) => DaemonMessage::LogsBatch { logs, total },
        Err(e) => error_reply("db error: ", e.as_str()),
    }
}

/// The reply to a search request for `query`.
pub fn search_reply(outcome: Result<(Vec<TimestampedLine>, usize), String>, query: String) -> (r: DaemonMessage)
    ensures
        match outcome {
            Ok((logs, total)) => r == (DaemonMessage::SearchResult { logs, total, query }),
            Err(e) => r matches DaemonMessage::Error(s) && s@ == "search error: "@ + e@,
        },
{
    match outcome {
        Ok((logs, total)) => DaemonMessage::SearchResult { logs, total, query },
        Err(e) => error_reply("search error: ", e.as_str()),
    }
}

/// The reply to a spawn that failed.
pub fn spawn_failed_reply(e: &str) -> (r: DaemonMessage)
    ensures
        r matches DaemonMessage::Error(s) && s@ == "spawn failed: "@ + e@,
{
    error_reply("spawn failed: ", e)
}

/// The reply to a restart: on success, that the most recently started
/// running process of the table now runs; an error if none runs.
pub fn restart_reply(outcome: Result<(), String>, table: &Vec<ManagedProcess>) -> (r: DaemonMessage)
    ensures
        match outcome {
            Ok(()) => match r {
                DaemonMessage::StatusChanged { process_id, status } =>
                    status == ProcessStatus::Running
                        && exists|i: int| is_newest_running(table.deep_view(), i) && table.deep_view()[i].id == process_id,
                DaemonMessage::Error(s) =>
                    s@ == "restart succeeded but no running process found"@
                        && forall|i: int| 0 <= i < table.len() ==> table.deep_view()[i].status != ProcessStatus::Running,
                _ => false,
            },
            Err(e) => r matches DaemonMessage::Error(s) && s@ == "restart failed: "@ + e@,
        },
{
    match outcome {
        Ok(()) => match newest_running(table) {
            Some(id) => DaemonMessage::StatusChanged { process_id: id, status: ProcessStatus::Running },
            None => DaemonMessage::Error(String::from_str("restart succeeded but no running process found")),
        },
        Err(e) => error_reply("restart failed: ", e.as_str()),
    }
}

/// The reply to a kill of process `id`.
pub fn kill_reply(outcome: Result<(), String>, id: ProcessId) -> (r: DaemonMessage)
    ensures
        match outcome {
            Ok(()) => r == (DaemonMessage::StatusChanged { process_id: id, status: ProcessStatus::Stopped }),
            Err(e) => r matches DaemonMessage::Error(s) && s@ == "kill failed: "@ + e@,
        },
{
    match outcome {
        Ok(()) => DaemonMessage::StatusChanged { process_id: id, status: ProcessStatus::Stopped },
        Err(e) => error_reply("kill failed: ", e.as_str()),
    }
}

/// The reply to a prune.
pub fn prune_reply(outcome: Result<usize, String>) -> (r: DaemonMessage)
    ensures
        match outcome {
            Ok(count) => r == (DaemonMessage::LogsPruned { count }),
            Err(e) => r matches DaemonMessage::Error(s) && s@ == "prune failed: "@ + e@,
        },
{
    match outcome {
        Ok(count) => DaemonMessage::LogsPruned { count },
        Err(e) => error_reply("prune failed: ", e.as_str()),
    }
}

} // verus!
