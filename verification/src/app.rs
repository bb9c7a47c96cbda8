//! The dashboard's state and how it answers keys, mouse events, daemon
//! messages and timer ticks. Commands for the daemon are queued in
//! `outbox`; the terminal front end sends them and draws the state.
use vstd::prelude::*;
use crate::protocol::{
    ClientMessage, ClientMessageView, DaemonMessage, LineView, ManagedProcess, ProcessId,
    ProcessStatus, ProcessView, StreamKind, TimestampedLine, copy_lines, copy_ports,
    push_log_line, ring_push,
};
use std::collections::VecDeque;
use crate::vecs::{
    deque_len, deque_new, deque_pop_front, deque_push_back, deque_push_front, vec_insert, vec_pop, vec_push,
    vec_remove, vec_replace,
};
use crate::text::{
    contains_seq, copy_string, dec, push_dec, push_str, seq_lt, str_contains, str_eq, str_lt,
    string_pop, string_push, to_lowercase, u64_to_string, unicode_lowercase, with_number,
};

verus! {

broadcast use vstd::std_specs::hash::group_hash_axioms;

pub const SIDEBAR_DEFAULT: u16 = 42;
pub const SIDEBAR_MIN: u16 = 30;
pub const SIDEBAR_MAX: u16 = 60;
pub const PAGE_SCROLL: usize = 20;
pub const SCROLL_STEP: usize = 3;
pub const TOAST_SECS: u64 = 2;
pub const LOG_PAGE_SIZE: usize = 100;
pub const SEARCH_PAGE_SIZE: usize = 200;
pub const MAX_NOTIFICATIONS: usize = 100;

#[derive(Debug, Clone, Copy, PartialEq, Eq, Structural)]
pub enum NotifKind {
    Crash,
    Restart,
    HealthFail,
    Exit,
    Info,
}

#[derive(Debug, Clone)]
pub struct Notification {
    pub timestamp: u64,
    pub kind: NotifKind,
    pub message: String,
}

pub struct NotificationView {
    pub timestamp: u64,
    pub kind: NotifKind,
    pub message: Seq<char>,
}

impl DeepView for Notification {
    type V = NotificationView;

    open spec fn deep_view(&self) -> NotificationView {
        NotificationView { timestamp: self.timestamp, kind: self.kind, message: self.message@ }
    }
}

/// The keys the dashboard distinguishes.
#[derive(Debug, Clone, Copy, PartialEq, Eq, Structural)]
pub enum KeyCode {
    Esc,
    Enter,
    Backspace,
    Up,
    Down,
    Home,
    End,
    PageUp,
    PageDown,
    F(u8),
    Char(char),
    Other,
}

/// A key press; `ctrl` tells whether Control was held.
#[derive(Debug, Clone, Copy, PartialEq, Eq, Structural)]
pub struct KeyEvent {
    pub code: KeyCode,
    pub ctrl: bool,
}

/// The mouse actions the dashboard distinguishes.
#[derive(Debug, Clone, Copy, PartialEq, Eq, Structural)]
pub enum MouseKind {
    LeftDown,
    LeftDrag,
    Up,
    ScrollDown,
    ScrollUp,
    Other,
}

#[derive(Debug, Clone, Copy, PartialEq, Eq, Structural)]
pub struct MouseEvent {
    pub kind: MouseKind,
    pub column: u16,
    pub row: u16,
}

pub struct App {
    pub processes: Vec<ManagedProcess>,
    pub selected_index: usize,
    pub log_lines: VecDeque<TimestampedLine>,
    pub log_scroll_offset: usize,
    pub log_total_lines: usize,
    pub list_scroll_offset: usize,
    pub should_quit: bool,
    /// Commands waiting to be sent to the daemon, oldest first.
    pub outbox: Vec<ClientMessage>,
    pub daemon_uptime_secs: u64,
    /// Monotonic clock reading (millis) at the last tick.
    pub last_tick_ms: u64,
    pub io_bytes_cache: std::collections::HashMap<ProcessId, u64>,
    pub detail_mode: bool,
    pub search_active: bool,
    pub search_query: String,
    pub search_results: Vec<(usize, TimestampedLine)>,
    pub search_idx: usize,
    pub filter_stream: Option<StreamKind>,
    pub all_tags: Vec<String>,
    pub filtered_tag: Option<String>,
    pub tag_filter_mode: bool,
    pub sidebar_width: u16,
    pub resize_dragging: bool,
    /// Message and the monotonic clock reading (millis) when it was shown.
    pub toast: Option<(String, u64)>,
    pub confirm_kill: Option<ProcessId>,
    pub collapsed_groups: Vec<ProcessStatus>,
    pub log_follow_mode: bool,
    pub readonly: bool,
    pub proc_search_active: bool,
    pub proc_search_query: String,
    pub notifications: VecDeque<Notification>,
    pub notif_mode: bool,
    pub process_order: Vec<usize>,
}

#[verifier::ext_equal]
pub struct AppView {
    pub processes: Seq<ProcessView>,
    pub selected_index: usize,
    pub log_lines: Seq<LineView>,
    pub log_scroll_offset: usize,
    pub log_total_lines: usize,
    pub list_scroll_offset: usize,
    pub should_quit: bool,
    pub outbox: Seq<ClientMessageView>,
    pub daemon_uptime_secs: u64,
    pub last_tick_ms: u64,
    pub io_bytes_cache: Map<ProcessId, u64>,
    pub detail_mode: bool,
    pub search_active: bool,
    pub search_query: Seq<char>,
    pub search_results: Seq<(usize, LineView)>,
    pub search_idx: usize,
    pub filter_stream: Option<StreamKind>,
    pub all_tags: Seq<Seq<char>>,
    pub filtered_tag: Option<Seq<char>>,
    pub tag_filter_mode: bool,
    pub sidebar_width: u16,
    pub resize_dragging: bool,
    pub toast: Option<(Seq<char>, u64)>,
    pub confirm_kill: Option<ProcessId>,
    pub collapsed_groups: Seq<ProcessStatus>,
    pub log_follow_mode: bool,
    pub readonly: bool,
    pub proc_search_active: bool,
    pub proc_search_query: Seq<char>,
    pub notifications: Seq<NotificationView>,
    pub notif_mode: bool,
    pub process_order: Seq<usize>,
}

impl DeepView for App {
    type V = AppView;

    open spec fn deep_view(&self) -> AppView {
        AppView {
            processes: self.processes.deep_view(),
            selected_index: self.selected_index,
            log_lines: self.log_lines.deep_view(),
            log_scroll_offset: self.log_scroll_offset,
            log_total_lines: self.log_total_lines,
            list_scroll_offset: self.list_scroll_offset,
            should_quit: self.should_quit,
            outbox: self.outbox.deep_view(),
            daemon_uptime_secs: self.daemon_uptime_secs,
            last_tick_ms: self.last_tick_ms,
            io_bytes_cache: self.io_bytes_cache@,
            detail_mode: self.detail_mode,
            search_active: self.search_active,
            search_query: self.search_query@,
            search_results: self.search_results.deep_view(),
            search_idx: self.search_idx,
            filter_stream: self.filter_stream,
            all_tags: self.all_tags.deep_view(),
            filtered_tag: self.filtered_tag.deep_view(),
            tag_filter_mode: self.tag_filter_mode,
            sidebar_width: self.sidebar_width,
            resize_dragging: self.resize_dragging,
            toast: match self.toast {
                Some((m, t)) => Some((m@, t)),
                None => None,
            },
            confirm_kill: self.confirm_kill,
            collapsed_groups: self.collapsed_groups@,
            log_follow_mode: self.log_follow_mode,
            readonly: self.readonly,
            proc_search_active: self.proc_search_active,
            proc_search_query: self.proc_search_query@,
            notifications: self.notifications.deep_view(),
            notif_mode: self.notif_mode,
            process_order: self.process_order@,
        }
    }
}

// ── Shared pieces of the transition rules ──────────────────────────

/// The selected process, if the selection points at one.
pub open spec fn selected(a: AppView) -> Option<ProcessView> {
    if a.selected_index < a.processes.len() {
        Some(a.processes[a.selected_index as int])
    } else {
        None
    }
}

/// A process's display name: the first word of its command, or "".
pub open spec fn display_name(p: ProcessView) -> Seq<char> {
    if p.command.len() > 0 { p.command[0] } else { seq![] }
}

pub open spec fn send(a: AppView, m: ClientMessageView) -> AppView {
    AppView { outbox: a.outbox.push(m), ..a }
}

pub open spec fn show_toast(a: AppView, msg: Seq<char>, now: u64) -> AppView {
    AppView { toast: Some((msg, now)), ..a }
}

/// What changing the selection resets: scrolling, search hits, and the
/// log pane, which shows the newly selected process's buffered lines.
pub open spec fn selection_changed(a: AppView) -> AppView {
    AppView {
        log_scroll_offset: 0,
        log_lines: match selected(a) {
            Some(p) => p.log_lines,
            None => seq![],
        },
        log_total_lines: 0,
        search_results: seq![],
        search_idx: 0,
        log_follow_mode: true,
        ..a
    }
}

/// Asking the daemon to search the selected process's logs.
pub open spec fn execute_search(a: AppView) -> AppView {
    if a.search_query.len() == 0 {
        a
    } else {
        match selected(a) {
            Some(p) => send(
                AppView { search_results: seq![], search_idx: 0, ..a },
                ClientMessageView::SearchLogs {
                    process_id: p.id,
                    query: a.search_query,
                    stream: a.filter_stream,
                    offset: 0,
                    limit: SEARCH_PAGE_SIZE,
                },
            ),
            None => a,
        }
    }
}

pub open spec fn pop_char(s: Seq<char>) -> Seq<char> {
    if s.len() == 0 { s } else { s.drop_last() }
}

pub open spec fn swap_at(s: Seq<usize>, i: int, j: int) -> Seq<usize> {
    s.update(i, s[j]).update(j, s[i])
}

pub open spec fn sat_add(x: usize, y: usize) -> usize {
    if x + y > usize::MAX { usize::MAX } else { (x + y) as usize }
}

pub open spec fn sat_sub(x: usize, y: usize) -> usize {
    if x < y { 0 } else { (x - y) as usize }
}

pub open spec fn is_char(k: KeyEvent, c: char) -> bool {
    k.code == KeyCode::Char(c)
}

// ── Tag list ───────────────────────────────────────────────────────

/// `t` inserted into the sorted list `v` unless already there.
pub open spec fn insert_sorted(v: Seq<Seq<char>>, t: Seq<char>) -> Seq<Seq<char>>
    decreases v.len(),
{
    if v.len() == 0 {
        seq![t]
    } else if v[0] == t {
        v
    } else if seq_lt(t, v[0]) {
        seq![t] + v
    } else {
        seq![v[0]] + insert_sorted(v.drop_first(), t)
    }
}

/// All tags of the given processes, in the order they are met.
pub open spec fn tags_in_order(ps: Seq<ProcessView>) -> Seq<Seq<char>>
    decreases ps.len(),
{
    if ps.len() == 0 { seq![] } else { tags_in_order(ps.drop_last()) + ps.last().tags }
}

/// The sorted list of distinct tags built from `ts`.
pub open spec fn sorted_tag_list(ts: Seq<Seq<char>>) -> Seq<Seq<char>>
    decreases ts.len(),
{
    if ts.len() == 0 { seq![] } else { insert_sorted(sorted_tag_list(ts.drop_last()), ts.last()) }
}

// ── Key handling ───────────────────────────────────────────────────

pub open spec fn detail_key_step(a: AppView, k: KeyEvent) -> AppView {
    if k.code == KeyCode::Esc || is_char(k, 'i') { AppView { detail_mode: false, ..a } } else { a }
}

/// The process with identity `id` that comes first in `ps`.
pub open spec fn is_first_id(ps: Seq<ProcessView>, id: ProcessId, i: int) -> bool {
    0 <= i < ps.len() && ps[i].id == id && forall|j: int| 0 <= j < i ==> ps[j].id != id
}

pub open spec fn first_id_index(ps: Seq<ProcessView>, id: ProcessId) -> Option<int> {
    if exists|i: int| is_first_id(ps, id, i) {
        Some(choose|i: int| is_first_id(ps, id, i))
    } else {
        None
    }
}

pub open spec fn confirm_kill_step(a: AppView, k: KeyEvent, now: u64) -> AppView {
    match a.confirm_kill {
        Some(id) => {
            let b = AppView { confirm_kill: None, ..a };
            if is_char(k, 'y') || is_char(k, 'Y') {
                let c = send(b, ClientMessageView::KillProcess(id));
                match first_id_index(a.processes, id) {
                    Some(i) => show_toast(c, "Killed PID "@ + dec(a.processes[i].pid as nat), now),
                    None => c,
                }
            } else {
                show_toast(b, "Kill cancelled"@, now)
            }
        },
        None => a,
    }
}

pub open spec fn is_digit(c: char) -> bool {
    '0' <= c && c <= '9'
}

pub open spec fn tag_filter_key_step(a: AppView, k: KeyEvent) -> AppView {
    match k.code {
        KeyCode::Esc => AppView { tag_filter_mode: false, filtered_tag: None, ..a },
        KeyCode::Char(c) => if is_digit(c) {
            let idx = (c as u32 - 48) as int;
            let b = if idx == 0 {
                AppView { filtered_tag: None, ..a }
            } else if idx - 1 < a.all_tags.len() {
                AppView { filtered_tag: Some(a.all_tags[idx - 1]), ..a }
            } else {
                a
            };
            AppView { tag_filter_mode: false, ..b }
        } else {
            a
        },
        _ => a,
    }
}

pub open spec fn is_global_quit(k: KeyEvent) -> bool {
    k.ctrl && (is_char(k, 'c') || is_char(k, 'q'))
}

pub open spec fn esc_step(a: AppView) -> AppView {
    if a.notif_mode {
        AppView { notif_mode: false, ..a }
    } else if a.search_active {
        AppView { search_active: false, search_query: seq![], ..a }
    } else {
        AppView { should_quit: true, ..a }
    }
}

pub open spec fn toggle_filter(f: Option<StreamKind>, s: StreamKind) -> Option<StreamKind> {
    if f == Some(s) { None } else { Some(s) }
}

pub open spec fn up_step(a: AppView, ctrl: bool) -> AppView {
    let sel = a.selected_index;
    if ctrl {
        if sel > 0 && a.process_order.len() == a.processes.len() {
            AppView {
                process_order: swap_at(a.process_order, sel as int, sel - 1),
                selected_index: (sel - 1) as usize,
                ..a
            }
        } else {
            a
        }
    } else if sel > 0 {
        selection_changed(AppView { selected_index: (sel - 1) as usize, ..a })
    } else {
        a
    }
}

pub open spec fn down_step(a: AppView, ctrl: bool) -> AppView {
    let sel = a.selected_index;
    if ctrl {
        if sel + 1 < a.processes.len() && a.process_order.len() == a.processes.len() {
            AppView {
                process_order: swap_at(a.process_order, sel as int, sel + 1),
                selected_index: (sel + 1) as usize,
                ..a
            }
        } else {
            a
        }
    } else if sel + 1 < a.processes.len() {
        selection_changed(AppView { selected_index: (sel + 1) as usize, ..a })
    } else {
        a
    }
}

/// Keys that edit the log search line (or leave it, or quit).
pub open spec fn is_edit_key(a: AppView, k: KeyEvent) -> bool {
    let code = k.code;
    code == KeyCode::Esc || (code == KeyCode::Enter && a.search_active)
        || (is_char(k, '/') && !a.search_active) || (code is Char && a.search_active)
        || (code == KeyCode::Backspace && a.search_active)
}

pub open spec fn edit_key_step(a: AppView, k: KeyEvent) -> AppView {
    let code = k.code;
    if code == KeyCode::Esc {
        esc_step(a)
    } else if code == KeyCode::Enter && a.search_active {
        execute_search(a)
    } else if is_char(k, '/') && !a.search_active {
        AppView { search_active: true, search_query: seq![], ..a }
    } else if code is Char && a.search_active {
        AppView { search_query: a.search_query.push(code->Char_0), ..a }
    } else {
        AppView { search_query: pop_char(a.search_query), ..a }
    }
}

/// F1 and F2 toggle the stream filter, F3 toggles following the log.
pub open spec fn is_function_key(k: KeyEvent) -> bool {
    k.code == KeyCode::F(1) || k.code == KeyCode::F(2) || k.code == KeyCode::F(3)
}

pub open spec fn function_key_step(a: AppView, k: KeyEvent) -> AppView {
    if k.code == KeyCode::F(1) {
        let b = AppView { filter_stream: toggle_filter(a.filter_stream, StreamKind::Stdout), ..a };
        if a.search_active { execute_search(b) } else { b }
    } else if k.code == KeyCode::F(2) {
        let b = AppView { filter_stream: toggle_filter(a.filter_stream, StreamKind::Stderr), ..a };
        if a.search_active { execute_search(b) } else { b }
    } else {
        AppView { log_follow_mode: !a.log_follow_mode, ..a }
    }
}

/// Keys that move the selection, scroll the log, or open the detail card.
pub open spec fn is_nav_key(k: KeyEvent) -> bool {
    let code = k.code;
    code == KeyCode::Up || is_char(k, 'k') || code == KeyCode::Down || is_char(k, 'j')
        || code == KeyCode::Home || is_char(k, 'g') || code == KeyCode::End || is_char(k, 'G')
        || code == KeyCode::PageUp || code == KeyCode::PageDown || code == KeyCode::Enter
        || is_char(k, 'i')
}

pub open spec fn nav_key_step(a: AppView, k: KeyEvent) -> AppView {
    let code = k.code;
    if code == KeyCode::Up || is_char(k, 'k') {
        up_step(a, k.ctrl)
    } else if code == KeyCode::Down || is_char(k, 'j') {
        down_step(a, k.ctrl)
    } else if code == KeyCode::Home || is_char(k, 'g') {
        selection_changed(AppView { selected_index: 0, ..a })
    } else if code == KeyCode::End || is_char(k, 'G') {
        if a.processes.len() > 0 {
            selection_changed(AppView { selected_index: (a.processes.len() - 1) as usize, ..a })
        } else {
            a
        }
    } else if code == KeyCode::PageUp {
        AppView { log_scroll_offset: sat_add(a.log_scroll_offset, PAGE_SCROLL), ..a }
    } else if code == KeyCode::PageDown {
        AppView { log_scroll_offset: sat_sub(a.log_scroll_offset, PAGE_SCROLL), ..a }
    } else if a.processes.len() > 0 {
        AppView { detail_mode: true, ..a }
    } else {
        a
    }
}

/// Keys that act on the selected process: restart, kill with
/// confirmation, kill at once. None of them works in read-only mode.
pub open spec fn is_action_key(a: AppView, k: KeyEvent) -> bool {
    is_char(k, 'r') || is_char(k, 'x') || (k.code == KeyCode::Backspace && !a.proc_search_active)
}

pub open spec fn action_key_step(a: AppView, k: KeyEvent, now: u64) -> AppView {
    if a.readonly {
        a
    } else {
        match selected(a) {
            Some(p) => if is_char(k, 'r') {
                show_toast(
                    send(a, ClientMessageView::RestartProcess(p.id)),
                    "Restarting PID "@ + dec(p.pid as nat),
                    now,
                )
            } else if is_char(k, 'x') {
                show_toast(
                    AppView { confirm_kill: Some(p.id), ..a },
                    "Kill PID "@ + dec(p.pid as nat) + "? [y/N]"@,
                    now,
                )
            } else {
                show_toast(
                    send(a, ClientMessageView::KillProcess(p.id)),
                    "Killing PID "@ + dec(p.pid as nat),
                    now,
                )
            },
            None => a,
        }
    }
}

/// The remaining keys: tag picker, process search, older logs, and the
/// notification panel.
pub open spec fn other_key_step(a: AppView, k: KeyEvent) -> AppView {
    let code = k.code;
    if is_char(k, 't') && !a.search_active {
        if a.tag_filter_mode {
            AppView { tag_filter_mode: false, ..a }
        } else {
            AppView {
                tag_filter_mode: true,
                all_tags: sorted_tag_list(tags_in_order(a.processes)),
                ..a
            }
        }
    } else if is_char(k, 'f') && !a.search_active {
        if a.proc_search_active {
            AppView { proc_search_active: false, proc_search_query: seq![], ..a }
        } else {
            AppView { proc_search_active: true, ..a }
        }
    } else if code is Char && a.proc_search_active {
        AppView { proc_search_query: a.proc_search_query.push(code->Char_0), ..a }
    } else if code == KeyCode::Backspace && a.proc_search_active {
        let q = pop_char(a.proc_search_query);
        AppView { proc_search_query: q, proc_search_active: q.len() != 0, ..a }
    } else if is_char(k, 'R') {
        match selected(a) {
            Some(p) => send(
                a,
                ClientMessageView::GetLogs {
                    process_id: p.id,
                    offset: (a.log_lines.len() + a.log_scroll_offset) as usize,
                    limit: LOG_PAGE_SIZE,
                },
            ),
            None => a,
        }
    } else if is_char(k, 'N') && !a.search_active {
        AppView { notif_mode: !a.notif_mode, ..a }
    } else {
        a
    }
}

/// The dashboard's answer to a key in its normal mode (no overlay, no
/// pending confirmation, no tag picker). The groups are tried in order.
pub open spec fn normal_key_step(a: AppView, k: KeyEvent, now: u64) -> AppView {
    if is_edit_key(a, k) {
        edit_key_step(a, k)
    } else if is_function_key(k) {
        function_key_step(a, k)
    } else if is_nav_key(k) {
        nav_key_step(a, k)
    } else if is_action_key(a, k) {
        action_key_step(a, k, now)
    } else {
        other_key_step(a, k)
    }
}

/// The dashboard's answer to any key.
pub open spec fn key_step(a: AppView, k: KeyEvent, now: u64) -> AppView {
    if a.detail_mode {
        detail_key_step(a, k)
    } else if a.confirm_kill is Some {
        confirm_kill_step(a, k, now)
    } else if a.tag_filter_mode {
        tag_filter_key_step(a, k)
    } else if is_global_quit(k) {
        AppView { should_quit: true, ..a }
    } else {
        normal_key_step(a, k, now)
    }
}

/// The keys on which the dashboard's key handling would fail: reordering
/// upward with the selection past the end of the list, moving down from
/// the largest index, or asking for older logs when the page offset would
/// not fit in a `usize`.
pub open spec fn key_fails(a: AppView, k: KeyEvent) -> bool {
    &&& !a.detail_mode
    &&& a.confirm_kill is None
    &&& !a.tag_filter_mode
    &&& !is_global_quit(k)
    &&& !is_edit_key(a, k)
    &&& !is_function_key(k)
    &&& {
        let code = k.code;
        ||| (code == KeyCode::Up || is_char(k, 'k')) && k.ctrl && a.selected_index > 0
            && a.process_order.len() == a.processes.len()
            && a.selected_index >= a.processes.len()
        ||| (code == KeyCode::Down || is_char(k, 'j')) && a.selected_index == usize::MAX
        ||| !is_nav_key(k) && !is_action_key(a, k) && is_char(k, 'R') && !a.proc_search_active
            && selected(a) is Some && a.log_lines.len() + a.log_scroll_offset > usize::MAX
    }
}

// ── Daemon messages ────────────────────────────────────────────────

/// `keep_last(s, n)`: the last `n` elements of `s` (all of them if fewer).
pub open spec fn keep_last<T>(s: Seq<T>, n: nat) -> Seq<T> {
    if s.len() > n { s.subrange(s.len() - n, s.len() as int) } else { s }
}

/// A notification appended to the panel, which keeps the newest
/// `MAX_NOTIFICATIONS`.
pub open spec fn push_notification(a: AppView, kind: NotifKind, msg: Seq<char>, now: u64) -> AppView {
    AppView {
        notifications: keep_last(
            a.notifications.push(NotificationView { timestamp: now, kind: kind, message: msg }),
            MAX_NOTIFICATIONS as nat,
        ),
        ..a
    }
}

/// The cache of first-seen I/O counters after a snapshot: each process
/// with a nonzero counter whose identity is not cached yet adds it.
pub open spec fn cache_fill(m: Map<ProcessId, u64>, ps: Seq<ProcessView>) -> Map<ProcessId, u64>
    decreases ps.len(),
{
    if ps.len() == 0 {
        m
    } else {
        let m1 = cache_fill(m, ps.drop_last());
        let p = ps.last();
        if p.io_bytes > 0 && !m1.contains_key(p.id) { m1.insert(p.id, p.io_bytes) } else { m1 }
    }
}

/// `{:?}` of a status.
pub open spec fn status_name(s: ProcessStatus) -> Seq<char> {
    match s {
        ProcessStatus::Running => "Running"@,
        ProcessStatus::Sleeping => "Sleeping"@,
        ProcessStatus::Crashed => "Crashed"@,
        ProcessStatus::Stopped => "Stopped"@,
    }
}

/// The kind of notification a status change raises.
pub open spec fn change_kind(old: ProcessStatus, new: ProcessStatus) -> NotifKind {
    if new == ProcessStatus::Crashed {
        NotifKind::Crash
    } else if old == ProcessStatus::Running && new == ProcessStatus::Stopped {
        NotifKind::Exit
    } else {
        NotifKind::Info
    }
}

/// Whether a log line reads like a failure worth a notification.
pub open spec fn is_alarming(line: Seq<char>) -> bool {
    contains_seq(line, "ERROR"@) || contains_seq(line, "FATAL"@) || contains_seq(line, "panic"@)
}

/// The name of the first process with identity `id`, or "".
pub open spec fn name_of(ps: Seq<ProcessView>, id: ProcessId) -> Seq<char> {
    match first_id_index(ps, id) {
        Some(i) => display_name(ps[i]),
        None => seq![],
    }
}

pub open spec fn snapshot_step(a: AppView, ps: Seq<ProcessView>) -> AppView {
    let order = if a.process_order.len() != ps.len() || a.process_order.len() == 0 {
        Seq::new(ps.len(), |i: int| i as usize)
    } else {
        a.process_order
    };
    let b = AppView {
        processes: ps,
        process_order: order,
        io_bytes_cache: cache_fill(a.io_bytes_cache, ps),
        ..a
    };
    if a.selected_index < ps.len() && a.log_lines.len() == 0 {
        AppView { log_lines: ps[a.selected_index as int].log_lines, ..b }
    } else {
        b
    }
}

pub open spec fn log_event_step(a: AppView, id: ProcessId, line: Seq<char>, timestamp: u64, now: u64) -> AppView {
    let lv = LineView { timestamp: timestamp, line: line };
    let b = match first_id_index(a.processes, id) {
        Some(i) => AppView {
            processes: a.processes.update(
                i,
                ProcessView { log_lines: ring_push(a.processes[i].log_lines, lv), ..a.processes[i] },
            ),
            ..a
        },
        None => a,
    };
    let c = if selected(b) is Some && selected(b)->0.id == id {
        AppView { log_lines: b.log_lines.push(lv), log_scroll_offset: 0, ..b }
    } else {
        b
    };
    if is_alarming(line) {
        push_notification(c, NotifKind::Info, name_of(c.processes, id) + ": "@ + line, now)
    } else {
        c
    }
}

pub open spec fn status_step(a: AppView, id: ProcessId, status: ProcessStatus, now: u64) -> AppView {
    match first_id_index(a.processes, id) {
        Some(i) => {
            let p = a.processes[i];
            let b = AppView { processes: a.processes.update(i, ProcessView { status: status, ..p }), ..a };
            push_notification(
                b,
                change_kind(p.status, status),
                display_name(p) + ": "@ + status_name(p.status) + " → "@ + status_name(status),
                now,
            )
        },
        None => a,
    }
}

pub open spec fn telemetry_step(a: AppView, id: ProcessId, ports: Seq<u16>, cpu_percent_bits: u32, memory_bytes: u64, io_bytes: u64) -> AppView {
    match first_id_index(a.processes, id) {
        Some(i) => AppView {
            processes: a.processes.update(
                i,
                ProcessView {
                    cpu_percent_bits: cpu_percent_bits,
                    memory_bytes: memory_bytes,
                    ports: ports,
                    io_bytes: io_bytes,
                    ..a.processes[i]
                },
            ),
            io_bytes_cache: a.io_bytes_cache.insert(id, io_bytes),
            ..a
        },
        None => a,
    }
}

/// The dashboard's answer to a daemon message; `now` is the wall clock in
/// epoch millis, stamped on any notification it raises.
pub open spec fn daemon_msg_step(a: AppView, msg: DaemonMessage, now: u64) -> AppView {
    match msg {
        DaemonMessage::StateSnapshot(snap) => snapshot_step(a, snap.processes.deep_view()),
        DaemonMessage::LogEvent { process_id, line, timestamp, .. } =>
            log_event_step(a, process_id, line@, timestamp, now),
        DaemonMessage::LogsBatch { logs, total } =>
            AppView { log_lines: logs.deep_view() + a.log_lines, log_total_lines: total, ..a },
        DaemonMessage::SearchResult { logs, .. } => AppView {
            search_results: Seq::new(logs@.len(), |i: int| (i as usize, logs@[i].deep_view())),
            search_idx: 0,
            ..a
        },
        DaemonMessage::StatusChanged { process_id, status } => status_step(a, process_id, status, now),
        DaemonMessage::HealthStatus { process_id, healthy, failures } =>
            if !healthy && first_id_index(a.processes, process_id) is Some {
                push_notification(
                    a,
                    NotifKind::HealthFail,
                    name_of(a.processes, process_id) + ": health check failed ("@ + dec(failures as nat) + ")"@,
                    now,
                )
            } else {
                a
            },
        DaemonMessage::TelemetryUpdate { process_id, telemetry } => telemetry_step(
            a,
            process_id,
            telemetry.ports@,
            telemetry.cpu_percent_bits,
            telemetry.memory_bytes,
            telemetry.io_bytes,
        ),
        _ => a,
    }
}

// ── Mouse, ticks, and what the panes show ──────────────────────────

pub open spec fn clamp_u16(x: u16, lo: u16, hi: u16) -> u16 {
    if x < lo { lo } else if x > hi { hi } else { x }
}

/// The dashboard's answer to a mouse event: the sidebar border (within one
/// column) starts a resize drag, a click in the sidebar selects the process
/// drawn in that three-row slot, and the wheel scrolls the log.
/// A terminal coordinate read as a signed 16-bit number (`as i16`).
pub open spec fn as_i16(x: u16) -> int {
    if x <= 32767 { x as int } else { x as int - 65536 }
}

pub open spec fn mouse_step(a: AppView, me: MouseEvent) -> AppView {
    if a.detail_mode {
        a
    } else {
        match me.kind {
            MouseKind::LeftDown => {
                let col = as_i16(me.column);
                let row = as_i16(me.row);
                let border = as_i16(a.sidebar_width);
                if -1 <= col - border <= 1 {
                    AppView { resize_dragging: true, ..a }
                } else if col < border && row >= 1 {
                    let idx = (row - 1) / 3;
                    if idx < a.processes.len() {
                        selection_changed(AppView { selected_index: idx as usize, ..a })
                    } else {
                        a
                    }
                } else {
                    a
                }
            },
            MouseKind::LeftDrag => if a.resize_dragging {
                AppView { sidebar_width: clamp_u16(me.column, SIDEBAR_MIN, SIDEBAR_MAX), ..a }
            } else {
                a
            },
            MouseKind::Up => AppView { resize_dragging: false, ..a },
            MouseKind::ScrollDown => AppView { log_scroll_offset: sat_add(a.log_scroll_offset, SCROLL_STEP), ..a },
            MouseKind::ScrollUp => AppView { log_scroll_offset: sat_sub(a.log_scroll_offset, SCROLL_STEP), ..a },
            MouseKind::Other => a,
        }
    }
}

/// The clicks the dashboard's mouse handling would fail on: the distance
/// between the click's column and the sidebar border, in 16-bit signed
/// arithmetic, overflows or has no absolute value.
pub open spec fn mouse_fails(a: AppView, me: MouseEvent) -> bool {
    !a.detail_mode && me.kind == MouseKind::LeftDown && {
        let d = as_i16(me.column) - as_i16(a.sidebar_width);
        d < -32767 || d > 32767
    }
}

pub open spec fn elapsed_secs(now: u64, then: u64) -> u64 {
    if now < then { 0 } else { ((now - then) / 1000) as u64 }
}

/// Each running process's uptime recomputed from the wall clock.
pub open spec fn refresh_uptimes(ps: Seq<ProcessView>, epoch_now: u64) -> Seq<ProcessView> {
    Seq::new(ps.len(), |i: int| if ps[i].status == ProcessStatus::Running {
        ProcessView { uptime_secs: ((epoch_now - ps[i].started_at) / 1000) as u64, ..ps[i] }
    } else {
        ps[i]
    })
}

/// The dashboard's periodic update: the daemon uptime advances by the
/// whole seconds since the last tick, a toast older than two seconds goes,
/// running processes' uptimes are refreshed, and a state request is queued.
/// `now` is the monotonic clock and `epoch_now` the wall clock, in millis.
pub open spec fn tick_step(a: AppView, now: u64, epoch_now: u64) -> AppView {
    let b = AppView {
        daemon_uptime_secs: (a.daemon_uptime_secs + elapsed_secs(now, a.last_tick_ms)) as u64,
        last_tick_ms: now,
        ..a
    };
    let c = match b.toast {
        Some((_, t)) => if elapsed_secs(now, t) > TOAST_SECS { AppView { toast: None, ..b } } else { b },
        None => b,
    };
    send(AppView { processes: refresh_uptimes(c.processes, epoch_now), ..c }, ClientMessageView::GetState)
}

/// The inputs on which a tick would fail: the daemon uptime would not fit
/// in a `u64`, or a running process started after `epoch_now`.
pub open spec fn tick_fails(a: AppView, now: u64, epoch_now: u64) -> bool {
    a.daemon_uptime_secs + elapsed_secs(now, a.last_tick_ms) > u64::MAX
        || exists|i: int| 0 <= i < a.processes.len() && a.processes[i].status == ProcessStatus::Running
            && a.processes[i].started_at > epoch_now
}

/// The positions `i` of `ps` (ascending) whose process satisfies `f`.
pub open spec fn indices_where(ps: Seq<ProcessView>, f: spec_fn(ProcessView) -> bool) -> Seq<usize>
    decreases ps.len(),
{
    if ps.len() == 0 {
        seq![]
    } else {
        let r = indices_where(ps.drop_last(), f);
        if f(ps.last()) { r.push((ps.len() - 1) as usize) } else { r }
    }
}

pub open spec fn has_tag(p: ProcessView, tag: Option<Seq<char>>) -> bool {
    match tag {
        Some(t) => p.tags.contains(t),
        None => true,
    }
}

/// Whether a process matches the sidebar search: its name, its PID, or one
/// of its tags contains the lower-cased query (names and tags lower-cased).
pub open spec fn matches_query(p: ProcessView, query: Seq<char>) -> bool {
    let q = unicode_lowercase(query);
    if q.len() == 0 {
        true
    } else {
        (p.command.len() > 0 && contains_seq(unicode_lowercase(p.command[0]), q))
            || contains_seq(dec(p.pid as nat), q)
            || exists|j: int| 0 <= j < p.tags.len() && contains_seq(unicode_lowercase(p.tags[j]), q)
    }
}

/// The positions `indices_where` picks are strictly increasing and lie
/// within the list.
pub proof fn lemma_indices_where_increasing(ps: Seq<ProcessView>, f: spec_fn(ProcessView) -> bool)
    requires
        ps.len() <= usize::MAX,
    ensures
        forall|k: int| 0 <= k < indices_where(ps, f).len() ==> (#[trigger] indices_where(ps, f)[k]) < ps.len(),
        forall|a: int, b: int| 0 <= a < b < indices_where(ps, f).len()
            ==> indices_where(ps, f)[a] < indices_where(ps, f)[b],
    decreases ps.len(),
{
    if ps.len() > 0 {
        let r0 = indices_where(ps.drop_last(), f);
        lemma_indices_where_increasing(ps.drop_last(), f);
        let r = indices_where(ps, f);
        if f(ps.last()) {
            assert(r == r0.push((ps.len() - 1) as usize));
            assert forall|k: int| 0 <= k < r.len() implies (#[trigger] r[k]) < ps.len() by {
                if k < r0.len() {
                    assert(r[k] == r0[k]);
                }
            }
            assert forall|a: int, b: int| 0 <= a < b < r.len() implies r[a] < r[b] by {
                assert(r[a] == r0[a]);
                if b < r0.len() {
                    assert(r[b] == r0[b]);
                }
            }
        } else {
            assert(r == r0);
        }
    }
}

// ── Executable transitions ─────────────────────────────────────────

proof fn lemma_insert_sorted_skip(v: Seq<Seq<char>>, t: Seq<char>, i: int)
    requires
        0 <= i <= v.len(),
        forall|j: int| 0 <= j < i ==> v[j] != t && !seq_lt(t, v[j]),
    ensures
        insert_sorted(v, t) == v.take(i) + insert_sorted(v.skip(i), t),
    decreases i,
{
    if i == 0 {
        assert(v.take(0) + v.skip(0) =~= v);
        assert(v.skip(0) =~= v);
        assert(v.take(0) + insert_sorted(v.skip(0), t) =~= insert_sorted(v, t));
    } else {
        let w = v.drop_first();
        assert forall|j: int| 0 <= j < i - 1 implies w[j] != t && !seq_lt(t, w[j]) by {
            assert(w[j] == v[j + 1]);
        }
        lemma_insert_sorted_skip(w, t, i - 1);
        assert(w.skip(i - 1) =~= v.skip(i));
        assert(v.take(i) =~= seq![v[0]] + w.take(i - 1));
        assert(insert_sorted(v, t) == seq![v[0]] + insert_sorted(w, t));
        assert(seq![v[0]] + (w.take(i - 1) + insert_sorted(v.skip(i), t)) =~= v.take(i) + insert_sorted(v.skip(i), t));
    }
}

/// Inserts `t` into the sorted tag list `v` unless it is already there.
fn insert_tag(v: &mut Vec<String>, t: &String)
    ensures
        final(v).deep_view() == insert_sorted(old(v).deep_view(), t@),
{
    let ghost v0 = v.deep_view();
    let mut i: usize = 0;
    while i < v.len()
        invariant
            v0 == old(v).deep_view(),
            v.deep_view() == v0,
            i <= v.len(),
            forall|j: int| 0 <= j < i ==> v0[j] != t@ && !seq_lt(t@, v0[j]),
        decreases v.len() - i,
    {
        if str_eq(v[i].as_str(), t.as_str()) {
            proof {
                lemma_insert_sorted_skip(v0, t@, i as int);
                assert(v0.skip(i as int)[0] == t@);
                assert(insert_sorted(v0.skip(i as int), t@) == v0.skip(i as int));
                assert(v0.take(i as int) + v0.skip(i as int) =~= v0);
            }
            return;
        }
        if str_lt(t.as_str(), v[i].as_str()) {
            proof {
                lemma_insert_sorted_skip(v0, t@, i as int);
                assert(v0.skip(i as int)[0] == v0[i as int]);
                assert(v0[i as int] != t@);
                assert(insert_sorted(v0.skip(i as int), t@) == seq![t@] + v0.skip(i as int));
            }
            v.insert(i, copy_string(t));
            assert(v.deep_view() =~= v0.take(i as int) + (seq![t@] + v0.skip(i as int)));
            return;
        }
        i = i + 1;
    }
    proof {
        lemma_insert_sorted_skip(v0, t@, i as int);
        assert(v0.skip(i as int) =~= seq![]);
        assert(v0.take(i as int) =~= v0);
    }
    v.push(copy_string(t));
    assert(v.deep_view() =~= v0 + seq![t@]);
}

/// The sorted list of distinct tags of `ps`.
fn collect_tags(ps: &Vec<ManagedProcess>) -> (r: Vec<String>)
    ensures
        r.deep_view() == sorted_tag_list(tags_in_order(ps.deep_view())),
{
    let ghost pv = ps.deep_view();
    let mut r: Vec<String> = Vec::new();
    let mut i: usize = 0;
    while i < ps.len()
        invariant
            pv == ps.deep_view(),
            i <= ps.len(),
            r.deep_view() == sorted_tag_list(tags_in_order(pv.take(i as int))),
        decreases ps.len() - i,
    {
        let ghost base = tags_in_order(pv.take(i as int));
        let tags = &ps[i].tags;
        let mut j: usize = 0;
        while j < tags.len()
            invariant
                pv == ps.deep_view(),
                i < ps.len(),
                tags.deep_view() == pv[i as int].tags,
                j <= tags.len(),
                r.deep_view() == sorted_tag_list(base + tags.deep_view().take(j as int)),
            decreases tags.len() - j,
        {
            let ghost prev = base + tags.deep_view().take(j as int);
            insert_tag(&mut r, &tags[j]);
            proof {
                let next = base + tags.deep_view().take(j + 1);
                assert(next.drop_last() =~= prev);
                assert(next.last() == tags.deep_view()[j as int]);
            }
            j = j + 1;
        }
        proof {
            assert(tags.deep_view().take(j as int) =~= pv[i as int].tags);
            assert(pv.take(i + 1).drop_last() =~= pv.take(i as int));
            assert(pv.take(i + 1).last() == pv[i as int]);
        }
        i = i + 1;
    }
    assert(pv.take(i as int) =~= pv);
    r
}

/// The position of the first process with identity `id`.
pub fn find_process(ps: &Vec<ManagedProcess>, id: ProcessId) -> (r: Option<usize>)
    ensures
        match r {
            Some(i) => is_first_id(ps.deep_view(), id, i as int),
            None => forall|i: int| 0 <= i < ps.len() ==> ps.deep_view()[i].id != id,
        },
        r.is_some() <==> first_id_index(ps.deep_view(), id).is_some(),
        r matches Some(i) ==> first_id_index(ps.deep_view(), id) == Some(i as int),
{
    let ghost pv = ps.deep_view();
    let mut i: usize = 0;
    while i < ps.len()
        invariant
            pv == ps.deep_view(),
            i <= ps.len(),
            forall|j: int| 0 <= j < i ==> pv[j].id != id,
        decreases ps.len() - i,
    {
        if ps[i].id == id {
            proof {
                assert(is_first_id(pv, id, i as int));
                let k = choose|k: int| is_first_id(pv, id, k);
                assert(k == i);
            }
            return Some(i);
        }
        i = i + 1;
    }
    None
}

/// Whether `v` holds a string equal to `s`.
pub fn contains_string(v: &Vec<String>, s: &String) -> (r: bool)
    ensures
        r == v.deep_view().contains(s@),
{
    let mut i: usize = 0;
    while i < v.len()
        invariant
            i <= v.len(),
            forall|j: int| 0 <= j < i ==> v.deep_view()[j] != s@,
        decreases v.len() - i,
    {
        if str_eq(v[i].as_str(), s.as_str()) {
            assert(v.deep_view()[i as int] == s@);
            return true;
        }
        i = i + 1;
    }
    false
}

/// Whether the process matches the sidebar search `query`.
fn process_matches_query(p: &ManagedProcess, query: &String) -> (r: bool)
    ensures
        r == matches_query(p.deep_view(), query@),
{
    let q = to_lowercase(query.as_str());
    if q.as_str().is_empty() {
        return true;
    }
    if p.command.len() > 0 {
        let name = to_lowercase(p.command[0].as_str());
        if str_contains(name.as_str(), q.as_str()) {
            return true;
        }
    }
    let pid = u64_to_string(p.pid as u64);
    if str_contains(pid.as_str(), q.as_str()) {
        return true;
    }
    let mut j: usize = 0;
    while j < p.tags.len()
        invariant
            j <= p.tags.len(),
            q@ == unicode_lowercase(query@),
            forall|k: int| 0 <= k < j ==> !contains_seq(unicode_lowercase(p.tags.deep_view()[k]), q@),
        decreases p.tags.len() - j,
    {
        let t = to_lowercase(p.tags[j].as_str());
        if str_contains(t.as_str(), q.as_str()) {
            assert(p.tags.deep_view()[j as int] == p.tags@[j as int]@);
            assert(0 <= j < p.deep_view().tags.len() && contains_seq(unicode_lowercase(p.deep_view().tags[j as int]), unicode_lowercase(query@)));
            return true;
        }
        j = j + 1;
    }
    false
}

/// Sets each running process's uptime from the wall clock `epoch_now`.
fn refresh_running_uptimes(procs: &mut Vec<ManagedProcess>, epoch_now: u64)
    requires
        forall|i: int| 0 <= i < old(procs).len() && old(procs).deep_view()[i].status == ProcessStatus::Running
            ==> old(procs).deep_view()[i].started_at <= epoch_now,
    ensures
        final(procs).deep_view() == refresh_uptimes(old(procs).deep_view(), epoch_now),
{
    let ghost ps = procs.deep_view();
    let n = procs.len();
    let mut i: usize = 0;
    while i < n
        invariant
            n == ps.len(),
            procs.len() == n,
            i <= n,
            forall|j: int| 0 <= j < n && ps[j].status == ProcessStatus::Running ==> ps[j].started_at <= epoch_now,
            forall|j: int| 0 <= j < i ==> procs.deep_view()[j] == refresh_uptimes(ps, epoch_now)[j],
            forall|j: int| i <= j < n ==> procs.deep_view()[j] == ps[j],
        decreases n - i,
    {
        if procs[i].status == ProcessStatus::Running {
            let mut p = vec_replace(procs, i, ManagedProcess::default());
            let ghost pv = p.deep_view();
            assert(pv == ps[i as int]);
            p.uptime_secs = (epoch_now - p.started_at) / 1000;
            assert(p.deep_view() =~= ProcessView { uptime_secs: ((epoch_now - pv.started_at) / 1000) as u64, ..pv });
            vec_replace(procs, i, p);
        }
        i = i + 1;
    }
    assert(procs.deep_view() =~= refresh_uptimes(ps, epoch_now));
}

/// `0, 1, …, n - 1`.
fn index_list(n: usize) -> (r: Vec<usize>)
    ensures
        r@ == Seq::new(n as nat, |j: int| j as usize),
{
    let mut order: Vec<usize> = Vec::new();
    let mut i: usize = 0;
    while i < n
        invariant
            i <= n,
            order@ == Seq::new(i as nat, |j: int| j as usize),
        decreases n - i,
    {
        order.push(i);
        i = i + 1;
        assert(order@ =~= Seq::new(i as nat, |j: int| j as usize));
    }
    order
}

/// Records the first nonzero I/O counter seen for each process.
fn fill_io_cache(cache: &mut std::collections::HashMap<ProcessId, u64>, procs: &Vec<ManagedProcess>)
    ensures
        final(cache)@ == cache_fill(old(cache)@, procs.deep_view()),
{
    let ghost ps = procs.deep_view();
    let ghost m0 = cache@;
    let mut i: usize = 0;
    while i < procs.len()
        invariant
            procs.deep_view() == ps,
            i <= ps.len(),
            cache@ == cache_fill(m0, ps.take(i as int)),
        decreases ps.len() - i,
    {
        let id = procs[i].id;
        let io = procs[i].io_bytes;
        proof {
            assert(ps.take(i + 1).drop_last() =~= ps.take(i as int));
            assert(ps.take(i + 1).last() == ps[i as int]);
        }
        if io > 0 {
            if !cache.contains_key(&id) {
                cache.insert(id, io);
            }
        }
        i = i + 1;
    }
    assert(ps.take(ps.len() as int) =~= ps);
}

/// Appends a line to the bounded log of the first process with identity `id`.
fn append_process_line(procs: &mut Vec<ManagedProcess>, id: ProcessId, line: &String, timestamp: u64)
    ensures
        final(procs).deep_view() == (match first_id_index(old(procs).deep_view(), id) {
            Some(i) => old(procs).deep_view().update(
                i,
                ProcessView {
                    log_lines: ring_push(
                        old(procs).deep_view()[i].log_lines,
                        LineView { timestamp: timestamp, line: line@ },
                    ),
                    ..old(procs).deep_view()[i]
                },
            ),
            None => old(procs).deep_view(),
        }),
{
    if let Some(i) = find_process(procs, id) {
        let mut p = vec_replace(procs, i, ManagedProcess::default());
        let ghost pv = p.deep_view();
        push_log_line(&mut p.log_lines, TimestampedLine { timestamp, line: copy_string(line) });
        assert(p.deep_view() =~= ProcessView {
            log_lines: ring_push(pv.log_lines, LineView { timestamp: timestamp, line: line@ }),
            ..pv
        });
        vec_replace(procs, i, p);
    }
}

fn is_alarming_line(line: &String) -> (r: bool)
    ensures
        r == is_alarming(line@),
{
    str_contains(line.as_str(), "ERROR") || str_contains(line.as_str(), "FATAL")
        || str_contains(line.as_str(), "panic")
}

/// `"{name}: {line}"` for the first process with identity `id`.
fn alarm_message(procs: &Vec<ManagedProcess>, id: ProcessId, line: &String) -> (msg: String)
    ensures
        msg@ == name_of(procs.deep_view(), id) + ": "@ + line@,
{
    let mut msg = String::new();
    if let Some(i) = find_process(procs, id) {
        if procs[i].command.len() > 0 {
            push_str(&mut msg, procs[i].command[0].as_str());
        }
    }
    push_str(&mut msg, ": ");
    push_str(&mut msg, line.as_str());
    assert(msg@ =~= name_of(procs.deep_view(), id) + ": "@ + line@);
    msg
}

/// A coordinate read as a signed 16-bit number, widened.
fn signed16(x: u16) -> (r: i32)
    ensures
        r == as_i16(x),
{
    if x <= 32767 { x as i32 } else { x as i32 - 65536 }
}

/// `{:?}` of a status.
pub fn status_text(s: ProcessStatus) -> (r: &'static str)
    ensures
        r@ == status_name(s),
{
    match s {
        ProcessStatus::Running => "Running",
        ProcessStatus::Sleeping => "Sleeping",
        ProcessStatus::Crashed => "Crashed",
        ProcessStatus::Stopped => "Stopped",
    }
}

impl App {
    /// A dashboard with no processes; `readonly` disables restart and kill.
    pub fn new(readonly: bool) -> (r: App)
        ensures
            r.processes@.len() == 0,
            r.selected_index == 0,
            r.log_lines.deep_view().len() == 0,
            r.outbox@.len() == 0,
            r.sidebar_width == SIDEBAR_DEFAULT,
            r.log_follow_mode,
            r.readonly == readonly,
            !r.should_quit,
            !r.detail_mode,
            !r.search_active,
            !r.tag_filter_mode,
            !r.proc_search_active,
            !r.notif_mode,
            r.confirm_kill.is_none(),
            r.toast.is_none(),
            r.filtered_tag.is_none(),
            r.filter_stream.is_none(),
            r.search_query@.len() == 0,
            r.proc_search_query@.len() == 0,
            r.notifications.deep_view().len() == 0,
            r.process_order@.len() == 0,
            r.io_bytes_cache@ == Map::<ProcessId, u64>::empty(),
    {
        App {
            processes: Vec::new(),
            selected_index: 0,
            log_lines: deque_new(),
            log_scroll_offset: 0,
            log_total_lines: 0,
            list_scroll_offset: 0,
            should_quit: false,
            outbox: Vec::new(),
            daemon_uptime_secs: 0,
            last_tick_ms: 0,
            io_bytes_cache: std::collections::HashMap::new(),
            detail_mode: false,
            search_active: false,
            search_query: String::new(),
            search_results: Vec::new(),
            search_idx: 0,
            filter_stream: None,
            all_tags: Vec::new(),
            filtered_tag: None,
            tag_filter_mode: false,
            sidebar_width: SIDEBAR_DEFAULT,
            resize_dragging: false,
            toast: None,
            confirm_kill: None,
            collapsed_groups: Vec::new(),
            log_follow_mode: true,
            readonly,
            proc_search_active: false,
            proc_search_query: String::new(),
            notifications: deque_new(),
            notif_mode: false,
            process_order: Vec::new(),
        }
    }

    /// Takes the queued commands, leaving the queue empty.
    pub fn take_outbox(&mut self) -> (r: Vec<ClientMessage>)
        ensures
            r.deep_view() == old(self).outbox.deep_view(),
            final(self).deep_view() == (AppView { outbox: seq![], ..old(self).deep_view() }),
    {
        let mut r: Vec<ClientMessage> = Vec::new();
        std::mem::swap(&mut r, &mut self.outbox);
        assert(self.outbox.deep_view() =~= seq![]);
        r
    }

    fn send_command(&mut self, m: ClientMessage)
        ensures
            final(self).deep_view() == send(old(self).deep_view(), m.deep_view()),
    {
        let ghost before = self.outbox.deep_view();
        self.outbox.push(m);
        assert(self.outbox.deep_view() =~= before.push(m.deep_view()));
    }

    fn show_toast(&mut self, msg: String, now: u64)
        ensures
            final(self).deep_view() == show_toast(old(self).deep_view(), msg@, now),
    {
        self.toast = Some((msg, now));
    }

    fn on_selection_changed(&mut self)
        ensures
            final(self).deep_view() == selection_changed(old(self).deep_view()),
    {
        self.log_scroll_offset = 0;
        self.log_lines = deque_new();
        self.log_total_lines = 0;
        self.search_results = Vec::new();
        self.search_idx = 0;
        self.log_follow_mode = true;
        if self.selected_index < self.processes.len() {
            self.log_lines = copy_lines(&self.processes[self.selected_index].log_lines);
        }
        assert(self.search_results.deep_view() =~= seq![]);
        assert(selected(old(self).deep_view()) is None ==> self.log_lines.deep_view() =~= seq![]);
    }

    fn execute_search(&mut self)
        ensures
            final(self).deep_view() == execute_search(old(self).deep_view()),
    {
        if self.search_query.as_str().is_empty() {
            return;
        }
        if self.selected_index < self.processes.len() {
            let id = self.processes[self.selected_index].id;
            self.search_results = Vec::new();
            self.search_idx = 0;
            assert(self.search_results.deep_view() =~= seq![]);
            let q = copy_string(&self.search_query);
            self.send_command(ClientMessage::SearchLogs {
                process_id: id,
                query: q,
                stream: self.filter_stream,
                offset: 0,
                limit: SEARCH_PAGE_SIZE,
            });
        }
    }

    fn handle_detail_key(&mut self, key: KeyEvent)
        ensures
            final(self).deep_view() == detail_key_step(old(self).deep_view(), key),
    {
        if matches!(key.code, KeyCode::Esc | KeyCode::Char('i')) {
            self.detail_mode = false;
        }
    }

    pub fn handle_confirm_kill(&mut self, key: KeyEvent, now: u64)
        ensures
            final(self).deep_view() == confirm_kill_step(old(self).deep_view(), key, now),
    {
        if let Some(id) = self.confirm_kill {
            self.confirm_kill = None;
            if matches!(key.code, KeyCode::Char('y') | KeyCode::Char('Y')) {
                self.send_command(ClientMessage::KillProcess(id));
                match find_process(&self.processes, id) {
                    Some(i) => {
                        let msg = with_number("Killed PID ", self.processes[i].pid as u64, "");
                        assert(msg@ =~= "Killed PID "@ + dec(self.processes[i as int].pid as nat)) by {
                            assert(""@ =~= Seq::<char>::empty()) by { reveal_strlit(""); }
                        }
                        self.show_toast(msg, now);
                    },
                    None => {},
                }
            } else {
                self.show_toast(String::from_str("Kill cancelled"), now);
            }
        }
    }

    fn handle_tag_filter_key(&mut self, key: KeyEvent)
        ensures
            final(self).deep_view() == tag_filter_key_step(old(self).deep_view(), key),
    {
        match key.code {
            KeyCode::Esc => {
                self.tag_filter_mode = false;
                self.filtered_tag = None;
            },
            KeyCode::Char(c) => {
                if '0' <= c && c <= '9' {
                    let idx = (c as u32 - 48) as usize;
                    if idx == 0 {
                        self.filtered_tag = None;
                    } else if idx - 1 < self.all_tags.len() {
                        self.filtered_tag = Some(copy_string(&self.all_tags[idx - 1]));
                    }
                    self.tag_filter_mode = false;
                }
            },
            _ => {},
        }
    }

    fn edit_key_test(&self, key: KeyEvent) -> (r: bool)
        ensures
            r == is_edit_key(self.deep_view(), key),
    {
        let code = key.code;
        code == KeyCode::Esc || (code == KeyCode::Enter && self.search_active)
            || (code == KeyCode::Char('/') && !self.search_active)
            || (matches!(code, KeyCode::Char(_)) && self.search_active)
            || (code == KeyCode::Backspace && self.search_active)
    }

    fn nav_key_test(key: KeyEvent) -> (r: bool)
        ensures
            r == is_nav_key(key),
    {
        let code = key.code;
        code == KeyCode::Up || code == KeyCode::Char('k') || code == KeyCode::Down
            || code == KeyCode::Char('j') || code == KeyCode::Home || code == KeyCode::Char('g')
            || code == KeyCode::End || code == KeyCode::Char('G') || code == KeyCode::PageUp
            || code == KeyCode::PageDown || code == KeyCode::Enter || code == KeyCode::Char('i')
    }

    fn action_key_test(&self, key: KeyEvent) -> (r: bool)
        ensures
            r == is_action_key(self.deep_view(), key),
    {
        key.code == KeyCode::Char('r') || key.code == KeyCode::Char('x')
            || (key.code == KeyCode::Backspace && !self.proc_search_active)
    }

    /// Whether `handle_key` can take this key in the current state.
    pub fn key_is_safe(&self, key: KeyEvent) -> (r: bool)
        ensures
            r == !key_fails(self.deep_view(), key),
    {
        if self.detail_mode || self.confirm_kill.is_some() || self.tag_filter_mode {
            return true;
        }
        if key.ctrl && matches!(key.code, KeyCode::Char('c') | KeyCode::Char('q')) {
            return true;
        }
        let code = key.code;
        if self.edit_key_test(key) || code == KeyCode::F(1) || code == KeyCode::F(2) || code == KeyCode::F(3) {
            return true;
        }
        let up = code == KeyCode::Up || code == KeyCode::Char('k');
        let down = code == KeyCode::Down || code == KeyCode::Char('j');
        if up && key.ctrl && self.selected_index > 0 && self.process_order.len() == self.processes.len()
            && self.selected_index >= self.processes.len() {
            return false;
        }
        if down && self.selected_index == usize::MAX {
            return false;
        }
        if !Self::nav_key_test(key) && !self.action_key_test(key) && code == KeyCode::Char('R')
            && !self.proc_search_active && self.selected_index < self.processes.len()
            && self.log_lines.len() > usize::MAX - self.log_scroll_offset {
            return false;
        }
        true
    }

    /// Answers a key press; `now` is the monotonic clock in millis.
    pub fn handle_key(&mut self, key: KeyEvent, now: u64)
        requires
            !key_fails(old(self).deep_view(), key),
        ensures
            final(self).deep_view() == key_step(old(self).deep_view(), key, now),
    {
        if self.detail_mode {
            self.handle_detail_key(key);
            return;
        }
        if self.confirm_kill.is_some() {
            self.handle_confirm_kill(key, now);
            return;
        }
        if self.tag_filter_mode {
            self.handle_tag_filter_key(key);
            return;
        }
        if self.handle_global_quit(key) {
            return;
        }
        self.handle_normal_key(key, now);
    }

    fn handle_global_quit(&mut self, key: KeyEvent) -> (r: bool)
        ensures
            r == is_global_quit(key),
            r ==> final(self).deep_view() == (AppView { should_quit: true, ..old(self).deep_view() }),
            !r ==> final(self).deep_view() == old(self).deep_view(),
    {
        if key.ctrl && matches!(key.code, KeyCode::Char('c') | KeyCode::Char('q')) {
            self.should_quit = true;
            true
        } else {
            false
        }
    }

    pub fn handle_normal_key(&mut self, key: KeyEvent, now: u64)
        requires
            !key_fails(old(self).deep_view(), key),
            !old(self).detail_mode,
            old(self).confirm_kill is None,
            !old(self).tag_filter_mode,
            !is_global_quit(key),
        ensures
            final(self).deep_view() == normal_key_step(old(self).deep_view(), key, now),
    {
        if self.edit_key_test(key) {
            self.edit_key(key);
        } else if key.code == KeyCode::F(1) || key.code == KeyCode::F(2) || key.code == KeyCode::F(3) {
            self.function_key(key);
        } else if Self::nav_key_test(key) {
            self.nav_key(key);
        } else if self.action_key_test(key) {
            self.action_key(key, now);
        } else {
            self.other_key(key);
        }
    }

    fn edit_key(&mut self, key: KeyEvent)
        requires
            is_edit_key(old(self).deep_view(), key),
        ensures
            final(self).deep_view() == edit_key_step(old(self).deep_view(), key),
    {
        match key.code {
            KeyCode::Esc => {
                if self.notif_mode {
                    self.notif_mode = false;
                    return;
                }
                if self.search_active {
                    self.search_active = false;
                    self.search_query = String::new();
                    assert(self.search_query@ =~= seq![]);
                } else {
                    self.should_quit = true;
                }
            },
            KeyCode::Enter if self.search_active => {
                self.execute_search();
            },
            KeyCode::Char('/') if !self.search_active => {
                self.search_active = true;
                self.search_query = String::new();
                assert(self.search_query@ =~= seq![]);
            },
            KeyCode::Char(c) if self.search_active => {
                string_push(&mut self.search_query, c);
            },
            _ => {
                string_pop(&mut self.search_query);
            },
        }
    }

    fn function_key(&mut self, key: KeyEvent)
        requires
            is_function_key(key),
        ensures
            final(self).deep_view() == function_key_step(old(self).deep_view(), key),
    {
        if key.code == KeyCode::F(1) {
            self.filter_stream = match self.filter_stream {
                Some(StreamKind::Stdout) => None,
                _ => Some(StreamKind::Stdout),
            };
            if self.search_active {
                self.execute_search();
            }
        } else if key.code == KeyCode::F(2) {
            self.filter_stream = match self.filter_stream {
                Some(StreamKind::Stderr) => None,
                _ => Some(StreamKind::Stderr),
            };
            if self.search_active {
                self.execute_search();
            }
        } else {
            self.log_follow_mode = !self.log_follow_mode;
        }
    }

    fn up_key(&mut self, ctrl: bool)
        requires
            !(ctrl && old(self).selected_index > 0
                && old(self).process_order.len() == old(self).processes.len()
                && old(self).selected_index >= old(self).processes.len()),
        ensures
            final(self).deep_view() == up_step(old(self).deep_view(), ctrl),
    {
        if ctrl {
            if self.selected_index > 0 && self.process_order.len() == self.processes.len() {
                let i = self.selected_index;
                let x = self.process_order[i];
                let y = self.process_order[i - 1];
                self.process_order.set(i, y);
                self.process_order.set(i - 1, x);
                self.selected_index = i - 1;
            }
        } else if self.selected_index > 0 {
            self.selected_index = self.selected_index - 1;
            self.on_selection_changed();
        }
    }

    fn down_key(&mut self, ctrl: bool)
        requires
            old(self).selected_index < usize::MAX,
        ensures
            final(self).deep_view() == down_step(old(self).deep_view(), ctrl),
    {
        if ctrl {
            if self.selected_index + 1 < self.processes.len()
                && self.process_order.len() == self.processes.len() {
                let i = self.selected_index;
                let x = self.process_order[i];
                let y = self.process_order[i + 1];
                self.process_order.set(i, y);
                self.process_order.set(i + 1, x);
                self.selected_index = i + 1;
            }
        } else if self.selected_index + 1 < self.processes.len() {
            self.selected_index = self.selected_index + 1;
            self.on_selection_changed();
        }
    }

    fn nav_key(&mut self, key: KeyEvent)
        requires
            is_nav_key(key),
            !((key.code == KeyCode::Up || is_char(key, 'k')) && key.ctrl && old(self).selected_index > 0
                && old(self).process_order.len() == old(self).processes.len()
                && old(self).selected_index >= old(self).processes.len()),
            !((key.code == KeyCode::Down || is_char(key, 'j')) && old(self).selected_index == usize::MAX),
        ensures
            final(self).deep_view() == nav_key_step(old(self).deep_view(), key),
    {
        match key.code {
            KeyCode::Up | KeyCode::Char('k') => {
                self.up_key(key.ctrl);
            },
            KeyCode::Down | KeyCode::Char('j') => {
                self.down_key(key.ctrl);
            },
            KeyCode::Home | KeyCode::Char('g') => {
                self.selected_index = 0;
                self.on_selection_changed();
            },
            KeyCode::End | KeyCode::Char('G') => {
                if self.processes.len() > 0 {
                    self.selected_index = self.processes.len() - 1;
                    self.on_selection_changed();
                }
            },
            KeyCode::PageUp => {
                self.log_scroll_offset = self.log_scroll_offset.saturating_add(PAGE_SCROLL);
            },
            KeyCode::PageDown => {
                self.log_scroll_offset = self.log_scroll_offset.saturating_sub(PAGE_SCROLL);
            },
            _ => {
                if self.processes.len() > 0 {
                    self.detail_mode = true;
                }
            },
        }
    }

    fn action_key(&mut self, key: KeyEvent, now: u64)
        requires
            is_action_key(old(self).deep_view(), key),
        ensures
            final(self).deep_view() == action_key_step(old(self).deep_view(), key, now),
    {
        if self.readonly {
            return;
        }
        if self.selected_index < self.processes.len() {
            let id = self.processes[self.selected_index].id;
            let pid = self.processes[self.selected_index].pid;
            if key.code == KeyCode::Char('r') {
                self.send_command(ClientMessage::RestartProcess(id));
                let msg = with_number("Restarting PID ", pid as u64, "");
                assert(msg@ =~= "Restarting PID "@ + dec(pid as nat)) by {
                    assert(""@ =~= Seq::<char>::empty()) by { reveal_strlit(""); }
                }
                self.show_toast(msg, now);
            } else if key.code == KeyCode::Char('x') {
                self.confirm_kill = Some(id);
                self.show_toast(with_number("Kill PID ", pid as u64, "? [y/N]"), now);
            } else {
                self.send_command(ClientMessage::KillProcess(id));
                let msg = with_number("Killing PID ", pid as u64, "");
                assert(msg@ =~= "Killing PID "@ + dec(pid as nat)) by {
                    assert(""@ =~= Seq::<char>::empty()) by { reveal_strlit(""); }
                }
                self.show_toast(msg, now);
            }
        }
    }

    fn other_key(&mut self, key: KeyEvent)
        requires
            !(is_char(key, 'R') && !old(self).proc_search_active && selected(old(self).deep_view()) is Some
                && old(self).log_lines.len() + old(self).log_scroll_offset > usize::MAX),
        ensures
            final(self).deep_view() == other_key_step(old(self).deep_view(), key),
    {
        let code = key.code;
        if code == KeyCode::Char('t') && !self.search_active {
            self.tag_filter_mode = !self.tag_filter_mode;
            if self.tag_filter_mode {
                self.all_tags = collect_tags(&self.processes);
            }
        } else if code == KeyCode::Char('f') && !self.search_active {
            self.proc_search_active = !self.proc_search_active;
            if !self.proc_search_active {
                self.proc_search_query = String::new();
                assert(self.proc_search_query@ =~= seq![]);
            }
        } else if matches!(code, KeyCode::Char(_)) && self.proc_search_active {
            if let KeyCode::Char(c) = code {
                string_push(&mut self.proc_search_query, c);
            }
        } else if code == KeyCode::Backspace && self.proc_search_active {
            string_pop(&mut self.proc_search_query);
            if self.proc_search_query.as_str().is_empty() {
                self.proc_search_active = false;
            }
        } else if code == KeyCode::Char('R') {
            if self.selected_index < self.processes.len() {
                let id = self.processes[self.selected_index].id;
                let offset = self.log_lines.len() + self.log_scroll_offset;
                self.send_command(ClientMessage::GetLogs {
                    process_id: id,
                    offset,
                    limit: LOG_PAGE_SIZE,
                });
            }
        } else if code == KeyCode::Char('N') && !self.search_active {
            self.notif_mode = !self.notif_mode;
        }
    }
    fn push_notification(&mut self, kind: NotifKind, message: String, now: u64)
        ensures
            final(self).deep_view() == push_notification(old(self).deep_view(), kind, message@, now),
    {
        let ghost full = self.notifications.deep_view().push(
            NotificationView { timestamp: now, kind: kind, message: message@ },
        );
        let mut notes: VecDeque<Notification> = deque_new();
        std::mem::swap(&mut notes, &mut self.notifications);
        deque_push_back(&mut notes, Notification { timestamp: now, kind, message });
        let ghost mut dropped: int = 0;
        while deque_len(&notes) > MAX_NOTIFICATIONS
            invariant
                0 <= dropped <= full.len(),
                notes.deep_view() == full.subrange(dropped, full.len() as int),
                dropped > 0 ==> full.len() - dropped >= MAX_NOTIFICATIONS,
            decreases notes.deep_view().len(),
        {
            deque_pop_front(&mut notes);
            proof {
                dropped = dropped + 1;
            }
            assert(notes.deep_view() =~= full.subrange(dropped, full.len() as int));
        }
        assert(notes.deep_view() =~= keep_last(full, MAX_NOTIFICATIONS as nat));
        self.notifications = notes;
    }

    #[verifier::rlimit(60)]
    fn on_snapshot(&mut self, processes: Vec<ManagedProcess>)
        ensures
            final(self).deep_view() == snapshot_step(old(self).deep_view(), processes.deep_view()),
    {
        let ghost a = self.deep_view();
        let ghost ps = processes.deep_view();
        self.processes = processes;
        if self.process_order.len() != self.processes.len() || self.process_order.len() == 0 {
            self.process_order = index_list(self.processes.len());
        }
        fill_io_cache(&mut self.io_bytes_cache, &self.processes);
        if self.selected_index < self.processes.len() && self.log_lines.len() == 0 {
            self.log_lines = copy_lines(&self.processes[self.selected_index].log_lines);
        }
    }

    #[verifier::rlimit(60)]
    fn on_log_event(&mut self, process_id: ProcessId, line: String, timestamp: u64, now: u64)
        ensures
            final(self).deep_view() == log_event_step(old(self).deep_view(), process_id, line@, timestamp, now),
    {
        let ghost lv = LineView { timestamp: timestamp, line: line@ };
        append_process_line(&mut self.processes, process_id, &line, timestamp);
        if self.selected_index < self.processes.len() && self.processes[self.selected_index].id == process_id {
            deque_push_back(&mut self.log_lines, TimestampedLine { timestamp, line: copy_string(&line) });
            self.log_scroll_offset = 0;
        }
        if is_alarming_line(&line) {
            let msg = alarm_message(&self.processes, process_id, &line);
            self.push_notification(NotifKind::Info, msg, now);
        }
    }

    fn on_status_changed(&mut self, process_id: ProcessId, status: ProcessStatus, now: u64)
        ensures
            final(self).deep_view() == status_step(old(self).deep_view(), process_id, status, now),
    {
        let ghost a = self.deep_view();
        if let Some(i) = find_process(&self.processes, process_id) {
            let ghost pv = a.processes[i as int];
            let old_status = self.processes[i].status;
            let mut msg = String::new();
            if self.processes[i].command.len() > 0 {
                push_str(&mut msg, self.processes[i].command[0].as_str());
            }
            let ghost mid = self.processes.deep_view();
            let mut p = vec_replace(&mut self.processes, i, ManagedProcess::default());
            p.status = status;
            assert(p.deep_view() =~= ProcessView { status: status, ..pv });
            let ghost p_view = p.deep_view();
            vec_replace(&mut self.processes, i, p);
            assert(self.processes.deep_view() =~= mid.update(i as int, p_view));
            push_str(&mut msg, ": ");
            push_str(&mut msg, status_text(old_status));
            push_str(&mut msg, " → ");
            push_str(&mut msg, status_text(status));
            assert(msg@ =~= display_name(pv) + ": "@ + status_name(pv.status) + " → "@ + status_name(status));
            let kind = if status == ProcessStatus::Crashed {
                NotifKind::Crash
            } else if old_status == ProcessStatus::Running && status == ProcessStatus::Stopped {
                NotifKind::Exit
            } else {
                NotifKind::Info
            };
            self.push_notification(kind, msg, now);
        }
    }

    fn on_telemetry(&mut self, process_id: ProcessId, ports: &Vec<u16>, cpu_percent_bits: u32, memory_bytes: u64, io_bytes: u64)
        ensures
            final(self).deep_view() == telemetry_step(old(self).deep_view(), process_id, ports@, cpu_percent_bits, memory_bytes, io_bytes),
    {
        let ghost a = self.deep_view();
        if let Some(i) = find_process(&self.processes, process_id) {
            let ghost pv = a.processes[i as int];
            let ghost mid = self.processes.deep_view();
            let mut p = vec_replace(&mut self.processes, i, ManagedProcess::default());
            p.cpu_percent_bits = cpu_percent_bits;
            p.memory_bytes = memory_bytes;
            p.ports = copy_ports(ports);
            self.io_bytes_cache.insert(process_id, io_bytes);
            p.io_bytes = io_bytes;
            assert(p.deep_view() =~= ProcessView {
                cpu_percent_bits: cpu_percent_bits,
                memory_bytes: memory_bytes,
                ports: ports@,
                io_bytes: io_bytes,
                ..pv
            });
            let ghost p_view = p.deep_view();
            vec_replace(&mut self.processes, i, p);
            assert(self.processes.deep_view() =~= mid.update(i as int, p_view));
        }
    }

    fn on_logs_batch(&mut self, logs: Vec<TimestampedLine>, total: usize)
        ensures
            final(self).deep_view() == (AppView {
                log_lines: logs.deep_view() + old(self).deep_view().log_lines,
                log_total_lines: total,
                ..old(self).deep_view()
            }),
    {
        let ghost before = self.log_lines.deep_view();
        let ghost lv = logs.deep_view();
        let mut logs = logs;
        let mut lines: VecDeque<TimestampedLine> = deque_new();
        std::mem::swap(&mut lines, &mut self.log_lines);
        while logs.len() > 0
            invariant
                logs.len() <= lv.len(),
                logs.deep_view() == lv.take(logs.len() as int),
                lines.deep_view() == lv.skip(logs.len() as int) + before,
            decreases logs.len(),
        {
            let ghost k = logs.len() - 1;
            let tl = vec_pop(&mut logs).unwrap();
            assert(tl.deep_view() == lv[k as int]);
            assert(logs.deep_view() =~= lv.take(k as int));
            deque_push_front(&mut lines, tl);
            assert(lines.deep_view() =~= lv.skip(k as int) + before);
        }
        assert(lv.skip(0) =~= lv);
        self.log_lines = lines;
        self.log_total_lines = total;
    }

    fn on_search_result(&mut self, logs: &Vec<TimestampedLine>)
        ensures
            final(self).deep_view() == (AppView {
                search_results: Seq::new(logs@.len(), |i: int| (i as usize, logs@[i].deep_view())),
                search_idx: 0,
                ..old(self).deep_view()
            }),
    {
        let mut results: Vec<(usize, TimestampedLine)> = Vec::new();
        let mut i: usize = 0;
        while i < logs.len()
            invariant
                i <= logs.len(),
                results.deep_view() == Seq::new(i as nat, |j: int| (j as usize, logs@[j].deep_view())),
            decreases logs.len() - i,
        {
            vec_push(&mut results, (i, logs[i].duplicate()));
            i = i + 1;
            assert(results.deep_view() =~= Seq::new(i as nat, |j: int| (j as usize, logs@[j].deep_view())));
        }
        self.search_results = results;
        self.search_idx = 0;
    }

    fn on_health_status(&mut self, process_id: ProcessId, healthy: bool, failures: u32, now: u64)
        ensures
            final(self).deep_view() == (if !healthy && first_id_index(old(self).deep_view().processes, process_id) is Some {
                push_notification(
                    old(self).deep_view(),
                    NotifKind::HealthFail,
                    name_of(old(self).deep_view().processes, process_id) + ": health check failed ("@
                        + dec(failures as nat) + ")"@,
                    now,
                )
            } else {
                old(self).deep_view()
            }),
    {
        if !healthy {
            if let Some(i) = find_process(&self.processes, process_id) {
                let ghost a = self.deep_view();
                let mut msg = String::new();
                if self.processes[i].command.len() > 0 {
                    push_str(&mut msg, self.processes[i].command[0].as_str());
                }
                push_str(&mut msg, ": health check failed (");
                push_dec(&mut msg, failures as u64);
                push_str(&mut msg, ")");
                assert(msg@ =~= name_of(a.processes, process_id) + ": health check failed ("@
                    + dec(failures as nat) + ")"@);
                self.push_notification(NotifKind::HealthFail, msg, now);
            }
        }
    }

    /// Answers a message from the daemon; `now` is the wall clock in epoch
    /// millis, stamped on any notification raised.
    pub fn on_daemon_msg(&mut self, msg: DaemonMessage, now: u64)
        ensures
            final(self).deep_view() == daemon_msg_step(old(self).deep_view(), msg, now),
    {
        match msg {
            DaemonMessage::StateSnapshot(snap) => {
                self.on_snapshot(snap.processes);
            },
            DaemonMessage::LogEvent { process_id, line, timestamp, .. } => {
                self.on_log_event(process_id, line, timestamp, now);
            },
            DaemonMessage::LogsBatch { logs, total } => {
                self.on_logs_batch(logs, total);
            },
            DaemonMessage::SearchResult { logs, .. } => {
                self.on_search_result(&logs);
            },
            DaemonMessage::StatusChanged { process_id, status } => {
                self.on_status_changed(process_id, status, now);
            },
            DaemonMessage::HealthStatus { process_id, healthy, failures } => {
                self.on_health_status(process_id, healthy, failures, now);
            },
            DaemonMessage::TelemetryUpdate { process_id, telemetry } => {
                self.on_telemetry(
                    process_id,
                    &telemetry.ports,
                    telemetry.cpu_percent_bits,
                    telemetry.memory_bytes,
                    telemetry.io_bytes,
                );
            },
            _ => {},
        }
    }

    /// Whether `handle_mouse` can take this event.
    pub fn mouse_is_safe(&self, me: MouseEvent) -> (r: bool)
        ensures
            r == !mouse_fails(self.deep_view(), me),
    {
        if self.detail_mode || me.kind != MouseKind::LeftDown {
            return true;
        }
        let d = signed16(me.column) - signed16(self.sidebar_width);
        -32767 <= d && d <= 32767
    }

    /// Answers a mouse event.
    pub fn handle_mouse(&mut self, me: MouseEvent)
        requires
            !mouse_fails(old(self).deep_view(), me),
        ensures
            final(self).deep_view() == mouse_step(old(self).deep_view(), me),
    {
        if self.detail_mode {
            return;
        }
        match me.kind {
            MouseKind::LeftDown => {
                let col = signed16(me.column);
                let row = signed16(me.row);
                let border_col = signed16(self.sidebar_width);
                let d = col - border_col;
                if -1 <= d && d <= 1 {
                    self.resize_dragging = true;
                    return;
                }
                if col < border_col && row >= 1 {
                    let item_idx = ((row - 1) / 3) as usize;
                    if item_idx < self.processes.len() {
                        self.selected_index = item_idx;
                        self.on_selection_changed();
                    }
                }
            },
            MouseKind::LeftDrag => {
                if self.resize_dragging {
                    let c = me.column;
                    self.sidebar_width = if c < SIDEBAR_MIN {
                        SIDEBAR_MIN
                    } else if c > SIDEBAR_MAX {
                        SIDEBAR_MAX
                    } else {
                        c
                    };
                }
            },
            MouseKind::Up => {
                self.resize_dragging = false;
            },
            MouseKind::ScrollDown => {
                self.log_scroll_offset = self.log_scroll_offset.saturating_add(SCROLL_STEP);
            },
            MouseKind::ScrollUp => {
                self.log_scroll_offset = self.log_scroll_offset.saturating_sub(SCROLL_STEP);
            },
            MouseKind::Other => {},
        }
    }

    /// Whether `on_tick` can run with these clock readings.
    pub fn tick_is_safe(&self, now: u64, epoch_now: u64) -> (r: bool)
        ensures
            r == !tick_fails(self.deep_view(), now, epoch_now),
    {
        let elapsed = if now < self.last_tick_ms { 0 } else { (now - self.last_tick_ms) / 1000 };
        if self.daemon_uptime_secs > u64::MAX - elapsed {
            return false;
        }
        let mut i: usize = 0;
        while i < self.processes.len()
            invariant
                i <= self.processes.len(),
                forall|j: int| 0 <= j < i ==> !(self.processes.deep_view()[j].status == ProcessStatus::Running
                    && self.processes.deep_view()[j].started_at > epoch_now),
            decreases self.processes.len() - i,
        {
            if self.processes[i].status == ProcessStatus::Running && self.processes[i].started_at > epoch_now {
                assert(self.processes.deep_view()[i as int] == self.processes@[i as int].deep_view());
                return false;
            }
            i = i + 1;
        }
        true
    }

    /// The periodic update; `now` is the monotonic clock and `epoch_now`
    /// the wall clock, both in millis.
    #[verifier::rlimit(60)]
    pub fn on_tick(&mut self, now: u64, epoch_now: u64)
        requires
            !tick_fails(old(self).deep_view(), now, epoch_now),
        ensures
            final(self).deep_view() == tick_step(old(self).deep_view(), now, epoch_now),
    {
        let elapsed = if now < self.last_tick_ms { 0 } else { (now - self.last_tick_ms) / 1000 };
        self.daemon_uptime_secs = self.daemon_uptime_secs + elapsed;
        self.last_tick_ms = now;
        let expired = match &self.toast {
            Some((_, t)) => {
                let age = if now < *t { 0 } else { (now - *t) / 1000 };
                age > TOAST_SECS
            },
            None => false,
        };
        if expired {
            self.toast = None;
        }
        refresh_running_uptimes(&mut self.processes, epoch_now);
        self.send_command(ClientMessage::GetState);
    }

    /// The selected process, if the selection points at one.
    pub fn selected_process(&self) -> (r: Option<&ManagedProcess>)
        ensures
            match r {
                Some(p) => self.selected_index < self.processes.len()
                    && *p == self.processes@[self.selected_index as int],
                None => self.selected_index >= self.processes.len(),
            },
    {
        if self.selected_index < self.processes.len() {
            Some(&self.processes[self.selected_index])
        } else {
            None
        }
    }

    /// The processes the sidebar lists under the tag filter, in order.
    pub fn displayed_processes(&self) -> (r: Vec<&ManagedProcess>)
        ensures
            r@.len() == indices_where(self.processes.deep_view(), |p: ProcessView| has_tag(p, self.filtered_tag.deep_view())).len(),
            forall|k: int| 0 <= k < r@.len() ==> *r@[k] == self.processes@[
                indices_where(self.processes.deep_view(), |p: ProcessView| has_tag(p, self.filtered_tag.deep_view()))[k] as int
            ],
    {
        let ghost f = |p: ProcessView| has_tag(p, self.filtered_tag.deep_view());
        let ghost ps = self.processes.deep_view();
        let mut r: Vec<&ManagedProcess> = Vec::new();
        let mut i: usize = 0;
        while i < self.processes.len()
            invariant
                ps == self.processes.deep_view(),
                f == (|p: ProcessView| has_tag(p, self.filtered_tag.deep_view())),
                i <= self.processes.len(),
                r@.len() == indices_where(ps.take(i as int), f).len(),
                forall|k: int| 0 <= k < r@.len() ==> *r@[k] == self.processes@[indices_where(ps.take(i as int), f)[k] as int],
                forall|k: int| 0 <= k < indices_where(ps.take(i as int), f).len() ==> indices_where(ps.take(i as int), f)[k] < i,
            decreases self.processes.len() - i,
        {
            let keep = match &self.filtered_tag {
                Some(tag) => contains_string(&self.processes[i].tags, tag),
                None => true,
            };
            proof {
                assert(ps.take(i + 1).drop_last() =~= ps.take(i as int));
                assert(ps.take(i + 1).last() == ps[i as int]);
                assert(keep == f(ps[i as int]));
            }
            if keep {
                r.push(&self.processes[i]);
            }
            i = i + 1;
        }
        assert(ps.take(ps.len() as int) =~= ps);
        r
    }

    /// Positions of the processes that pass both the tag filter and the
    /// sidebar search, ascending.
    pub fn filtered_process_indices(&self) -> (r: Vec<usize>)
        ensures
            r@ == indices_where(
                self.processes.deep_view(),
                |p: ProcessView| has_tag(p, self.filtered_tag.deep_view()) && matches_query(p, self.proc_search_query@),
            ),
            forall|k: int| 0 <= k < r.len() ==> r@[k] < self.processes.len(),
            forall|a: int, b: int| 0 <= a < b < r.len() ==> r@[a] < r@[b],
    {
        let ghost f = |p: ProcessView| has_tag(p, self.filtered_tag.deep_view()) && matches_query(p, self.proc_search_query@);
        let ghost ps = self.processes.deep_view();
        let mut r: Vec<usize> = Vec::new();
        let mut i: usize = 0;
        while i < self.processes.len()
            invariant
                ps == self.processes.deep_view(),
                f == (|p: ProcessView| has_tag(p, self.filtered_tag.deep_view()) && matches_query(p, self.proc_search_query@)),
                i <= self.processes.len(),
                r@ == indices_where(ps.take(i as int), f),
            decreases self.processes.len() - i,
        {
            let p = &self.processes[i];
            let matches_tag = match &self.filtered_tag {
                Some(tag) => contains_string(&p.tags, tag),
                None => true,
            };
            let matches_q = process_matches_query(p, &self.proc_search_query);
            proof {
                assert(ps.take(i + 1).drop_last() =~= ps.take(i as int));
                assert(ps.take(i + 1).last() == ps[i as int]);
            }
            if matches_tag && matches_q {
                r.push(i);
            }
            i = i + 1;
        }
        assert(ps.take(ps.len() as int) =~= ps);
        proof {
            lemma_indices_where_increasing(ps, f);
        }
        r
    }

}

} // verus!
