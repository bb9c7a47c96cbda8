//! What the dashboard's panes say: the rows of the process list, grouped by
//! status, and the texts of the pane titles, the search line and the
//! status bar. The terminal front end draws them.
use vstd::prelude::*;
use crate::app::{indices_where, selected, App, AppView};
use crate::protocol::{ManagedProcess, ProcessStatus, ProcessView, StreamKind};
use crate::text::{dec, push_dec, push_str};
use crate::theme::{format_uptime, uptime_text};

verus! {

/// A row of the process list: a group header with its size, or a process
/// (by position) with whether it is selected and whether it falls on an
/// even display row, which the list shades.
#[derive(Debug, Clone, Copy, PartialEq, Eq, Structural)]
pub enum ListRow {
    Header { status: ProcessStatus, count: usize },
    Entry { index: usize, selected: bool, striped: bool },
}

pub open spec fn positions_with(ps: Seq<ProcessView>, status: ProcessStatus) -> Seq<usize> {
    indices_where(ps, |p: ProcessView| p.status == status)
}

/// The rows of one status group when `start` rows precede it: nothing for
/// an empty group, else its header and then its processes in table order.
pub open spec fn group_rows(ps: Seq<ProcessView>, status: ProcessStatus, sel: usize, start: int) -> Seq<ListRow> {
    let idx = positions_with(ps, status);
    if idx.len() == 0 {
        seq![]
    } else {
        seq![ListRow::Header { status: status, count: idx.len() as usize }] + Seq::new(
            idx.len(),
            |k: int| ListRow::Entry { index: idx[k], selected: idx[k] == sel, striped: (start + 1 + k) % 2 == 0 },
        )
    }
}

/// The whole list: the running, sleeping, crashed and stopped groups.
pub open spec fn list_rows_spec(ps: Seq<ProcessView>, sel: usize) -> Seq<ListRow> {
    let r1 = group_rows(ps, ProcessStatus::Running, sel, 0);
    let r2 = group_rows(ps, ProcessStatus::Sleeping, sel, r1.len() as int);
    let r3 = group_rows(ps, ProcessStatus::Crashed, sel, (r1.len() + r2.len()) as int);
    let r4 = group_rows(ps, ProcessStatus::Stopped, sel, (r1.len() + r2.len() + r3.len()) as int);
    r1 + r2 + r3 + r4
}

fn positions(ps: &Vec<ManagedProcess>, status: ProcessStatus) -> (r: Vec<usize>)
    ensures
        r@ == positions_with(ps.deep_view(), status),
        forall|k: int| 0 <= k < r@.len() ==> r@[k] < ps.len(),
{
    let ghost pv = ps.deep_view();
    let ghost f = |p: ProcessView| p.status == status;
    let mut r: Vec<usize> = Vec::new();
    let mut i: usize = 0;
    while i < ps.len()
        invariant
            pv == ps.deep_view(),
            f == (|p: ProcessView| p.status == status),
            i <= ps.len(),
            r@ == indices_where(pv.take(i as int), f),
            forall|k: int| 0 <= k < r@.len() ==> r@[k] < i,
        decreases ps.len() - i,
    {
        proof {
            assert(pv.take(i + 1).drop_last() =~= pv.take(i as int));
            assert(pv.take(i + 1).last() == pv[i as int]);
        }
        if ps[i].status == status {
            r.push(i);
        }
        i = i + 1;
    }
    assert(pv.take(ps.len() as int) =~= pv);
    r
}

fn push_group(rows: &mut Vec<ListRow>, ps: &Vec<ManagedProcess>, status: ProcessStatus, sel: usize)
    requires
        old(rows)@.len() + 1 + ps.len() <= usize::MAX,
    ensures
        final(rows)@ == old(rows)@ + group_rows(ps.deep_view(), status, sel, old(rows)@.len() as int),
        final(rows)@.len() <= old(rows)@.len() + 1 + ps.len(),
{
    let idx = positions(ps, status);
    let ghost start = rows@.len() as int;
    let ghost before = rows@;
    if idx.len() == 0 {
        assert(rows@ =~= before + group_rows(ps.deep_view(), status, sel, start));
        return;
    }
    proof {
        lemma_positions_len(ps.deep_view(), status);
    }
    rows.push(ListRow::Header { status, count: idx.len() });
    let mut k: usize = 0;
    while k < idx.len()
        invariant
            idx@ == positions_with(ps.deep_view(), status),
            idx@.len() <= ps.len(),
            start == before.len(),
            before.len() + 1 + ps.len() <= usize::MAX,
            k <= idx@.len(),
            rows@ == before + seq![ListRow::Header { status: status, count: idx@.len() as usize }] + Seq::new(
                k as nat,
                |j: int| ListRow::Entry { index: idx@[j], selected: idx@[j] == sel, striped: (start + 1 + j) % 2 == 0 },
            ),
        decreases idx@.len() - k,
    {
        let ghost prev = rows@;
        let n = rows.len();
        rows.push(ListRow::Entry { index: idx[k], selected: idx[k] == sel, striped: n % 2 == 0 });
        k = k + 1;
        assert(rows@ =~= before + seq![ListRow::Header { status: status, count: idx@.len() as usize }] + Seq::new(
            k as nat,
            |j: int| ListRow::Entry { index: idx@[j], selected: idx@[j] == sel, striped: (start + 1 + j) % 2 == 0 },
        ));
    }
    assert(rows@ =~= before + group_rows(ps.deep_view(), status, sel, start));
}

proof fn lemma_positions_len(ps: Seq<ProcessView>, status: ProcessStatus)
    ensures
        positions_with(ps, status).len() <= ps.len(),
    decreases ps.len(),
{
    if ps.len() > 0 {
        lemma_positions_len(ps.drop_last(), status);
    }
}

/// The rows the process list shows.
pub fn list_rows(ps: &Vec<ManagedProcess>, selected_index: usize) -> (r: Vec<ListRow>)
    requires
        4 * (ps.len() + 1) <= usize::MAX,
    ensures
        r@ == list_rows_spec(ps.deep_view(), selected_index),
{
    let mut rows: Vec<ListRow> = Vec::new();
    push_group(&mut rows, ps, ProcessStatus::Running, selected_index);
    push_group(&mut rows, ps, ProcessStatus::Sleeping, selected_index);
    push_group(&mut rows, ps, ProcessStatus::Crashed, selected_index);
    push_group(&mut rows, ps, ProcessStatus::Stopped, selected_index);
    assert(rows@ =~= list_rows_spec(ps.deep_view(), selected_index));
    rows
}

// ── Pane texts ─────────────────────────────────────────────────────

/// The process list's title.
pub open spec fn list_title_spec(n: nat) -> Seq<char> {
    " Processes ("@ + dec(n) + ") "@
}

pub fn list_title(n: usize) -> (r: String)
    ensures
        r@ == list_title_spec(n as nat),
{
    let mut r = String::new();
    push_str(&mut r, " Processes (");
    push_dec(&mut r, n as u64);
    push_str(&mut r, ") ");
    assert(r@ =~= list_title_spec(n as nat));
    r
}

/// The log pane's title: the selected process's name and PID, how many
/// lines it has (the larger of the stored total and the lines held), and
/// whether the pane follows new lines.
pub open spec fn log_title_spec(a: AppView) -> Seq<char> {
    match selected(a) {
        Some(p) => {
            let name = if p.command.len() > 0 { p.command[0] } else { "???"@ };
            let count = if a.log_total_lines >= a.log_lines.len() { a.log_total_lines as nat } else { a.log_lines.len() };
            " Logs — "@ + name + " (PID "@ + dec(p.pid as nat) + ") — "@ + dec(count) + " lines"@
                + (if a.log_follow_mode { " ◆FOLLOW"@ } else { " ◇PAUSED"@ }) + " "@
        },
        None => " Logs — (no process selected) "@,
    }
}

pub fn log_title(app: &App) -> (r: String)
    ensures
        r@ == log_title_spec(app.deep_view()),
{
    let ghost a = app.deep_view();
    if app.selected_index < app.processes.len() {
        let p = &app.processes[app.selected_index];
        let name: &str = if p.command.len() > 0 { p.command[0].as_str() } else { "???" };
        let count = if app.log_total_lines >= app.log_lines.len() { app.log_total_lines } else { app.log_lines.len() };
        let mut r = String::new();
        push_str(&mut r, " Logs — ");
        push_str(&mut r, name);
        push_str(&mut r, " (PID ");
        push_dec(&mut r, p.pid as u64);
        push_str(&mut r, ") — ");
        push_dec(&mut r, count as u64);
        push_str(&mut r, " lines");
        push_str(&mut r, if app.log_follow_mode { " ◆FOLLOW" } else { " ◇PAUSED" });
        push_str(&mut r, " ");
        proof {
            assert(a.processes[a.selected_index as int] == p.deep_view());
            assert(a.log_lines.len() == app.log_lines.len());
        }
        assert(r@ =~= log_title_spec(a));
        r
    } else {
        String::from_str(" Logs — (no process selected) ")
    }
}

/// The search line at the foot of the log pane: the query, the position
/// among the hits when there are any, and the stream filter.
pub open spec fn search_line_spec(a: AppView) -> Seq<char> {
    let hits = if a.search_results.len() == 0 {
        seq![]
    } else {
        " ("@ + dec(a.search_idx as nat + 1) + "/"@ + dec(a.search_results.len()) + ")"@
    };
    let filter = match a.filter_stream {
        Some(StreamKind::Stdout) => " [stdout]"@,
        Some(StreamKind::Stderr) => " [stderr]"@,
        None => seq![],
    };
    " /"@ + a.search_query + hits + filter + " "@
}

pub fn search_line(app: &App) -> (r: String)
    requires
        app.search_results.len() > 0 ==> app.search_idx < usize::MAX,
    ensures
        r@ == search_line_spec(app.deep_view()),
{
    let ghost a = app.deep_view();
    let mut r = String::new();
    push_str(&mut r, " /");
    push_str(&mut r, app.search_query.as_str());
    let ghost s0 = r@;
    if app.search_results.len() > 0 {
        push_str(&mut r, " (");
        push_dec(&mut r, (app.search_idx + 1) as u64);
        push_str(&mut r, "/");
        push_dec(&mut r, app.search_results.len() as u64);
        push_str(&mut r, ")");
    }
    let ghost s1 = r@;
    match app.filter_stream {
        Some(StreamKind::Stdout) => push_str(&mut r, " [stdout]"),
        Some(StreamKind::Stderr) => push_str(&mut r, " [stderr]"),
        None => {},
    }
    push_str(&mut r, " ");
    proof {
        assert(a.search_results.len() == app.search_results.len());
    }
    assert(r@ =~= search_line_spec(a));
    r
}

/// The number of running processes.
pub open spec fn running_count(ps: Seq<ProcessView>) -> nat {
    positions_with(ps, ProcessStatus::Running).len()
}

/// The status bar's left part: the key hints (restart and kill only when
/// not read-only), a tick when a tag filter is set, and the follow mode.
pub open spec fn status_left_spec(a: AppView) -> Seq<char> {
    (if a.readonly { " [READONLY]"@ } else { seq![] }) + " [j/k] nav"@
        + (if a.readonly { seq![] } else { "  [r] restart  [x] kill"@ }) + " [t] tag"@
        + (if a.filtered_tag is Some { "✓"@ } else { seq![] }) + " [F3] "@
        + (if a.log_follow_mode { "◆follow"@ } else { "◇pause"@ }) + "  [/] search  [Esc] quit "@
}

pub fn status_left(app: &App) -> (r: String)
    ensures
        r@ == status_left_spec(app.deep_view()),
{
    let mut r = String::new();
    if app.readonly {
        push_str(&mut r, " [READONLY]");
    }
    push_str(&mut r, " [j/k] nav");
    if !app.readonly {
        push_str(&mut r, "  [r] restart  [x] kill");
    }
    push_str(&mut r, " [t] tag");
    if app.filtered_tag.is_some() {
        push_str(&mut r, "✓");
    }
    push_str(&mut r, " [F3] ");
    push_str(&mut r, if app.log_follow_mode { "◆follow" } else { "◇pause" });
    push_str(&mut r, "  [/] search  [Esc] quit ");
    assert(r@ =~= status_left_spec(app.deep_view()));
    r
}

/// The status bar's right part: the tag filter, running and total
/// processes, and the daemon's uptime.
pub open spec fn status_right_spec(a: AppView) -> Seq<char> {
    (match a.filtered_tag {
        Some(t) => " tag:"@ + t,
        None => seq![],
    }) + dec(running_count(a.processes)) + "/"@ + dec(a.processes.len()) + " running  │ daemon "@
        + uptime_text(a.daemon_uptime_secs as nat)
}

pub fn status_right(app: &App) -> (r: String)
    ensures
        r@ == status_right_spec(app.deep_view()),
{
    let ghost a = app.deep_view();
    let mut r = String::new();
    match &app.filtered_tag {
        Some(t) => {
            push_str(&mut r, " tag:");
            push_str(&mut r, t.as_str());
        },
        None => {},
    }
    let running = positions(&app.processes, ProcessStatus::Running);
    proof {
        lemma_positions_len(a.processes, ProcessStatus::Running);
    }
    push_dec(&mut r, running.len() as u64);
    push_str(&mut r, "/");
    push_dec(&mut r, app.processes.len() as u64);
    push_str(&mut r, " running  │ daemon ");
    let up = format_uptime(app.daemon_uptime_secs);
    push_str(&mut r, up.as_str());
    assert(r@ =~= status_right_spec(a));
    r
}

} // verus!

verus! {

/// A process's name with its directory: `name (dir)`, or the name alone
/// when the directory name is empty.
pub open spec fn name_with_dir(name: Seq<char>, dir: Seq<char>) -> Seq<char> {
    if dir.len() == 0 { name } else { name + " ("@ + dir + ")"@ }
}

/// The characters that make up the first 19 bytes of `s`.
pub open spec fn chars_in_19_bytes(s: Seq<char>) -> int {
    choose|n: int| 0 <= n <= s.len() && crate::theme::utf8_prefix_len(s, n) == 19
}

/// The sidebar's label for a process: names longer than 20 bytes keep
/// their first 19 bytes and end in `…`.
pub open spec fn name_label_spec(name: Seq<char>, dir: Seq<char>) -> Seq<char> {
    let s = name_with_dir(name, dir);
    if crate::theme::utf8_len(s) > 20 { s.take(chars_in_19_bytes(s)) + "…"@ } else { s }
}

/// Whether cutting the label at byte 19 would split a character.
pub open spec fn label_cut_fails(name: Seq<char>, dir: Seq<char>) -> bool {
    let s = name_with_dir(name, dir);
    crate::theme::utf8_len(s) > 20 && !crate::theme::is_boundary(s, 19)
}

proof fn lemma_prefix_strict(s: Seq<char>, m: int, n: int)
    requires
        0 <= m < n <= s.len(),
    ensures
        crate::theme::utf8_prefix_len(s, m) < crate::theme::utf8_prefix_len(s, n),
    decreases n - m,
{
    if m < n - 1 {
        lemma_prefix_strict(s, m, n - 1);
    }
}

/// The label of a process named `name` whose directory is called `dir`.
pub fn name_label(name: &str, dir: &str) -> (r: String)
    requires
        !label_cut_fails(name@, dir@),
    ensures
        r@ == name_label_spec(name@, dir@),
{
    let mut full = String::new();
    push_str(&mut full, name);
    let no_dir = crate::text::str_eq(dir, "");
    proof {
        reveal_strlit("");
        assert(""@ =~= Seq::<char>::empty());
        if dir@.len() == 0 {
            assert(dir@ =~= ""@);
        }
    }
    if !no_dir {
        push_str(&mut full, " (");
        push_str(&mut full, dir);
        push_str(&mut full, ")");
    }
    let ghost s = name_with_dir(name@, dir@);
    assert(full@ =~= s);
    let v = crate::text::chars_of(full.as_str());
    let mut len: usize = 0;
    let mut n: usize = 0;
    let mut cut: usize = 0;
    while n < v.len() && len <= 20
        invariant
            v@ == s,
            n <= v.len(),
            len == crate::theme::utf8_prefix_len(s, n as int),
            len <= 24,
            cut <= n,
            (exists|m: int| 0 <= m <= n && crate::theme::utf8_prefix_len(s, m) == 19)
                ==> crate::theme::utf8_prefix_len(s, cut as int) == 19,
        decreases v.len() - n,
    {
        let c = v[n];
        let w: usize = if (c as u32) < 0x80 { 1 } else if (c as u32) < 0x800 { 2 } else if (c as u32) < 0x10000 { 3 } else { 4 };
        assert(w == crate::theme::utf8_width(c));
        let ghost old_cut = cut;
        let ghost old_n = n;
        len = len + w;
        n = n + 1;
        if len == 19 {
            cut = n;
        }
        proof {
            if exists|m: int| 0 <= m <= n && crate::theme::utf8_prefix_len(s, m) == 19 {
                let m = choose|m: int| 0 <= m <= n && crate::theme::utf8_prefix_len(s, m) == 19;
                if m < n {
                    assert(0 <= m <= old_n);
                }
            }
        }
    }
    if len > 20 {
        proof {
            crate::theme::lemma_prefix_len_mono(s, n as int, s.len() as int);
            assert(crate::theme::is_boundary(s, 19));
            let m = choose|m: int| 0 <= m <= s.len() && crate::theme::utf8_prefix_len(s, m) == 19;
            if m > n {
                lemma_prefix_strict(s, n as int, m);
            }
            assert(m <= n);
            assert(crate::theme::utf8_prefix_len(s, cut as int) == 19);
            let k = chars_in_19_bytes(s);
            if k < cut {
                lemma_prefix_strict(s, k, cut as int);
            }
            if k > cut {
                lemma_prefix_strict(s, cut as int, k);
            }
            assert(k == cut);
        }
        let head = crate::scan::sub_chars(&v, 0, cut);
        let mut r = crate::text::string_from_chars(&head);
        push_str(&mut r, "…");
        assert(v@.subrange(0, cut as int) =~= s.take(cut as int));
        assert(r@ =~= name_label_spec(name@, dir@));
        r
    } else {
        proof {
            if n < v.len() {
                assert(false);
            }
            assert(crate::theme::utf8_len(s) == len);
        }
        full
    }
}

} // verus!

verus! {

/// Whether `name_label` can cut the label (no character spans byte 19 of
/// a label longer than 20 bytes).
pub fn label_cut_is_safe(name: &str, dir: &str) -> (r: bool)
    ensures
        r == !label_cut_fails(name@, dir@),
{
    let mut full = String::new();
    push_str(&mut full, name);
    let no_dir = crate::text::str_eq(dir, "");
    proof {
        reveal_strlit("");
        assert(""@ =~= Seq::<char>::empty());
        if dir@.len() == 0 {
            assert(dir@ =~= ""@);
        }
    }
    if !no_dir {
        push_str(&mut full, " (");
        push_str(&mut full, dir);
        push_str(&mut full, ")");
    }
    let ghost s = name_with_dir(name@, dir@);
    assert(full@ =~= s);
    let v = crate::text::chars_of(full.as_str());
    let mut len: usize = 0;
    let mut n: usize = 0;
    let mut at19 = false;
    while n < v.len() && len <= 20
        invariant
            v@ == s,
            n <= v.len(),
            len == crate::theme::utf8_prefix_len(s, n as int),
            len <= 24,
            at19 == exists|m: int| 0 <= m <= n && crate::theme::utf8_prefix_len(s, m) == 19,
        decreases v.len() - n,
    {
        let c = v[n];
        let w: usize = if (c as u32) < 0x80 { 1 } else if (c as u32) < 0x800 { 2 } else if (c as u32) < 0x10000 { 3 } else { 4 };
        assert(w == crate::theme::utf8_width(c));
        let ghost old_n = n;
        let ghost old_at = at19;
        len = len + w;
        n = n + 1;
        if len == 19 {
            at19 = true;
        }
        proof {
            if old_at {
                let m = choose|m: int| 0 <= m <= old_n && crate::theme::utf8_prefix_len(s, m) == 19;
                assert(0 <= m <= n);
            }
            if len == 19 {
                assert(crate::theme::utf8_prefix_len(s, n as int) == 19);
            }
            assert forall|m: int| 0 <= m <= n && crate::theme::utf8_prefix_len(s, m) == 19 implies at19 by {
                if m < n {
                    assert(0 <= m <= old_n);
                }
            }
        }
    }
    if len > 20 {
        proof {
            crate::theme::lemma_prefix_len_mono(s, n as int, s.len() as int);
            if crate::theme::is_boundary(s, 19) {
                let m = choose|m: int| 0 <= m <= s.len() && crate::theme::utf8_prefix_len(s, m) == 19;
                if m > n {
                    lemma_prefix_strict(s, n as int, m);
                }
            }
        }
        at19
    } else {
        proof {
            if n < v.len() {
                assert(false);
            }
        }
        true
    }
}

} // verus!

verus! {

proof fn lemma_positions_cover(ps: Seq<ProcessView>, status: ProcessStatus, i: int)
    requires
        0 <= i < ps.len(),
        ps.len() <= usize::MAX,
        ps[i].status == status,
    ensures
        exists|k: int| 0 <= k < positions_with(ps, status).len() && positions_with(ps, status)[k] == i,
    decreases ps.len(),
{
    let p = ps.drop_last();
    if i < ps.len() - 1 {
        assert(p[i] == ps[i]);
        lemma_positions_cover(p, status, i);
        let k = choose|k: int| 0 <= k < positions_with(p, status).len() && positions_with(p, status)[k] == i;
        assert(positions_with(ps, status)[k] == i);
    } else {
        let r = positions_with(ps, status);
        let f = |q: ProcessView| q.status == status;
        assert(ps.last() == ps[i]);
        assert(f(ps.last()));
        assert(r == indices_where(p, f).push((ps.len() - 1) as usize));
        assert(r[r.len() - 1] == i);
    }
}

proof fn lemma_group_has(ps: Seq<ProcessView>, status: ProcessStatus, sel: usize, start: int, i: int)
    requires
        0 <= i < ps.len(),
        ps.len() <= usize::MAX,
        ps[i].status == status,
    ensures
        exists|k: int| 0 <= k < group_rows(ps, status, sel, start).len()
            && (#[trigger] group_rows(ps, status, sel, start)[k] matches ListRow::Entry { index, selected, .. }
                && index == i && selected == (i == sel as int)),
{
    lemma_positions_cover(ps, status, i);
    let idx = positions_with(ps, status);
    let k = choose|k: int| 0 <= k < idx.len() && idx[k] == i;
    let g = group_rows(ps, status, sel, start);
    assert(g[k + 1] == ListRow::Entry { index: idx[k], selected: idx[k] == sel, striped: (start + 1 + k) % 2 == 0 });
}

/// The process list shows every process of the table, marked selected
/// exactly when it is the selection.
pub proof fn law_every_process_listed(ps: Seq<ProcessView>, sel: usize, i: int)
    requires
        0 <= i < ps.len(),
        ps.len() <= usize::MAX,
    ensures
        exists|k: int| 0 <= k < list_rows_spec(ps, sel).len()
            && (#[trigger] list_rows_spec(ps, sel)[k] matches ListRow::Entry { index, selected, .. }
                && index == i && selected == (i == sel as int)),
{
    let r1 = group_rows(ps, ProcessStatus::Running, sel, 0);
    let r2 = group_rows(ps, ProcessStatus::Sleeping, sel, r1.len() as int);
    let r3 = group_rows(ps, ProcessStatus::Crashed, sel, (r1.len() + r2.len()) as int);
    let r4 = group_rows(ps, ProcessStatus::Stopped, sel, (r1.len() + r2.len() + r3.len()) as int);
    let all = list_rows_spec(ps, sel);
    assert(all == r1 + r2 + r3 + r4);
    match ps[i].status {
        ProcessStatus::Running => {
            lemma_group_has(ps, ProcessStatus::Running, sel, 0, i);
            let k = choose|k: int| 0 <= k < r1.len() && (#[trigger] r1[k] matches ListRow::Entry { index, selected, .. }
                && index == i && selected == (i == sel as int));
            assert(all[k] == r1[k]);
        },
        ProcessStatus::Sleeping => {
            lemma_group_has(ps, ProcessStatus::Sleeping, sel, r1.len() as int, i);
            let k = choose|k: int| 0 <= k < r2.len() && (#[trigger] r2[k] matches ListRow::Entry { index, selected, .. }
                && index == i && selected == (i == sel as int));
            assert(all[r1.len() + k] == r2[k]);
        },
        ProcessStatus::Crashed => {
            lemma_group_has(ps, ProcessStatus::Crashed, sel, (r1.len() + r2.len()) as int, i);
            let k = choose|k: int| 0 <= k < r3.len() && (#[trigger] r3[k] matches ListRow::Entry { index, selected, .. }
                && index == i && selected == (i == sel as int));
            assert(all[r1.len() + r2.len() + k] == r3[k]);
        },
        ProcessStatus::Stopped => {
            lemma_group_has(ps, ProcessStatus::Stopped, sel, (r1.len() + r2.len() + r3.len()) as int, i);
            let k = choose|k: int| 0 <= k < r4.len() && (#[trigger] r4[k] matches ListRow::Entry { index, selected, .. }
                && index == i && selected == (i == sel as int));
            assert(all[r1.len() + r2.len() + r3.len() + k] == r4[k]);
        },
    }
}

// ── The process card ───────────────────────────────────────────────

/// `parts` joined with `sep` between each two (`[..].join(sep)`).
pub open spec fn joined(parts: Seq<Seq<char>>, sep: Seq<char>) -> Seq<char>
    decreases parts.len(),
{
    if parts.len() == 0 {
        seq![]
    } else if parts.len() == 1 {
        parts[0]
    } else {
        joined(parts.drop_last(), sep) + sep + parts.last()
    }
}

fn join_strings(parts: &Vec<String>, sep: &str) -> (r: String)
    ensures
        r@ == joined(parts.deep_view(), sep@),
{
    let ghost pv = parts.deep_view();
    let mut r = String::new();
    let mut i: usize = 0;
    while i < parts.len()
        invariant
            pv == parts.deep_view(),
            i <= parts.len(),
            r@ == joined(pv.take(i as int), sep@),
        decreases parts.len() - i,
    {
        assert(pv.take(i + 1).drop_last() =~= pv.take(i as int));
        assert(pv.take(i + 1).last() == parts@[i as int]@);
        if i > 0 {
            push_str(&mut r, sep);
        } else {
            assert(r@ =~= seq![]);
        }
        push_str(&mut r, parts[i].as_str());
        i = i + 1;
        assert(r@ =~= joined(pv.take(i as int), sep@));
    }
    assert(pv.take(i as int) =~= pv);
    r
}

/// The health mark beside the name: none without a health check, else
/// healthy or unhealthy.
pub open spec fn health_label_spec(p: ProcessView) -> Seq<char> {
    if p.health_check is Some {
        if p.health_ok { "  ✓ Healthy"@ } else { "  ✗ Unhealthy"@ }
    } else {
        ""@
    }
}

pub fn health_label(p: &ManagedProcess) -> (r: &'static str)
    ensures
        r@ == health_label_spec(p.deep_view()),
{
    if p.health_check.is_some() {
        if p.health_ok { "  ✓ Healthy" } else { "  ✗ Unhealthy" }
    } else {
        ""
    }
}

/// The tags, comma-separated, or `none`.
pub open spec fn tags_text_spec(p: ProcessView) -> Seq<char> {
    if p.tags.len() == 0 { "none"@ } else { joined(p.tags, ", "@) }
}

pub fn tags_text(p: &ManagedProcess) -> (r: String)
    ensures
        r@ == tags_text_spec(p.deep_view()),
{
    if p.tags.len() == 0 {
        String::from_str("none")
    } else {
        join_strings(&p.tags, ", ")
    }
}

/// The command line, its words separated by spaces.
pub open spec fn command_text_spec(p: ProcessView) -> Seq<char> {
    joined(p.command, " "@)
}

pub fn command_text(p: &ManagedProcess) -> (r: String)
    ensures
        r@ == command_text_spec(p.deep_view()),
{
    join_strings(&p.command, " ")
}

/// How many environment variables the card lists.
pub const ENV_SHOWN: usize = 12;

/// One `NAME=value` line per variable.
pub open spec fn env_entries(env: Seq<(Seq<char>, Seq<char>)>) -> Seq<Seq<char>> {
    Seq::new(env.len(), |i: int| env[i].0 + "="@ + env[i].1)
}

/// The environment block: the first twelve variables one per line, then
/// ` (+n more)` when `n` more are set.
pub open spec fn env_text_spec(p: ProcessView) -> Seq<char> {
    let env = p.env_vars;
    let shown = joined(env_entries(env.take(if env.len() > ENV_SHOWN { ENV_SHOWN as int } else { env.len() as int })), "\n"@);
    if env.len() > ENV_SHOWN {
        shown + " (+"@ + dec((env.len() - ENV_SHOWN) as nat) + " more)"@
    } else {
        shown
    }
}

pub fn env_text(p: &ManagedProcess) -> (r: String)
    ensures
        r@ == env_text_spec(p.deep_view()),
{
    let ghost ev = p.env_vars.deep_view();
    let n = if p.env_vars.len() > ENV_SHOWN { ENV_SHOWN } else { p.env_vars.len() };
    let mut lines: Vec<String> = Vec::new();
    let mut i: usize = 0;
    while i < n
        invariant
            ev == p.env_vars.deep_view(),
            n <= p.env_vars.len(),
            i <= n,
            lines.deep_view() == env_entries(ev.take(i as int)),
        decreases n - i,
    {
        let ghost before = lines.deep_view();
        let mut line = String::new();
        push_str(&mut line, p.env_vars[i].0.as_str());
        push_str(&mut line, "=");
        push_str(&mut line, p.env_vars[i].1.as_str());
        let ghost e = ev[i as int];
        assert(e == (p.env_vars@[i as int].0@, p.env_vars@[i as int].1@));
        assert(line@ == e.0 + "="@ + e.1);
        lines.push(line);
        assert(lines.deep_view() =~= before.push(e.0 + "="@ + e.1));
        i = i + 1;
        assert(lines.deep_view() =~= env_entries(ev.take(i as int)));
    }
    let mut r = join_strings(&lines, "\n");
    if p.env_vars.len() > ENV_SHOWN {
        push_str(&mut r, " (+");
        push_dec(&mut r, (p.env_vars.len() - ENV_SHOWN) as u64);
        push_str(&mut r, " more)");
    }
    r
}

} // verus!
