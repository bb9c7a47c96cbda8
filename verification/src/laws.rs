//! Properties of the library that hold across calls and for every input:
//! bounded buffers, the read-only dashboard and its well-formedness, the
//! tag picker's list, the theme slot, log colouring, text splitting,
//! health probing, reloaded process records, run settings and pruning.
use vstd::prelude::*;
use crate::ansi::{
    apply_from, apply_param, apply_params, indexed_at, default_text_style, TermColor, first_match, is_esc, line_segments, no_attributes, SgrState,
};
use crate::app::{
    insert_sorted, key_step, push_notification, sorted_tag_list, AppView, NotifKind, MAX_NOTIFICATIONS,
};
use crate::text::seq_lt;
use crate::daemon::{health_decision, reloaded};
use crate::protocol::{ClientMessageView, ProcessStatus, ProcessView, ring_push, MAX_LOG_LINES};
use crate::scan::{is_ws, line_fold, lines_of, word_fold, words_of};
use crate::theme::{palette, Theme, ThemeColors};

verus! {

/// A process's in-memory log never holds more than `MAX_LOG_LINES`
/// lines, and the line that arrives last is always its newest.
pub proof fn law_log_ring_bounded<T>(lines: Seq<T>, line: T)
    requires
        lines.len() <= MAX_LOG_LINES,
    ensures
        ring_push(lines, line).len() <= MAX_LOG_LINES,
        ring_push(lines, line).last() == line,
        lines.len() < MAX_LOG_LINES ==> ring_push(lines, line) == lines.push(line),
{
}

/// The notification panel never holds more than `MAX_NOTIFICATIONS`
/// entries, and the newest is the one just pushed.
pub proof fn law_notifications_bounded(a: AppView, kind: NotifKind, msg: Seq<char>, now: u64)
    requires
        a.notifications.len() <= MAX_NOTIFICATIONS,
    ensures
        push_notification(a, kind, msg, now).notifications.len() <= MAX_NOTIFICATIONS,
        push_notification(a, kind, msg, now).notifications.last().message == msg,
        push_notification(a, kind, msg, now).notifications.last().kind == kind,
{
}

/// Whether a queued command acts on a process's life.
pub open spec fn is_lifecycle_command(m: ClientMessageView) -> bool {
    m is KillProcess || m is RestartProcess
}

/// A read-only dashboard never asks the daemon to kill or restart a
/// process, and never starts a kill confirmation: whatever key arrives,
/// the commands it queues are of other kinds.
pub proof fn law_readonly_never_kills(a: AppView, k: crate::app::KeyEvent, now: u64)
    requires
        a.readonly,
        a.confirm_kill is None,
    ensures
        key_step(a, k, now).confirm_kill is None,
        a.outbox.len() <= key_step(a, k, now).outbox.len(),
        key_step(a, k, now).outbox.subrange(0, a.outbox.len() as int) == a.outbox,
        forall|i: int| a.outbox.len() <= i < key_step(a, k, now).outbox.len()
            ==> !is_lifecycle_command(#[trigger] key_step(a, k, now).outbox[i]),
{
    let b = key_step(a, k, now);
    assert(b.outbox.subrange(0, a.outbox.len() as int) =~= a.outbox);
}

/// What a theme slot holds after an `init` with `theme`.
pub open spec fn after_init(slot: Option<ThemeColors>, theme: Theme) -> Option<ThemeColors> {
    match slot {
        Some(c) => Some(c),
        None => Some(palette(theme)),
    }
}

/// The first theme installed stays installed: a second `init` changes
/// nothing.
pub proof fn law_first_theme_wins(slot: Option<ThemeColors>, first: Theme, second: Theme)
    ensures
        after_init(after_init(slot, first), second) == after_init(slot, first),
        slot is None ==> after_init(after_init(slot, first), second) == Some(palette(first)),
{
}

/// An SGR `0` parameter clears every attribute, whatever was set before.
pub proof fn law_sgr_reset_clears(st: SgrState)
    ensures
        apply_param(st, seq!['0']) == no_attributes(),
        apply_params(st, seq![seq!['0']]) == no_attributes(),
{
    assert(seq!['0'].len() == 1);
    assert(!indexed_at(seq![seq!['0']], 0));
    assert(apply_from(no_attributes(), seq![seq!['0']], 1) == no_attributes());
}

/// A non-empty log line with no escape sequence is shown as one segment
/// of the default text colour.
pub proof fn law_plain_line_one_segment(line: Seq<char>)
    requires
        line.len() > 0,
        forall|i: int| 0 <= i < line.len() ==> line[i] != '\x1b',
    ensures
        line_segments(line) == seq![(default_text_style(), line)],
{
    lemma_no_esc(line);
}

proof fn lemma_no_esc(s: Seq<char>)
    requires
        forall|i: int| 0 <= i < s.len() ==> s[i] != '\x1b',
    ensures
        first_match(s, |c: char| is_esc(c)) is None,
    decreases s.len(),
{
    if s.len() > 0 {
        let t = s.drop_first();
        assert forall|i: int| 0 <= i < t.len() implies t[i] != '\x1b' by {
            assert(t[i] == s[i + 1]);
        }
        lemma_no_esc(t);
    }
}

proof fn lemma_word_fold(s: Seq<char>)
    ensures
        forall|i: int| 0 <= i < word_fold(s).0.len() ==> (#[trigger] word_fold(s).0[i]).len() > 0,
        forall|i: int, j: int| 0 <= i < word_fold(s).0.len() && 0 <= j < word_fold(s).0[i].len()
            ==> !is_ws(#[trigger] word_fold(s).0[i][j]),
        forall|j: int| 0 <= j < word_fold(s).1.len() ==> !is_ws(#[trigger] word_fold(s).1[j]),
    decreases s.len(),
{
    if s.len() > 0 {
        let p = s.drop_last();
        lemma_word_fold(p);
        let (done, cur) = word_fold(p);
        let c = s.last();
        if is_ws(c) {
            if cur.len() > 0 {
                let nd = done.push(cur);
                assert(word_fold(s).0 == nd);
                assert forall|i: int| 0 <= i < nd.len() implies (#[trigger] nd[i]).len() > 0 by {
                    if i < done.len() {
                        assert(nd[i] == done[i]);
                    }
                }
                assert forall|i: int, j: int| 0 <= i < nd.len() && 0 <= j < nd[i].len()
                    implies !is_ws(#[trigger] nd[i][j]) by {
                    if i < done.len() {
                        assert(nd[i] == done[i]);
                    }
                }
            }
        } else {
            let nc = cur.push(c);
            assert(word_fold(s).1 == nc);
            assert forall|j: int| 0 <= j < nc.len() implies !is_ws(#[trigger] nc[j]) by {
                if j < cur.len() {
                    assert(nc[j] == cur[j]);
                }
            }
        }
    }
}

/// `split_whitespace` yields non-empty words without whitespace.
pub proof fn law_words_have_no_whitespace(s: Seq<char>)
    ensures
        forall|i: int| 0 <= i < words_of(s).len() ==> (#[trigger] words_of(s)[i]).len() > 0,
        forall|i: int, j: int| 0 <= i < words_of(s).len() && 0 <= j < words_of(s)[i].len()
            ==> !is_ws(#[trigger] words_of(s)[i][j]),
{
    lemma_word_fold(s);
}

proof fn lemma_line_fold(s: Seq<char>)
    ensures
        forall|i: int, j: int| 0 <= i < line_fold(s).0.len() && 0 <= j < line_fold(s).0[i].len()
            ==> #[trigger] line_fold(s).0[i][j] != '\n',
        forall|j: int| 0 <= j < line_fold(s).1.len() ==> #[trigger] line_fold(s).1[j] != '\n',
    decreases s.len(),
{
    if s.len() > 0 {
        let p = s.drop_last();
        lemma_line_fold(p);
        let (done, cur) = line_fold(p);
        let c = s.last();
        if c == '\n' {
            let line = crate::scan::strip_cr(cur);
            let nd = done.push(line);
            assert(line_fold(s).0 == nd);
            assert forall|j: int| 0 <= j < line.len() implies line[j] != '\n' by {
                assert(line[j] == cur[j]);
            }
            assert forall|i: int, j: int| 0 <= i < nd.len() && 0 <= j < nd[i].len()
                implies #[trigger] nd[i][j] != '\n' by {
                if i < done.len() {
                    assert(nd[i] == done[i]);
                }
            }
        } else {
            let nc = cur.push(c);
            assert(line_fold(s).1 == nc);
            assert forall|j: int| 0 <= j < nc.len() implies #[trigger] nc[j] != '\n' by {
                if j < cur.len() {
                    assert(nc[j] == cur[j]);
                }
            }
        }
    }
}

/// `lines` yields lines without a line feed.
pub proof fn law_lines_have_no_newline(s: Seq<char>)
    ensures
        forall|i: int, j: int| 0 <= i < lines_of(s).len() && 0 <= j < lines_of(s)[i].len()
            ==> #[trigger] lines_of(s)[i][j] != '\n',
{
    lemma_line_fold(s);
}

/// The failure count and restart decision after a run of probe results,
/// starting from `failures`.
pub open spec fn probe_run(failures: u32, results: Seq<bool>, max_failures: u32) -> (u32, bool)
    decreases results.len(),
{
    if results.len() == 0 {
        (failures, false)
    } else {
        let (f, _) = probe_run(failures, results.drop_last(), max_failures);
        health_decision(f, results.last(), max_failures)
    }
}

/// A health check restarts its process on exactly the `max_failures`-th
/// consecutive failure: `k` failures in a row from a fresh start count
/// `k`, and restart exactly when `k` reaches the limit.
pub proof fn law_restart_after_consecutive_failures(k: nat, max_failures: u32)
    requires
        1 <= k <= max_failures,
    ensures
        probe_run(0, Seq::new(k, |i: int| false), max_failures)
            == ((k as u32), k == max_failures as nat),
    decreases k,
{
    let s = Seq::new(k, |i: int| false);
    assert(s.last() == false);
    if k > 1 {
        let t = Seq::new((k - 1) as nat, |i: int| false);
        law_restart_after_consecutive_failures((k - 1) as nat, max_failures);
        assert(s.drop_last() =~= t);
        assert(probe_run(0, s.drop_last(), max_failures) == (((k - 1) as nat) as u32, (k - 1) as nat == max_failures as nat));
    } else {
        assert(s.drop_last() =~= Seq::<bool>::empty());
        assert(probe_run(0, s.drop_last(), max_failures) == (0u32, false));
    }
}

/// A success clears the failure count, and then only a limit of zero
/// restarts.
pub proof fn law_success_resets_failures(failures: u32, max_failures: u32)
    ensures
        health_decision(failures, true, max_failures) == (0u32, max_failures == 0),
{
}

/// No environment variable is set twice in a process's record, nor in the
/// registration that respawns it, when none is set twice in the
/// registration it came from.
pub proof fn law_env_keys_stay_distinct(id: crate::protocol::ProcessId, pid: u32, reg: crate::protocol::RegistrationView, now: u64)
    requires
        crate::protocol::env_keys_distinct(reg.env_vars),
    ensures
        crate::protocol::env_keys_distinct(crate::protocol::registered_view(id, pid, reg, now).env_vars),
        crate::protocol::env_keys_distinct(
            crate::daemon::respawn_view(crate::protocol::registered_view(id, pid, reg, now)).env_vars,
        ),
{
}

/// Writing the table is tried at most three times: every attempt from the
/// third on ends the loop, whatever its outcome, and a retry follows only a
/// failure, after a wait that grows with each attempt.
pub proof fn law_save_attempts_bounded(attempt: u64, ok: bool)
    ensures
        attempt >= crate::daemon::SAVE_ATTEMPTS ==> !(crate::daemon::save_decision(attempt, ok) is RetryAfter),
        crate::daemon::save_decision(attempt, ok) is RetryAfter ==> !ok && attempt < crate::daemon::SAVE_ATTEMPTS,
        ok ==> crate::daemon::save_decision(attempt, ok) == crate::daemon::SaveAction::Done,
        crate::daemon::save_decision(attempt, ok) matches crate::daemon::SaveAction::RetryAfter(ms) ==> ms == 100 * attempt,
{
}

/// A record reloaded from disk is running only with a live, nonzero PID;
/// otherwise a record saved as running comes back crashed.
pub proof fn law_reloaded_running_has_pid(p: ProcessView, pid_alive: bool)
    ensures
        reloaded(p, pid_alive).status == ProcessStatus::Running ==> reloaded(p, pid_alive).pid > 0 && pid_alive,
        p.status == ProcessStatus::Running && !(p.pid > 0 && pid_alive)
            ==> reloaded(p, pid_alive).status == ProcessStatus::Crashed,
        p.status != ProcessStatus::Running ==> reloaded(p, pid_alive) == p,
{
}

} // verus!

verus! {

proof fn lemma_char_code_injective(x: char, y: char)
    requires
        x != y,
    ensures
        (x as u32) != (y as u32),
{
    assert(x == (x as u32) as char);
    assert(y == (y as u32) as char);
}

proof fn lemma_seq_lt_irreflexive(a: Seq<char>)
    ensures
        !seq_lt(a, a),
    decreases a.len(),
{
    if a.len() > 0 {
        lemma_seq_lt_irreflexive(a.drop_first());
    }
}

proof fn lemma_seq_lt_transitive(a: Seq<char>, b: Seq<char>, c: Seq<char>)
    requires
        seq_lt(a, b),
        seq_lt(b, c),
    ensures
        seq_lt(a, c),
    decreases a.len(),
{
    if a.len() > 0 && b.len() > 0 && c.len() > 0 && a[0] == b[0] && b[0] == c[0] {
        lemma_seq_lt_transitive(a.drop_first(), b.drop_first(), c.drop_first());
    }
}

proof fn lemma_seq_lt_total(a: Seq<char>, b: Seq<char>)
    requires
        a != b,
    ensures
        seq_lt(a, b) || seq_lt(b, a),
    decreases a.len(),
{
    if a.len() > 0 && b.len() > 0 && a[0] == b[0] {
        if a.drop_first() == b.drop_first() {
            assert(a =~= seq![a[0]] + a.drop_first());
            assert(b =~= seq![b[0]] + b.drop_first());
        }
        lemma_seq_lt_total(a.drop_first(), b.drop_first());
    } else if a.len() == 0 && b.len() == 0 {
        assert(a =~= b);
    } else if a.len() > 0 && b.len() > 0 {
        lemma_char_code_injective(a[0], b[0]);
    }
}

/// Each tag sorts strictly before every tag after it.
pub open spec fn strictly_sorted(v: Seq<Seq<char>>) -> bool {
    forall|i: int, j: int| 0 <= i < j < v.len() ==> seq_lt(#[trigger] v[i], #[trigger] v[j])
}

proof fn lemma_insert_sorted(v: Seq<Seq<char>>, t: Seq<char>)
    requires
        strictly_sorted(v),
    ensures
        strictly_sorted(insert_sorted(v, t)),
        forall|x: Seq<char>| #[trigger] insert_sorted(v, t).contains(x) <==> (v.contains(x) || x == t),
    decreases v.len(),
{
    if v.len() == 0 {
        let r = insert_sorted(v, t);
        assert(r =~= seq![t]);
        assert forall|x: Seq<char>| r.contains(x) <==> (v.contains(x) || x == t) by {
            if r.contains(x) {
                let k = choose|k: int| 0 <= k < r.len() && r[k] == x;
                assert(k == 0);
            }
            if x == t {
                assert(r[0] == t);
            }
        }
    } else if v[0] == t {
        assert forall|x: Seq<char>| v.contains(x) <==> (v.contains(x) || x == t) by {
            if x == t {
                assert(v[0] == x);
            }
        }
    } else if seq_lt(t, v[0]) {
        let r = seq![t] + v;
        assert forall|i: int, j: int| 0 <= i < j < r.len() implies seq_lt(#[trigger] r[i], #[trigger] r[j]) by {
            if i == 0 {
                if j > 1 {
                    lemma_seq_lt_transitive(t, v[0], v[j - 1]);
                }
            } else {
                assert(r[i] == v[i - 1] && r[j] == v[j - 1]);
            }
        }
        assert forall|x: Seq<char>| r.contains(x) <==> (v.contains(x) || x == t) by {
            if r.contains(x) {
                let k = choose|k: int| 0 <= k < r.len() && r[k] == x;
                if k > 0 {
                    assert(v[k - 1] == x);
                }
            }
            if v.contains(x) {
                let k = choose|k: int| 0 <= k < v.len() && v[k] == x;
                assert(r[k + 1] == x);
            }
            if x == t {
                assert(r[0] == t);
            }
        }
    } else {
        lemma_seq_lt_total(t, v[0]);
        let rest = v.drop_first();
        assert forall|i: int, j: int| 0 <= i < j < rest.len() implies seq_lt(#[trigger] rest[i], #[trigger] rest[j]) by {
            assert(rest[i] == v[i + 1] && rest[j] == v[j + 1]);
        }
        lemma_insert_sorted(rest, t);
        let ins = insert_sorted(rest, t);
        let r = seq![v[0]] + ins;
        assert forall|i: int, j: int| 0 <= i < j < r.len() implies seq_lt(#[trigger] r[i], #[trigger] r[j]) by {
            if i == 0 {
                let y = r[j];
                assert(ins[j - 1] == y);
                assert(ins.contains(y));
                if rest.contains(y) {
                    let k = choose|k: int| 0 <= k < rest.len() && rest[k] == y;
                    assert(v[k + 1] == y);
                }
            } else {
                assert(r[i] == ins[i - 1] && r[j] == ins[j - 1]);
            }
        }
        assert forall|x: Seq<char>| r.contains(x) <==> (v.contains(x) || x == t) by {
            if r.contains(x) {
                let k = choose|k: int| 0 <= k < r.len() && r[k] == x;
                if k > 0 {
                    assert(ins[k - 1] == x);
                    assert(ins.contains(x));
                    if rest.contains(x) {
                        let m = choose|m: int| 0 <= m < rest.len() && rest[m] == x;
                        assert(v[m + 1] == x);
                    }
                } else {
                    assert(v[0] == x);
                }
            }
            if v.contains(x) {
                let k = choose|k: int| 0 <= k < v.len() && v[k] == x;
                if k == 0 {
                    assert(r[0] == x);
                } else {
                    assert(rest[k - 1] == x);
                    assert(rest.contains(x));
                    assert(ins.contains(x));
                    let m = choose|m: int| 0 <= m < ins.len() && ins[m] == x;
                    assert(r[m + 1] == x);
                }
            }
            if x == t {
                assert(ins.contains(x));
                let m = choose|m: int| 0 <= m < ins.len() && ins[m] == x;
                assert(r[m + 1] == x);
            }
        }
    }
}

/// The tag picker lists every tag of the given ones exactly once, in
/// sorted order: its list is strictly sorted, so it holds no tag twice,
/// and a tag is in it exactly when it is among the given ones.
pub proof fn law_tag_list_sorted_and_complete(ts: Seq<Seq<char>>)
    ensures
        strictly_sorted(sorted_tag_list(ts)),
        forall|i: int, j: int| 0 <= i < j < sorted_tag_list(ts).len()
            ==> sorted_tag_list(ts)[i] != sorted_tag_list(ts)[j],
        forall|x: Seq<char>| sorted_tag_list(ts).contains(x) <==> ts.contains(x),
    decreases ts.len(),
{
    if ts.len() > 0 {
        let p = ts.drop_last();
        law_tag_list_sorted_and_complete(p);
        lemma_insert_sorted(sorted_tag_list(p), ts.last());
        assert forall|x: Seq<char>| sorted_tag_list(ts).contains(x) <==> ts.contains(x) by {
            if p.contains(x) {
                let k = choose|k: int| 0 <= k < p.len() && p[k] == x;
                assert(ts[k] == x);
            }
            if ts.contains(x) {
                let k = choose|k: int| 0 <= k < ts.len() && ts[k] == x;
                if k < ts.len() - 1 {
                    assert(p[k] == x);
                }
            }
            if x == ts.last() {
                assert(ts[ts.len() - 1] == x);
            }
        }
    }
    let r = sorted_tag_list(ts);
    assert forall|i: int, j: int| 0 <= i < j < r.len() implies r[i] != r[j] by {
        assert(seq_lt(r[i], r[j]));
        if r[i] == r[j] {
            lemma_seq_lt_irreflexive(r[i]);
        }
    }
}

} // verus!

verus! {

/// `mso run --log-file` is passed on unchanged: the plan registers
/// exactly the log file the flags name, or none when they name none.
pub proof fn law_log_file_passes_through(
    plan: &crate::config::RunPlan,
    cfg: &crate::config::RunConfig,
    config: &crate::config::Config,
    preset: Option<&crate::config::Preset>,
)
    requires
        crate::config::plan_matches(plan, cfg, config, preset),
    ensures
        plan.log_file is Some <==> cfg.log_file is Some,
        cfg.log_file matches Some(f) ==> (plan.log_file matches Some(g) && g@ == f@),
{
}

/// `mso run`'s flags override everything else: a given silence, restart
/// policy or tag list is the one registered; without flags the
/// configuration's silence comes before a preset's, and without a preset
/// the configuration's restart policy applies.
pub proof fn law_flags_take_precedence(
    plan: &crate::config::RunPlan,
    cfg: &crate::config::RunConfig,
    config: &crate::config::Config,
    preset: Option<&crate::config::Preset>,
)
    requires
        crate::config::plan_matches(plan, cfg, config, preset),
    ensures
        cfg.silence is Some ==> plan.silence == cfg.silence,
        cfg.silence is None && config.silence_secs is Some ==> plan.silence == config.silence_secs,
        cfg.restart matches Some(v) ==> (plan.restart_policy == crate::protocol::RestartPolicy::Always <==> v@ == "always"@),
        cfg.restart is None && preset is None ==> (plan.restart_policy == crate::protocol::RestartPolicy::Always
            <==> config.restart_policy@ == "always"@),
        cfg.tags@.len() > 0 ==> plan.tags.deep_view() == cfg.tags.deep_view(),
        plan.command.deep_view() == cfg.command.deep_view(),
        cfg.health_check matches Some(u) ==> (plan.health_check matches Some(h) && h.url@ == u@
            && h.interval_secs == cfg.health_interval && h.timeout_secs == cfg.health_timeout
            && h.max_failures == cfg.health_max_failures),
        cfg.health_check is None && preset is None ==> plan.health_check is None,
{
}

/// A prune removes exactly the lines older than the retention window: a
/// timestamp falls before the cut-off precisely when it lies more than
/// `days` days before `now` (so an age reaching back before the epoch
/// removes nothing).
pub proof fn law_prune_window(now: u64, days: u64, t: u64)
    ensures
        (t < crate::daemon::prune_cutoff_spec(now, days)) <==> (t as nat + days as nat * 86400000 < now as nat),
{
}

} // verus!

verus! {

/// Moving the selection up in the normal view selects the previous
/// process and resets the log pane: scrolled to the end, following, no
/// search hits, showing the newly selected process's lines.
pub proof fn law_selection_up_selects_previous(a: AppView, now: u64)
    requires
        !a.detail_mode,
        a.confirm_kill is None,
        !a.tag_filter_mode,
        0 < a.selected_index < a.processes.len(),
    ensures
        ({
            let b = key_step(a, crate::app::KeyEvent { code: crate::app::KeyCode::Up, ctrl: false }, now);
            &&& b.selected_index == a.selected_index - 1
            &&& b.log_scroll_offset == 0
            &&& b.search_results.len() == 0
            &&& b.log_follow_mode
            &&& b.log_lines == a.processes[a.selected_index - 1].log_lines
            &&& b.processes == a.processes
            &&& b.outbox == a.outbox
        }),
{
    let k = crate::app::KeyEvent { code: crate::app::KeyCode::Up, ctrl: false };
    assert(!crate::app::is_global_quit(k));
    assert(!crate::app::is_edit_key(a, k));
    assert(!crate::app::is_function_key(k));
    assert(crate::app::is_nav_key(k));
    let c = AppView { selected_index: (a.selected_index - 1) as usize, ..a };
    assert(crate::app::up_step(a, false) == crate::app::selection_changed(c));
    assert(key_step(a, k, now) == crate::app::selection_changed(c));
}

/// Moving the selection down in the normal view selects the next process
/// and resets the log pane: scrolled to the end, following, no search
/// hits, showing the newly selected process's lines.
pub proof fn law_selection_move_resets_log_pane(a: AppView, now: u64)
    requires
        !a.detail_mode,
        a.confirm_kill is None,
        !a.tag_filter_mode,
        a.selected_index < usize::MAX,
        a.selected_index + 1 < a.processes.len(),
    ensures
        ({
            let b = key_step(a, crate::app::KeyEvent { code: crate::app::KeyCode::Down, ctrl: false }, now);
            &&& b.selected_index == a.selected_index + 1
            &&& b.log_scroll_offset == 0
            &&& b.search_results.len() == 0
            &&& b.log_follow_mode
            &&& b.log_lines == a.processes[a.selected_index + 1].log_lines
            &&& b.outbox == a.outbox
        }),
{
    let k = crate::app::KeyEvent { code: crate::app::KeyCode::Down, ctrl: false };
    assert(!crate::app::is_global_quit(k));
    assert(!crate::app::is_edit_key(a, k));
    assert(!crate::app::is_function_key(k));
    assert(crate::app::is_nav_key(k));
    let c = AppView { selected_index: (a.selected_index + 1) as usize, ..a };
    assert(crate::app::down_step(a, false) == crate::app::selection_changed(c));
    assert(key_step(a, k, now) == crate::app::selection_changed(c));
}

} // verus!

verus! {

/// Dragging the sidebar border keeps its width between `SIDEBAR_MIN` and
/// `SIDEBAR_MAX`, whatever the pointer's column; no other mouse event
/// changes the width.
pub proof fn law_sidebar_width_bounded(a: AppView, me: crate::app::MouseEvent)
    requires
        crate::app::SIDEBAR_MIN <= a.sidebar_width <= crate::app::SIDEBAR_MAX,
    ensures
        crate::app::SIDEBAR_MIN <= crate::app::mouse_step(a, me).sidebar_width <= crate::app::SIDEBAR_MAX,
        me.kind != crate::app::MouseKind::LeftDrag ==> crate::app::mouse_step(a, me).sidebar_width == a.sidebar_width,
{
}

} // verus!

verus! {

/// Every process record holds at most `MAX_LOG_LINES` log lines.
pub open spec fn processes_bounded(ps: Seq<ProcessView>) -> bool {
    forall|i: int| 0 <= i < ps.len() ==> (#[trigger] ps[i]).log_lines.len() <= MAX_LOG_LINES
}

/// The sidebar order: not yet set (empty), or a permutation of the
/// positions `0..n`.
pub open spec fn order_ok(order: Seq<usize>, n: nat) -> bool {
    order.len() == 0 || (
        order.len() == n
        && (forall|i: int| 0 <= i < n ==> (#[trigger] order[i]) < n)
        && (forall|i: int, j: int| 0 <= i < j < n ==> (#[trigger] order[i]) != (#[trigger] order[j]))
    )
}

/// What the dashboard keeps true of itself: at most `MAX_NOTIFICATIONS`
/// notifications, at most `MAX_LOG_LINES` lines in each process record,
/// a sidebar order that is empty or a permutation of the processes, and a
/// sidebar between its minimum and maximum widths.
pub open spec fn dashboard_wf(a: AppView) -> bool {
    &&& a.notifications.len() <= MAX_NOTIFICATIONS
    &&& processes_bounded(a.processes)
    &&& order_ok(a.process_order, a.processes.len())
    &&& crate::app::SIDEBAR_MIN <= a.sidebar_width <= crate::app::SIDEBAR_MAX
}

/// Exchanging two positions of a permutation leaves a permutation.
proof fn lemma_swap_keeps_order(s: Seq<usize>, n: nat, i: int, j: int)
    requires
        order_ok(s, n),
        s.len() == n,
        0 <= i < n,
        0 <= j < n,
    ensures
        order_ok(crate::app::swap_at(s, i, j), n),
{
    let t = crate::app::swap_at(s, i, j);
    assert forall|x: int| 0 <= x < n implies (#[trigger] t[x]) < n by {
        if x == j {
        } else if x == i {
        } else {
        }
    }
    assert forall|x: int, y: int| 0 <= x < y < n implies (#[trigger] t[x]) != (#[trigger] t[y]) by {
        let sx = if x == j { s[i] } else if x == i { s[j] } else { s[x] };
        let sy = if y == j { s[i] } else if y == i { s[j] } else { s[y] };
        assert(t[x] == sx);
        assert(t[y] == sy);
        let px = if x == j { i } else if x == i { j } else { x };
        let py = if y == j { i } else if y == i { j } else { y };
        assert(px != py);
        if px < py {
            assert(s[px] != s[py]);
        } else {
            assert(s[py] != s[px]);
        }
    }
}

proof fn lemma_key_keeps_wf(a: AppView, k: crate::app::KeyEvent, now: u64)
    requires
        dashboard_wf(a),
        !crate::app::key_fails(a, k),
    ensures
        dashboard_wf(key_step(a, k, now)),
{
    let n = a.processes.len();
    let sel = a.selected_index as int;
    if a.process_order.len() == n && 0 < sel < n {
        lemma_swap_keeps_order(a.process_order, n, sel, sel - 1);
    }
    if a.process_order.len() == n && sel + 1 < n {
        lemma_swap_keeps_order(a.process_order, n, sel, sel + 1);
    }
}

proof fn lemma_snapshot_keeps_wf(a: AppView, snap: crate::protocol::ProcessSnapshot)
    requires
        dashboard_wf(a),
        processes_bounded(snap.processes.deep_view()),
    ensures
        dashboard_wf(crate::app::snapshot_step(a, snap.processes.deep_view())),
{
    let ps = snap.processes.deep_view();
    assert(ps.len() == snap.processes.len());
    assert(ps.len() <= usize::MAX);
    let b = crate::app::snapshot_step(a, ps);
    if a.process_order.len() != ps.len() || a.process_order.len() == 0 {
        let id = Seq::new(ps.len(), |i: int| i as usize);
        assert(b.process_order == id);
        assert forall|i: int| 0 <= i < ps.len() implies (#[trigger] id[i]) < ps.len() by {}
        assert forall|i: int, j: int| 0 <= i < j < ps.len() implies (#[trigger] id[i]) != (#[trigger] id[j]) by {
            assert(id[i] == i as usize && id[j] == j as usize);
        }
        assert(order_ok(b.process_order, ps.len()));
    }
}

proof fn lemma_log_event_keeps_wf(a: AppView, id: crate::protocol::ProcessId, line: Seq<char>, timestamp: u64, now: u64)
    requires
        dashboard_wf(a),
    ensures
        dashboard_wf(crate::app::log_event_step(a, id, line, timestamp, now)),
{
    let lv = crate::protocol::LineView { timestamp: timestamp, line: line };
    match crate::app::first_id_index(a.processes, id) {
        Some(i) => {
            law_log_ring_bounded(a.processes[i].log_lines, lv);
        },
        None => {},
    }
}

proof fn lemma_message_keeps_wf(a: AppView, msg: crate::protocol::DaemonMessage, now: u64)
    requires
        dashboard_wf(a),
        msg matches crate::protocol::DaemonMessage::StateSnapshot(s) ==> processes_bounded(s.processes.deep_view()),
    ensures
        dashboard_wf(crate::app::daemon_msg_step(a, msg, now)),
{
    match msg {
        crate::protocol::DaemonMessage::StateSnapshot(snap) => {
            lemma_snapshot_keeps_wf(a, snap);
        },
        crate::protocol::DaemonMessage::LogEvent { process_id, line, timestamp, .. } => {
            lemma_log_event_keeps_wf(a, process_id, line@, timestamp, now);
        },
        _ => {},
    }
}

proof fn lemma_tick_keeps_wf(a: AppView, now: u64, epoch_now: u64)
    requires
        dashboard_wf(a),
    ensures
        dashboard_wf(crate::app::tick_step(a, now, epoch_now)),
{
    let ps = crate::app::refresh_uptimes(a.processes, epoch_now);
    assert forall|i: int| 0 <= i < ps.len() implies (#[trigger] ps[i]).log_lines.len() <= MAX_LOG_LINES by {
        assert(ps[i].log_lines == a.processes[i].log_lines);
    }
}

/// Every way the dashboard changes — a key, a mouse event, a daemon
/// message, a timer tick — keeps it well formed: at most
/// `MAX_NOTIFICATIONS` notifications, at most `MAX_LOG_LINES` lines per
/// process, the sidebar order empty or a permutation, the sidebar width in
/// range (a snapshot's records must themselves hold at most
/// `MAX_LOG_LINES` lines each, as the daemon keeps them).
pub proof fn law_dashboard_stays_well_formed(
    a: AppView,
    k: crate::app::KeyEvent,
    me: crate::app::MouseEvent,
    msg: crate::protocol::DaemonMessage,
    now: u64,
    epoch_now: u64,
)
    requires
        dashboard_wf(a),
        !crate::app::key_fails(a, k),
        msg matches crate::protocol::DaemonMessage::StateSnapshot(s) ==> processes_bounded(s.processes.deep_view()),
    ensures
        dashboard_wf(key_step(a, k, now)),
        dashboard_wf(crate::app::mouse_step(a, me)),
        dashboard_wf(crate::app::daemon_msg_step(a, msg, epoch_now)),
        dashboard_wf(crate::app::tick_step(a, now, epoch_now)),
{
    lemma_key_keeps_wf(a, k, now);
    lemma_message_keeps_wf(a, msg, epoch_now);
    lemma_tick_keeps_wf(a, now, epoch_now);
}

// ── Colours, metrics and configuration ─────────────────────────────

/// The code a two-digit parameter spells.
proof fn lemma_two_digit_code(a: char, b: char)
    requires
        '1' <= a <= '9',
        '0' <= b <= '9',
    ensures
        crate::ansi::sgr_code(seq![a, b]) == Some(10 * ((a as u32 - '0' as u32) as nat) + ((b as u32 - '0' as u32) as nat)),
{
    assert(seq![a, b].len() == 2 && seq![a, b][0] == a && seq![a, b][1] == b);
}

proof fn lemma_sgr_foreground(st: SgrState)
    ensures
        apply_param(st, seq!['3', '0']).fg == Some(TermColor::Black),
        apply_param(st, seq!['3', '1']).fg == Some(TermColor::Red),
        apply_param(st, seq!['3', '2']).fg == Some(TermColor::Green),
        apply_param(st, seq!['3', '3']).fg == Some(TermColor::Yellow),
        apply_param(st, seq!['3', '4']).fg == Some(TermColor::Blue),
        apply_param(st, seq!['3', '5']).fg == Some(TermColor::Magenta),
        apply_param(st, seq!['3', '6']).fg == Some(TermColor::Cyan),
        apply_param(st, seq!['3', '7']).fg == Some(TermColor::White),
{
    lemma_two_digit_code('3', '0');
    lemma_two_digit_code('3', '1');
    lemma_two_digit_code('3', '2');
    lemma_two_digit_code('3', '3');
    lemma_two_digit_code('3', '4');
    lemma_two_digit_code('3', '5');
    lemma_two_digit_code('3', '6');
    lemma_two_digit_code('3', '7');
}

proof fn lemma_sgr_background(st: SgrState)
    ensures
        apply_param(st, seq!['4', '0']).bg == Some(TermColor::Black),
        apply_param(st, seq!['4', '1']).bg == Some(TermColor::Red),
        apply_param(st, seq!['4', '2']).bg == Some(TermColor::Green),
        apply_param(st, seq!['4', '3']).bg == Some(TermColor::Yellow),
        apply_param(st, seq!['4', '4']).bg == Some(TermColor::Blue),
        apply_param(st, seq!['4', '5']).bg == Some(TermColor::Magenta),
        apply_param(st, seq!['4', '6']).bg == Some(TermColor::Cyan),
        apply_param(st, seq!['4', '7']).bg == Some(TermColor::White),
{
    lemma_two_digit_code('4', '0');
    lemma_two_digit_code('4', '1');
    lemma_two_digit_code('4', '2');
    lemma_two_digit_code('4', '3');
    lemma_two_digit_code('4', '4');
    lemma_two_digit_code('4', '5');
    lemma_two_digit_code('4', '6');
    lemma_two_digit_code('4', '7');
}

proof fn lemma_sgr_bright(st: SgrState)
    ensures
        apply_param(st, seq!['9', '0']).fg == Some(TermColor::DarkGray),
        apply_param(st, seq!['9', '1']).fg == Some(TermColor::LightRed),
        apply_param(st, seq!['9', '2']).fg == Some(TermColor::LightGreen),
        apply_param(st, seq!['9', '3']).fg == Some(TermColor::LightYellow),
        apply_param(st, seq!['9', '4']).fg == Some(TermColor::LightBlue),
        apply_param(st, seq!['9', '5']).fg == Some(TermColor::LightMagenta),
        apply_param(st, seq!['9', '6']).fg == Some(TermColor::LightCyan),
        apply_param(st, seq!['9', '7']).fg == Some(TermColor::White),
{
    lemma_two_digit_code('9', '0');
    lemma_two_digit_code('9', '1');
    lemma_two_digit_code('9', '2');
    lemma_two_digit_code('9', '3');
    lemma_two_digit_code('9', '4');
    lemma_two_digit_code('9', '5');
    lemma_two_digit_code('9', '6');
    lemma_two_digit_code('9', '7');
}

/// SGR codes 30–37 set, and 40–47 set as background, the eight standard
/// colours in order: black, red, green, yellow, blue, magenta, cyan, white;
/// 90–97 set their bright forms.
pub proof fn law_sgr_standard_colours(st: SgrState)
    ensures
        apply_param(st, seq!['3', '0']).fg == Some(TermColor::Black),
        apply_param(st, seq!['3', '1']).fg == Some(TermColor::Red),
        apply_param(st, seq!['3', '2']).fg == Some(TermColor::Green),
        apply_param(st, seq!['3', '3']).fg == Some(TermColor::Yellow),
        apply_param(st, seq!['3', '4']).fg == Some(TermColor::Blue),
        apply_param(st, seq!['3', '5']).fg == Some(TermColor::Magenta),
        apply_param(st, seq!['3', '6']).fg == Some(TermColor::Cyan),
        apply_param(st, seq!['3', '7']).fg == Some(TermColor::White),
        apply_param(st, seq!['4', '0']).bg == Some(TermColor::Black),
        apply_param(st, seq!['4', '1']).bg == Some(TermColor::Red),
        apply_param(st, seq!['4', '2']).bg == Some(TermColor::Green),
        apply_param(st, seq!['4', '3']).bg == Some(TermColor::Yellow),
        apply_param(st, seq!['4', '4']).bg == Some(TermColor::Blue),
        apply_param(st, seq!['4', '5']).bg == Some(TermColor::Magenta),
        apply_param(st, seq!['4', '6']).bg == Some(TermColor::Cyan),
        apply_param(st, seq!['4', '7']).bg == Some(TermColor::White),
        apply_param(st, seq!['9', '0']).fg == Some(TermColor::DarkGray),
        apply_param(st, seq!['9', '1']).fg == Some(TermColor::LightRed),
        apply_param(st, seq!['9', '2']).fg == Some(TermColor::LightGreen),
        apply_param(st, seq!['9', '3']).fg == Some(TermColor::LightYellow),
        apply_param(st, seq!['9', '4']).fg == Some(TermColor::LightBlue),
        apply_param(st, seq!['9', '5']).fg == Some(TermColor::LightMagenta),
        apply_param(st, seq!['9', '6']).fg == Some(TermColor::LightCyan),
        apply_param(st, seq!['9', '7']).fg == Some(TermColor::White),
{
    lemma_sgr_foreground(st);
    lemma_sgr_background(st);
    lemma_sgr_bright(st);
}

/// The metrics label of a status is its name in lower case, so distinct
/// statuses get distinct labels.
pub proof fn law_status_labels(s: ProcessStatus, t: ProcessStatus)
    ensures
        crate::daemon::status_label(ProcessStatus::Running) == "running"@,
        crate::daemon::status_label(ProcessStatus::Sleeping) == "sleeping"@,
        crate::daemon::status_label(ProcessStatus::Crashed) == "crashed"@,
        crate::daemon::status_label(ProcessStatus::Stopped) == "stopped"@,
        s != t ==> crate::daemon::status_label(s) != crate::daemon::status_label(t),
{
    reveal_strlit("running");
    reveal_strlit("sleeping");
    reveal_strlit("crashed");
    reveal_strlit("stopped");
    assert("running"@[0] == 'r' && "sleeping"@[1] == 'l' && "crashed"@[0] == 'c' && "stopped"@[1] == 't');
    assert("sleeping"@[0] == 's' && "stopped"@[0] == 's');
    assert("running"@.len() == 7 && "crashed"@.len() == 7);
}

/// A colour written `#` and six hex digits.
pub open spec fn six_digit_colour(s: Seq<char>) -> bool {
    &&& s.len() == 7
    &&& s[0] == '#'
    &&& forall|i: int| 1 <= i < 7 ==> ('0' <= #[trigger] s[i] <= '9' || 'a' <= s[i] <= 'f' || 'A' <= s[i] <= 'F')
}

pub open spec fn colour_setting_ok(v: Option<String>) -> bool {
    match v {
        Some(s) => six_digit_colour(s@),
        None => true,
    }
}

/// A configuration validates without complaint exactly when its restart
/// policy is `no` or `always`, its silence (if set) is at most a day, its
/// retention is positive, and every theme colour it sets — accent, dark
/// and mid background — is `#RRGGBB`; each colour that is not adds one
/// complaint.
pub proof fn law_validate_accepts_exactly_valid(cfg: crate::config::Config)
    ensures
        crate::config::config_errors(cfg).len() == 0 <==> {
            &&& (cfg.restart_policy@ == "no"@ || cfg.restart_policy@ == "always"@)
            &&& (cfg.silence_secs matches Some(x) ==> x <= 86400)
            &&& cfg.log_retention_days > 0
            &&& (cfg.theme matches Some(t) ==> colour_setting_ok(t.accent) && colour_setting_ok(t.bg_dark)
                && colour_setting_ok(t.bg_mid))
        },
        cfg.theme matches Some(t) ==> (!colour_setting_ok(t.accent) ==> crate::config::config_errors(cfg).len() > 0),
        cfg.theme matches Some(t) ==> (!colour_setting_ok(t.bg_dark) ==> crate::config::config_errors(cfg).len() > 0),
        cfg.theme matches Some(t) ==> (!colour_setting_ok(t.bg_mid) ==> crate::config::config_errors(cfg).len() > 0),
{
    match cfg.theme {
        Some(t) => {
            let te = crate::config::theme_errors(t);
            assert(te.len() == 0 <==> (colour_setting_ok(t.accent) && colour_setting_ok(t.bg_dark) && colour_setting_ok(t.bg_mid)));
        },
        None => {},
    }
}

} // verus!
