//! Reading a process's counters from the text of its `/proc` files: bytes
//! read and written (`io`), resident pages (`statm`), CPU ticks (`stat`),
//! and the listening TCP ports of `/proc/net/tcp{,6}`; and the per-PID
//! bookkeeping that turns tick counters into deltas between two samples.
use vstd::prelude::*;
use std::collections::HashMap;
use crate::scan::{
    chars_eq, find_last, has_prefix, last_index, lines_of, parse_uint, parse_uint_in, split_lines,
    split_words, trim_bounds, trimmed, words_of,
};
use crate::text::{chars_of, starts_with_seq};
use crate::protocol::{ManagedProcess, ProcessStatus, ProcessTelemetry, ProcessView};

verus! {

/// A number parsed as `parse::<u64>().unwrap_or(0)` does.
pub open spec fn u64_or_zero(s: Seq<char>) -> nat {
    match parse_uint(s, 10, u64::MAX as nat) {
        Some(v) => v,
        None => 0,
    }
}

/// What one line of `/proc/[pid]/io` adds to the byte count: the value of
/// an `rchar: ` or `wchar: ` line, nothing for any other.
pub open spec fn io_line_value(line: Seq<char>) -> nat {
    if starts_with_seq(line, "rchar: "@) {
        u64_or_zero(trimmed(line.skip(("rchar: "@).len() as int)))
    } else if starts_with_seq(line, "wchar: "@) {
        u64_or_zero(trimmed(line.skip(("wchar: "@).len() as int)))
    } else {
        0
    }
}

/// The bytes read plus the bytes written that the lines report.
pub open spec fn io_total(lines: Seq<Seq<char>>) -> nat
    decreases lines.len(),
{
    if lines.len() == 0 { 0 } else { io_total(lines.drop_last()) + io_line_value(lines.last()) }
}

fn value_after(line: &Vec<char>, plen: usize) -> (v: u64)
    requires
        plen <= line.len(),
    ensures
        v == u64_or_zero(trimmed(line@.skip(plen as int))),
{
    let (a, b) = trim_bounds(line, plen, line.len());
    assert(line@.subrange(plen as int, line.len() as int) =~= line@.skip(plen as int));
    match parse_uint_in(line, a, b, 10, u64::MAX) {
        Some(v) => v,
        None => 0,
    }
}

/// The byte count of `/proc/[pid]/io` (`rchar` plus `wchar`), or `None`
/// when the sum does not fit in a `u64`.
pub fn io_bytes(content: &str) -> (r: Option<u64>)
    ensures
        r matches Some(v) ==> v == io_total(lines_of(content@)),
        r is None ==> io_total(lines_of(content@)) > u64::MAX,
{
    let chars = chars_of(content);
    let lines = split_lines(&chars);
    let ghost lv = lines.deep_view();
    let rp = chars_of("rchar: ");
    let wp = chars_of("wchar: ");
    let mut total: u64 = 0;
    let mut i: usize = 0;
    while i < lines.len()
        invariant
            lv == lines.deep_view(),
            lv == lines_of(content@),
            rp@ == "rchar: "@,
            wp@ == "wchar: "@,
            i <= lines.len(),
            total == io_total(lv.take(i as int)),
        decreases lines.len() - i,
    {
        assert(lv.take(i + 1).drop_last() =~= lv.take(i as int));
        let line = &lines[i];
        assert(line@ == lv[i as int]) by {
            assert(line.deep_view() =~= line@);
        }
        let v: u64 = if has_prefix(line, &rp) {
            value_after(line, rp.len())
        } else if has_prefix(line, &wp) {
            value_after(line, wp.len())
        } else {
            0
        };
        assert(v == io_line_value(lv[i as int]));
        if v > u64::MAX - total {
            proof {
                lemma_io_total_grows(lv, i + 1, lv.len() as int);
                assert(lv.take(lv.len() as int) =~= lv);
            }
            return None;
        }
        total = total + v;
        i = i + 1;
    }
    assert(lv.take(i as int) =~= lv);
    Some(total)
}

proof fn lemma_io_total_grows(lines: Seq<Seq<char>>, k: int, j: int)
    requires
        0 <= k <= j <= lines.len(),
    ensures
        io_total(lines.take(k)) <= io_total(lines.take(j)),
    decreases j - k,
{
    if k < j {
        lemma_io_total_grows(lines, k, j - 1);
        assert(lines.take(j).drop_last() =~= lines.take(j - 1));
    }
}

/// The resident page count of `/proc/[pid]/statm`: its second field.
pub open spec fn statm_pages(content: Seq<char>) -> Option<nat> {
    let w = words_of(content);
    if w.len() > 1 { parse_uint(w[1], 10, u64::MAX as nat) } else { None }
}

/// The resident bytes of `/proc/[pid]/statm` for pages of `page_size`
/// bytes: `Some(0)` when the page count is missing, `None` when the
/// product does not fit in a `u64`.
pub fn resident_bytes(content: &str, page_size: u64) -> (r: Option<u64>)
    ensures
        r == match statm_pages(content@) {
            Some(p) => if p * page_size <= u64::MAX { Some((p * page_size) as u64) } else { None },
            None => Some(0u64),
        },
{
    let chars = chars_of(content);
    let words = split_words(&chars);
    if words.len() <= 1 {
        return Some(0);
    }
    let w = &words[1];
    assert(w@ == words.deep_view()[1]) by {
        assert(w.deep_view() =~= w@);
    }
    assert(w@.subrange(0, w.len() as int) =~= w@);
    match parse_uint_in(w, 0, w.len(), 10, u64::MAX) {
        Some(pages) => {
            if page_size > 0 && pages > u64::MAX / page_size {
                assert(pages * page_size > u64::MAX) by (nonlinear_arith)
                    requires
                        page_size > 0,
                        pages > u64::MAX / page_size,
                ;
                None
            } else {
                assert(pages * page_size <= u64::MAX) by (nonlinear_arith)
                    requires
                        page_size == 0 || pages <= u64::MAX / page_size,
                ;
                Some(pages * page_size)
            }
        },
        None => Some(0),
    }
}

/// The user and system CPU ticks of `/proc/[pid]/stat`: its fields 13 and
/// 14 (from zero), when it has more than 14 fields and both parse.
pub open spec fn stat_ticks_spec(content: Seq<char>) -> Option<(u64, u64)> {
    let f = words_of(content);
    if f.len() > 14 {
        match (parse_uint(f[13], 10, u64::MAX as nat), parse_uint(f[14], 10, u64::MAX as nat)) {
            (Some(u), Some(s)) => Some((u as u64, s as u64)),
            _ => None,
        }
    } else {
        None
    }
}

fn parse_word(w: &Vec<char>) -> (r: Option<u64>)
    ensures
        r matches Some(v) ==> parse_uint(w@, 10, u64::MAX as nat) == Some(v as nat),
        r is None ==> parse_uint(w@, 10, u64::MAX as nat) is None,
{
    assert(w@.subrange(0, w.len() as int) =~= w@);
    parse_uint_in(w, 0, w.len(), 10, u64::MAX)
}

pub fn stat_ticks(content: &str) -> (r: Option<(u64, u64)>)
    ensures
        r == stat_ticks_spec(content@),
{
    let chars = chars_of(content);
    let f = split_words(&chars);
    if f.len() <= 14 {
        return None;
    }
    assert(f[13]@ == f.deep_view()[13]) by {
        assert(f[13].deep_view() =~= f[13]@);
    }
    assert(f[14]@ == f.deep_view()[14]) by {
        assert(f[14].deep_view() =~= f[14]@);
    }
    match (parse_word(&f[13]), parse_word(&f[14])) {
        (Some(u), Some(s)) => Some((u, s)),
        _ => None,
    }
}

// ── listening ports ────────────────────────────────────────────────

/// The port a line of `/proc/net/tcp` reports as listening (state `0A`):
/// the hexadecimal digits after the last `:` of the local address.
pub open spec fn listen_port(line: Seq<char>) -> Option<u16> {
    let f = words_of(line);
    if f.len() < 4 || f[3] != "0A"@ {
        None
    } else {
        match last_index(f[1], ':') {
            Some(i) => match parse_uint(f[1].skip(i + 1), 16, u16::MAX as nat) {
                Some(p) => Some(p as u16),
                None => None,
            },
            None => None,
        }
    }
}

/// The listening ports of the lines, in order.
pub open spec fn ports_of_lines(lines: Seq<Seq<char>>) -> Seq<u16>
    decreases lines.len(),
{
    if lines.len() == 0 {
        seq![]
    } else {
        ports_of_lines(lines.drop_last()) + match listen_port(lines.last()) {
            Some(p) => seq![p],
            None => seq![],
        }
    }
}

/// The listening ports of a `/proc/net/tcp` table, whose first line is a
/// header.
pub open spec fn listen_ports_spec(content: Seq<char>) -> Seq<u16> {
    let ls = lines_of(content);
    if ls.len() == 0 { seq![] } else { ports_of_lines(ls.drop_first()) }
}

fn line_port(line: &Vec<char>, listen: &Vec<char>) -> (r: Option<u16>)
    requires
        listen@ == "0A"@,
    ensures
        r == listen_port(line@),
{
    let f = split_words(line);
    if f.len() < 4 {
        return None;
    }
    assert(f[3]@ == f.deep_view()[3]) by {
        assert(f[3].deep_view() =~= f[3]@);
    }
    assert(f[1]@ == f.deep_view()[1]) by {
        assert(f[1].deep_view() =~= f[1]@);
    }
    if !chars_eq(&f[3], listen) {
        return None;
    }
    let addr = &f[1];
    match find_last(addr, ':') {
        Some(i) => {
            assert(addr@.subrange(i + 1, addr.len() as int) =~= addr@.skip(i + 1));
            match parse_uint_in(addr, i + 1, addr.len(), 16, 65535) {
                Some(p) => Some(p as u16),
                None => None,
            }
        },
        None => None,
    }
}

/// The listening ports of a `/proc/net/tcp{,6}`
/// table's text.
pub fn listen_ports(content: &str) -> (r: Vec<u16>)
    ensures
        r@ == listen_ports_spec(content@),
{
    let chars = chars_of(content);
    let lines = split_lines(&chars);
    let ghost lv = lines.deep_view();
    let mut ports: Vec<u16> = Vec::new();
    if lines.len() == 0 {
        return ports;
    }
    let ghost body = lv.drop_first();
    let listen = chars_of("0A");
    let mut i: usize = 1;
    assert(body.take(0) =~= Seq::<Seq<char>>::empty());
    while i < lines.len()
        invariant
            lv == lines.deep_view(),
            lv == lines_of(content@),
            lv.len() >= 1,
            body == lv.drop_first(),
            listen@ == "0A"@,
            1 <= i <= lines.len(),
            ports@ == ports_of_lines(body.take(i - 1)),
        decreases lines.len() - i,
    {
        assert(body.take(i as int).drop_last() =~= body.take(i - 1));
        assert(body.take(i as int).last() == lv[i as int]);
        let line = &lines[i];
        assert(line@ == lv[i as int]) by {
            assert(line.deep_view() =~= line@);
        }
        match line_port(line, &listen) {
            Some(p) => {
                ports.push(p);
            },
            None => {},
        }
        i = i + 1;
        assert(ports@ =~= ports_of_lines(body.take(i - 1)));
    }
    assert(body.take(i - 1) =~= body);
    ports
}

// ── CPU deltas ─────────────────────────────────────────────────────

/// The previous CPU sample of one process.
#[derive(Clone, Copy, Debug, PartialEq, Eq, Structural)]
pub struct CpuSample {
    pub utime: u64,
    pub stime: u64,
    pub timestamp: u64,
}

/// The last CPU sample of each PID.
pub struct CpuTracker {
    pub samples: HashMap<u32, CpuSample>,
}

/// The ticks and milliseconds since the previous sample (zero for a PID not
/// seen before), each counter saturating at zero.
pub open spec fn cpu_delta(prev: CpuSample, utime: u64, stime: u64, now: u64) -> (int, int) {
    (
        (if utime >= prev.utime { utime - prev.utime } else { 0 }) + (if stime >= prev.stime { stime - prev.stime } else { 0 }),
        if now >= prev.timestamp { now - prev.timestamp } else { 0 },
    )
}

pub open spec fn prev_sample(m: Map<u32, CpuSample>, pid: u32) -> CpuSample {
    if m.contains_key(pid) { m[pid] } else { CpuSample { utime: 0, stime: 0, timestamp: 0 } }
}

impl CpuTracker {
    pub fn new() -> (t: CpuTracker)
        ensures
            t.samples@ == Map::<u32, CpuSample>::empty(),
    {
        CpuTracker { samples: HashMap::new() }
    }

    /// Records a sample of `pid` and returns `(ticks, millis)` since its
    /// previous one; `None`, with nothing recorded, when the tick delta does
    /// not fit in a `u64`.
    pub fn sample(&mut self, pid: u32, utime: u64, stime: u64, now: u64) -> (r: Option<(u64, u64)>)
        ensures
            ({
                let d = cpu_delta(prev_sample(old(self).samples@, pid), utime, stime, now);
                match r {
                    Some((c, t)) => c == d.0 && t == d.1
                        && final(self).samples@ == old(self).samples@.insert(pid, CpuSample { utime, stime, timestamp: now }),
                    None => d.0 > u64::MAX && final(self).samples@ == old(self).samples@,
                }
            }),
    {
        let prev = match self.samples.get(&pid) {
            Some(s) => *s,
            None => CpuSample { utime: 0, stime: 0, timestamp: 0 },
        };
        let du = if utime >= prev.utime { utime - prev.utime } else { 0 };
        let ds = if stime >= prev.stime { stime - prev.stime } else { 0 };
        if du > u64::MAX - ds {
            return None;
        }
        let dt = if now >= prev.timestamp { now - prev.timestamp } else { 0 };
        self.samples.insert(pid, CpuSample { utime, stime, timestamp: now });
        Some((du + ds, dt))
    }
}

} // verus!

verus! {

/// A process record after a telemetry sample taken at `now`: the sampled
/// figures replace the old ones, and a running process's uptime becomes the
/// whole seconds since it started.
pub open spec fn sampled(p: ProcessView, t: TelemetryView, now: u64) -> ProcessView {
    ProcessView {
        cpu_percent_bits: t.cpu_percent_bits,
        memory_bytes: t.memory_bytes,
        ports: t.ports,
        io_bytes: t.io_bytes,
        uptime_secs: if p.status == ProcessStatus::Running { ((now - p.started_at) / 1000) as u64 } else { p.uptime_secs },
        ..p
    }
}

/// The figures of a telemetry sample.
pub struct TelemetryView {
    pub ports: Seq<u16>,
    pub cpu_percent_bits: u32,
    pub memory_bytes: u64,
    pub io_bytes: u64,
}

pub open spec fn telemetry_view(t: ProcessTelemetry) -> TelemetryView {
    TelemetryView { ports: t.ports@, cpu_percent_bits: t.cpu_percent_bits, memory_bytes: t.memory_bytes, io_bytes: t.io_bytes }
}

/// Records a telemetry sample on a process; a running process must not
/// have started after `now`.
pub fn apply_sample(p: &mut ManagedProcess, t: ProcessTelemetry, now: u64)
    requires
        old(p).status == ProcessStatus::Running ==> old(p).started_at <= now,
    ensures
        final(p).deep_view() == sampled(old(p).deep_view(), telemetry_view(t), now),
{
    let ghost tv = telemetry_view(t);
    p.cpu_percent_bits = t.cpu_percent_bits;
    p.memory_bytes = t.memory_bytes;
    p.ports = t.ports;
    p.io_bytes = t.io_bytes;
    if p.status == ProcessStatus::Running {
        p.uptime_secs = (now - p.started_at) / 1000;
    }
}

} // verus!

verus! {

/// Whether a `/proc/[pid]/status` text describes a live process: its
/// first `State:` line shows no `Z` (zombie); without one, it does not.
pub open spec fn alive_from_status_spec(lines: Seq<Seq<char>>) -> bool
    decreases lines.len(),
{
    if lines.len() == 0 {
        false
    } else if starts_with_seq(lines[0], "State:"@) {
        !lines[0].contains('Z')
    } else {
        alive_from_status_spec(lines.drop_first())
    }
}

fn has_char(v: &Vec<char>, c: char) -> (r: bool)
    ensures
        r == v@.contains(c),
{
    let mut j: usize = 0;
    while j < v.len()
        invariant
            j <= v.len(),
            forall|k: int| 0 <= k < j ==> v@[k] != c,
        decreases v.len() - j,
    {
        if v[j] == c {
            assert(v@[j as int] == c);
            return true;
        }
        j = j + 1;
    }
    false
}

pub fn alive_from_status(content: &str) -> (r: bool)
    ensures
        r == alive_from_status_spec(lines_of(content@)),
{
    let chars = chars_of(content);
    let lines = split_lines(&chars);
    let ghost lv = lines.deep_view();
    let state = chars_of("State:");
    let mut i: usize = 0;
    assert(lv.skip(0) =~= lv);
    while i < lines.len()
        invariant
            lv == lines.deep_view(),
            lv == lines_of(content@),
            state@ == "State:"@,
            i <= lines.len(),
            alive_from_status_spec(lv) == alive_from_status_spec(lv.skip(i as int)),
        decreases lines.len() - i,
    {
        let line = &lines[i];
        assert(line@ == lv[i as int]) by {
            assert(line.deep_view() =~= line@);
        }
        assert(lv.skip(i as int)[0] == lv[i as int]);
        if has_prefix(line, &state) {
            return !has_char(line, 'Z');
        }
        assert(lv.skip(i as int).drop_first() =~= lv.skip(i + 1));
        i = i + 1;
    }
    false
}

} // verus!
