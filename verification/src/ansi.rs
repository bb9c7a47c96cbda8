//! Colouring a log line for the log view: its ANSI escape sequences are
//! read for SGR attributes (bold, dim, foreground and background colours,
//! 256-colour foregrounds) and the text between them becomes styled
//! segments; a line without any plain text is coloured by the first log
//! level its text names.
use vstd::prelude::*;
use crate::scan::{parse_uint, parse_uint_in};
use crate::text::{chars_contain, chars_of, contains_seq, string_from_chars};

verus! {

/// A terminal colour.
#[derive(Debug, Clone, Copy, PartialEq, Eq, Structural)]
pub enum TermColor {
    Black,
    Red,
    Green,
    Yellow,
    Blue,
    Magenta,
    Cyan,
    White,
    DarkGray,
    LightRed,
    LightGreen,
    LightYellow,
    LightBlue,
    LightMagenta,
    LightCyan,
    Indexed(u8),
    Rgb(u8, u8, u8),
}

/// The style of a segment: colours (`None` for the terminal's default) and
/// the bold and dim attributes.
#[derive(Debug, Clone, Copy, PartialEq, Eq)]
pub struct SegmentStyle {
    pub fg: Option<TermColor>,
    pub bg: Option<TermColor>,
    pub bold: bool,
    pub dim: bool,
}

/// The SGR attributes in force.
#[derive(Debug, Clone, Copy, PartialEq, Eq)]
pub struct SgrState {
    pub bold: bool,
    pub dim: bool,
    pub fg: Option<TermColor>,
    pub bg: Option<TermColor>,
}

/// The colour of plain text before any escape sequence.
pub open spec fn default_text_style() -> SegmentStyle {
    SegmentStyle { fg: Some(TermColor::Rgb(200, 210, 220)), bg: None, bold: false, dim: false }
}

pub open spec fn no_attributes() -> SgrState {
    SgrState { bold: false, dim: false, fg: None, bg: None }
}

/// The style the attributes give.
pub open spec fn style_of(st: SgrState) -> SegmentStyle {
    SegmentStyle { fg: st.fg, bg: st.bg, bold: st.bold, dim: st.dim }
}

// ── SGR parameters ─────────────────────────────────────────────────

pub open spec fn is_digit(c: char) -> bool {
    '0' <= c && c <= '9'
}

pub open spec fn digit_value(c: char) -> nat {
    (c as u32 - '0' as u32) as nat
}

/// The number a parameter spells as one digit, or two without a leading
/// zero; `None` for any other text, which no SGR code matches.
pub open spec fn sgr_code(p: Seq<char>) -> Option<nat> {
    if p.len() == 1 && is_digit(p[0]) {
        Some(digit_value(p[0]))
    } else if p.len() == 2 && is_digit(p[0]) && p[0] != '0' && is_digit(p[1]) {
        Some(10 * digit_value(p[0]) + digit_value(p[1]))
    } else {
        None
    }
}

/// Colours 30–37 and 40–47.
pub open spec fn basic_color(k: int) -> TermColor {
    if k == 0 {
        TermColor::Black
    } else if k == 1 {
        TermColor::Red
    } else if k == 2 {
        TermColor::Green
    } else if k == 3 {
        TermColor::Yellow
    } else if k == 4 {
        TermColor::Blue
    } else if k == 5 {
        TermColor::Magenta
    } else if k == 6 {
        TermColor::Cyan
    } else {
        TermColor::White
    }
}

/// Colours 90–97.
pub open spec fn bright_color(k: int) -> TermColor {
    if k == 0 {
        TermColor::DarkGray
    } else if k == 1 {
        TermColor::LightRed
    } else if k == 2 {
        TermColor::LightGreen
    } else if k == 3 {
        TermColor::LightYellow
    } else if k == 4 {
        TermColor::LightBlue
    } else if k == 5 {
        TermColor::LightMagenta
    } else if k == 6 {
        TermColor::LightCyan
    } else {
        TermColor::White
    }
}

/// The attributes after one parameter standing on its own.
pub open spec fn apply_param(st: SgrState, p: Seq<char>) -> SgrState {
    match sgr_code(p) {
        Some(c) => if c == 0 {
            no_attributes()
        } else if c == 1 {
            SgrState { bold: true, ..st }
        } else if c == 2 {
            SgrState { dim: true, ..st }
        } else if c == 22 {
            SgrState { bold: false, dim: false, ..st }
        } else if 30 <= c <= 37 {
            SgrState { fg: Some(basic_color(c - 30)), ..st }
        } else if 90 <= c <= 97 {
            SgrState { fg: Some(bright_color(c - 90)), ..st }
        } else if 40 <= c <= 47 {
            SgrState { bg: Some(basic_color(c - 40)), ..st }
        } else {
            st
        },
        None => st,
    }
}

/// Whether a 256-colour foreground (`38;5;n`) starts at position `i`.
pub open spec fn indexed_at(params: Seq<Seq<char>>, i: int) -> bool {
    0 <= i && i + 2 < params.len() && params[i] == seq!['3', '8'] && params[i + 1] == seq!['5']
}

/// The attributes after the parameters from position `i` on, in order: a
/// `38;5;n` triple sets the foreground to colour `n` of the 256 (and is
/// left as it was when `n` is no byte) and uses up all three; any other
/// parameter applies on its own.
pub open spec fn apply_from(st: SgrState, params: Seq<Seq<char>>, i: int) -> SgrState
    decreases params.len() - i,
{
    if i < 0 || i >= params.len() {
        st
    } else if indexed_at(params, i) {
        let next = match parse_uint(params[i + 2], 10, 255) {
            Some(n) => SgrState { fg: Some(TermColor::Indexed(n as u8)), ..st },
            None => st,
        };
        apply_from(next, params, i + 3)
    } else {
        apply_from(apply_param(st, params[i]), params, i + 1)
    }
}

/// The attributes after all the parameters of one SGR sequence.
pub open spec fn apply_params(st: SgrState, params: Seq<Seq<char>>) -> SgrState {
    apply_from(st, params, 0)
}

fn code_of(p: &Vec<char>) -> (r: Option<u8>)
    ensures
        r matches Some(c) ==> sgr_code(p@) == Some(c as nat),
        r is None ==> sgr_code(p@) is None,
{
    if p.len() == 1 && '0' <= p[0] && p[0] <= '9' {
        Some((p[0] as u32 - '0' as u32) as u8)
    } else if p.len() == 2 && '0' <= p[0] && p[0] <= '9' && p[0] != '0' && '0' <= p[1] && p[1] <= '9' {
        Some((10 * (p[0] as u32 - '0' as u32) + (p[1] as u32 - '0' as u32)) as u8)
    } else {
        None
    }
}

fn basic(k: u8) -> (c: TermColor)
    ensures
        c == basic_color(k as int),
{
    if k == 0 {
        TermColor::Black
    } else if k == 1 {
        TermColor::Red
    } else if k == 2 {
        TermColor::Green
    } else if k == 3 {
        TermColor::Yellow
    } else if k == 4 {
        TermColor::Blue
    } else if k == 5 {
        TermColor::Magenta
    } else if k == 6 {
        TermColor::Cyan
    } else {
        TermColor::White
    }
}

fn bright(k: u8) -> (c: TermColor)
    ensures
        c == bright_color(k as int),
{
    if k == 0 {
        TermColor::DarkGray
    } else if k == 1 {
        TermColor::LightRed
    } else if k == 2 {
        TermColor::LightGreen
    } else if k == 3 {
        TermColor::LightYellow
    } else if k == 4 {
        TermColor::LightBlue
    } else if k == 5 {
        TermColor::LightMagenta
    } else if k == 6 {
        TermColor::LightCyan
    } else {
        TermColor::White
    }
}

fn apply_one(st: SgrState, p: &Vec<char>) -> (r: SgrState)
    ensures
        r == apply_param(st, p@),
{
    match code_of(p) {
        Some(c) => {
            if c == 0 {
                SgrState { bold: false, dim: false, fg: None, bg: None }
            } else if c == 1 {
                SgrState { bold: true, ..st }
            } else if c == 2 {
                SgrState { dim: true, ..st }
            } else if c == 22 {
                SgrState { bold: false, dim: false, ..st }
            } else if 30 <= c && c <= 37 {
                SgrState { fg: Some(basic(c - 30)), ..st }
            } else if 90 <= c && c <= 97 {
                SgrState { fg: Some(bright(c - 90)), ..st }
            } else if 40 <= c && c <= 47 {
                SgrState { bg: Some(basic(c - 40)), ..st }
            } else {
                st
            }
        },
        None => st,
    }
}

/// Whether `params` holds `38`, `5` and a third parameter from `i` on.
fn indexed_here(params: &Vec<Vec<char>>, i: usize) -> (r: bool)
    requires
        i < params.len(),
    ensures
        r == indexed_at(params.deep_view(), i as int),
{
    let ghost pv = params.deep_view();
    if params.len() - i <= 2 {
        return false;
    }
    let p = &params[i];
    let five = &params[i + 1];
    assert(p.deep_view() =~= p@);
    assert(five.deep_view() =~= five@);
    let is38 = p.len() == 2 && p[0] == '3' && p[1] == '8';
    let is5 = five.len() == 1 && five[0] == '5';
    if is38 {
        assert(p@ =~= seq!['3', '8']);
    } else {
        assert(p@ != seq!['3', '8']) by {
            if p@ == seq!['3', '8'] {
                assert(p@.len() == 2 && p@[0] == '3' && p@[1] == '8');
            }
        }
    }
    if is5 {
        assert(five@ =~= seq!['5']);
    } else {
        assert(five@ != seq!['5']) by {
            if five@ == seq!['5'] {
                assert(five@.len() == 1 && five@[0] == '5');
            }
        }
    }
    is38 && is5
}

/// `apply_sgr_params`: the attributes after the parameters of one SGR
/// sequence, applied in order, a `38;5;n` triple as one.
pub fn apply_sgr_params(params: &Vec<Vec<char>>, st: SgrState) -> (r: SgrState)
    ensures
        r == apply_params(st, params.deep_view()),
{
    let ghost pv = params.deep_view();
    let mut cur = st;
    let mut i: usize = 0;
    while i < params.len()
        invariant
            pv == params.deep_view(),
            i <= params.len(),
            apply_from(cur, pv, i as int) == apply_from(st, pv, 0),
        decreases params.len() - i,
    {
        if indexed_here(params, i) {
            let num = &params[i + 2];
            assert(num.deep_view() =~= num@);
            assert(num@.subrange(0, num.len() as int) =~= num@);
            cur = match parse_uint_in(num, 0, num.len(), 10, 255) {
                Some(n) => SgrState { fg: Some(TermColor::Indexed(n as u8)), ..cur },
                None => cur,
            };
            i = i + 3;
        } else {
            assert(params[i as int].deep_view() =~= params[i as int]@);
            cur = apply_one(cur, &params[i]);
            i = i + 1;
        }
    }
    cur
}

// ── splitting ──────────────────────────────────────────────────────

/// The finished pieces of `s` split at `;`, and the unfinished last one.
pub open spec fn semi_fold(s: Seq<char>) -> (Seq<Seq<char>>, Seq<char>)
    decreases s.len(),
{
    if s.len() == 0 {
        (seq![], seq![])
    } else {
        let (done, cur) = semi_fold(s.drop_last());
        if s.last() == ';' { (done.push(cur), seq![]) } else { (done, cur.push(s.last())) }
    }
}

/// `str::split(';')`: the pieces between semicolons, empty ones included.
pub open spec fn split_semi(s: Seq<char>) -> Seq<Seq<char>> {
    let (done, cur) = semi_fold(s);
    done.push(cur)
}

fn split_params(v: &Vec<char>, lo: usize, hi: usize) -> (r: Vec<Vec<char>>)
    requires
        lo <= hi <= v.len(),
    ensures
        r.deep_view() == split_semi(v@.subrange(lo as int, hi as int)),
{
    let ghost w = v@.subrange(lo as int, hi as int);
    let mut done: Vec<Vec<char>> = Vec::new();
    let mut cur: Vec<char> = Vec::new();
    let mut i = lo;
    while i < hi
        invariant
            lo <= i <= hi <= v.len(),
            w == v@.subrange(lo as int, hi as int),
            (done.deep_view(), cur@) == semi_fold(w.take(i - lo)),
        decreases hi - i,
    {
        assert(w.take(i - lo + 1).drop_last() =~= w.take(i - lo));
        assert(w.take(i - lo + 1).last() == v@[i as int]);
        if v[i] == ';' {
            proof { crate::scan::lemma_chars_deep(&cur); }
            crate::vecs::vec_push(&mut done, cur);
            cur = Vec::new();
        } else {
            cur.push(v[i]);
        }
        i = i + 1;
    }
    assert(w.take(i - lo) =~= w);
    proof { crate::scan::lemma_chars_deep(&cur); }
    crate::vecs::vec_push(&mut done, cur);
    done
}

// ── segments ───────────────────────────────────────────────────────

/// The first position in `s` of a character with property `p`.
pub open spec fn first_match(s: Seq<char>, p: spec_fn(char) -> bool) -> Option<int>
    decreases s.len(),
{
    if s.len() == 0 {
        None
    } else if p(s[0]) {
        Some(0)
    } else {
        match first_match(s.drop_first(), p) {
            Some(i) => Some(i + 1),
            None => None,
        }
    }
}

pub open spec fn is_esc(c: char) -> bool {
    c == '\x1b'
}

pub open spec fn is_ascii_alpha(c: char) -> bool {
    ('a' <= c && c <= 'z') || ('A' <= c && c <= 'Z')
}

proof fn lemma_first_match(s: Seq<char>, p: spec_fn(char) -> bool, j: int)
    requires
        0 <= j <= s.len(),
        forall|k: int| 0 <= k < j ==> !p(s[k]),
        j == s.len() || p(s[j]),
    ensures
        first_match(s, p) == (if j == s.len() { None } else { Some(j) }),
    decreases j,
{
    if j > 0 {
        let t = s.drop_first();
        assert forall|k: int| 0 <= k < j - 1 implies !p(t[k]) by {
            assert(t[k] == s[k + 1]);
        }
        if j < s.len() {
            assert(t[j - 1] == s[j]);
        }
        lemma_first_match(t, p, j - 1);
    }
}

fn find_esc(v: &Vec<char>, lo: usize) -> (r: usize)
    requires
        lo <= v.len(),
    ensures
        lo <= r <= v.len(),
        first_match(v@.skip(lo as int), |c: char| is_esc(c))
            == (if r == v.len() { None } else { Some(r - lo) }),
{
    let mut i = lo;
    while i < v.len() && v[i] != '\x1b'
        invariant
            lo <= i <= v.len(),
            forall|k: int| lo <= k < i ==> v@[k] != '\x1b',
        decreases v.len() - i,
    {
        i = i + 1;
    }
    proof {
        let t = v@.skip(lo as int);
        assert forall|k: int| 0 <= k < i - lo implies !is_esc(t[k]) by {
            assert(t[k] == v@[lo + k]);
        }
        lemma_first_match(t, |c: char| is_esc(c), i - lo);
    }
    i
}

fn find_alpha(v: &Vec<char>, lo: usize) -> (r: usize)
    requires
        lo <= v.len(),
    ensures
        lo <= r <= v.len(),
        first_match(v@.skip(lo as int), |c: char| is_ascii_alpha(c))
            == (if r == v.len() { None } else { Some(r - lo) }),
        r < v.len() ==> is_ascii_alpha(v@[r as int]),
{
    let mut i = lo;
    while i < v.len() && !(('a' <= v[i] && v[i] <= 'z') || ('A' <= v[i] && v[i] <= 'Z'))
        invariant
            lo <= i <= v.len(),
            forall|k: int| lo <= k < i ==> !is_ascii_alpha(v@[k]),
        decreases v.len() - i,
    {
        i = i + 1;
    }
    proof {
        let t = v@.skip(lo as int);
        assert forall|k: int| 0 <= k < i - lo implies !is_ascii_alpha(t[k]) by {
            assert(t[k] == v@[lo + k]);
        }
        lemma_first_match(t, |c: char| is_ascii_alpha(c), i - lo);
    }
    i
}

/// The attributes an escape sequence's body leaves: an SGR body (`[`
/// followed by `;`-separated parameters) applies its parameters, any other
/// leaves them as they were.
pub open spec fn after_sequence(st: SgrState, body: Seq<char>) -> SgrState {
    if body.len() > 0 && body[0] == '[' {
        let params = split_semi(body.drop_first());
        apply_params(st, params)
    } else {
        st
    }
}

/// The segments of `rem` when `cur` is the style of its first text and `st`
/// the attributes in force. An escape sequence runs from an ESC to the next
/// ASCII letter; the text before each one is a segment, and the style
/// after it is that of the attributes it leaves. An ESC with no letter
/// after it ends the scan: the text before it and then all of `rem`, that
/// text included, are the last segments.
pub open spec fn scan_segments(rem: Seq<char>, st: SgrState, cur: SegmentStyle) -> Seq<(SegmentStyle, Seq<char>)>
    decreases rem.len(),
{
    let rest = if rem.len() > 0 { seq![(cur, rem)] } else { seq![] };
    match first_match(rem, |c: char| is_esc(c)) {
        None => rest,
        Some(pos) => {
            let before = rem.take(pos);
            let pre = if before.len() > 0 { seq![(cur, before)] } else { seq![] };
            let after = rem.skip(pos);
            match first_match(after.skip(1), |c: char| is_ascii_alpha(c)) {
                Some(len) => {
                    if 0 <= pos && 0 <= len && pos + len + 2 <= rem.len() {
                        let st2 = after_sequence(st, after.subrange(1, 1 + len));
                        pre + scan_segments(rem.skip(pos + len + 2), st2, style_of(st2))
                    } else {
                        pre + rest
                    }
                },
                None => pre + rest,
            }
        },
    }
}

/// The colour a line without plain text gets from the log level it names.
pub open spec fn level_style(line: Seq<char>) -> SegmentStyle {
    let fg = if contains_seq(line, "ERROR"@) || contains_seq(line, "error"@) {
        TermColor::Rgb(255, 80, 80)
    } else if contains_seq(line, "WARN"@) || contains_seq(line, "warn"@) {
        TermColor::Rgb(255, 200, 50)
    } else if contains_seq(line, "INFO"@) || contains_seq(line, "info"@) {
        TermColor::Rgb(80, 255, 140)
    } else if contains_seq(line, "DEBUG"@) || contains_seq(line, "debug"@) {
        TermColor::DarkGray
    } else {
        TermColor::Rgb(200, 210, 220)
    };
    SegmentStyle { fg: Some(fg), bg: None, bold: false, dim: false }
}

/// The styled segments of a log line.
pub open spec fn line_segments(line: Seq<char>) -> Seq<(SegmentStyle, Seq<char>)> {
    let segs = scan_segments(line, no_attributes(), default_text_style());
    if segs.len() == 0 { seq![(level_style(line), line)] } else { segs }
}

/// The view of a list of segments.
pub open spec fn segments_view(v: Seq<(SegmentStyle, String)>) -> Seq<(SegmentStyle, Seq<char>)> {
    Seq::new(v.len(), |i: int| (v[i].0, v[i].1@))
}

fn push_segment(out: &mut Vec<(SegmentStyle, String)>, style: SegmentStyle, v: &Vec<char>, lo: usize, hi: usize)
    requires
        lo <= hi <= v.len(),
    ensures
        segments_view(final(out)@) == segments_view(old(out)@) + (if lo < hi {
            seq![(style, v@.subrange(lo as int, hi as int))]
        } else {
            seq![]
        }),
{
    if lo < hi {
        let piece = crate::scan::sub_chars(v, lo, hi);
        let text = string_from_chars(&piece);
        let ghost before = out@;
        out.push((style, text));
        assert(segments_view(out@) =~= segments_view(before) + seq![(style, v@.subrange(lo as int, hi as int))]);
    } else {
        assert(segments_view(out@) =~= segments_view(old(out)@) + Seq::<(SegmentStyle, Seq<char>)>::empty());
    }
}

fn level_of(v: &Vec<char>) -> (s: SegmentStyle)
    ensures
        s == level_style(v@),
{
    let fg = if chars_contain(v, &chars_of("ERROR")) || chars_contain(v, &chars_of("error")) {
        TermColor::Rgb(255, 80, 80)
    } else if chars_contain(v, &chars_of("WARN")) || chars_contain(v, &chars_of("warn")) {
        TermColor::Rgb(255, 200, 50)
    } else if chars_contain(v, &chars_of("INFO")) || chars_contain(v, &chars_of("info")) {
        TermColor::Rgb(80, 255, 140)
    } else if chars_contain(v, &chars_of("DEBUG")) || chars_contain(v, &chars_of("debug")) {
        TermColor::DarkGray
    } else {
        TermColor::Rgb(200, 210, 220)
    };
    SegmentStyle { fg: Some(fg), bg: None, bold: false, dim: false }
}

/// `parse_ansi`: the styled segments of a log line.
pub fn parse_ansi(line: &str) -> (r: Vec<(SegmentStyle, String)>)
    ensures
        segments_view(r@) == line_segments(line@),
{
    let v = chars_of(line);
    let ghost total = scan_segments(v@, no_attributes(), default_text_style());
    let mut out: Vec<(SegmentStyle, String)> = Vec::new();
    let mut st = SgrState { bold: false, dim: false, fg: None, bg: None };
    let mut cur = SegmentStyle { fg: Some(TermColor::Rgb(200, 210, 220)), bg: None, bold: false, dim: false };
    let mut i: usize = 0;
    assert(v@.skip(0) =~= v@);
    loop
        invariant_except_break
            segments_view(out@) + scan_segments(v@.skip(i as int), st, cur) == total,
        invariant
            v@ == line@,
            i <= v.len(),
            total == scan_segments(v@, no_attributes(), default_text_style()),
        ensures
            segments_view(out@) == total,
        decreases v.len() - i,
    {
        let ghost rem = v@.skip(i as int);
        let pos = find_esc(&v, i);
        if pos == v.len() {
            push_segment(&mut out, cur, &v, i, v.len());
            assert(v@.subrange(i as int, v.len() as int) =~= rem);
            break;
        }
        assert(rem.take(pos - i) =~= v@.subrange(i as int, pos as int));
        assert(rem.skip(pos - i).skip(1) =~= v@.skip(pos + 1));
        let end = find_alpha(&v, pos + 1);
        if end == v.len() {
            push_segment(&mut out, cur, &v, i, pos);
            push_segment(&mut out, cur, &v, i, v.len());
            assert(v@.subrange(i as int, v.len() as int) =~= rem);
            break;
        }
        assert(rem.skip(pos - i).subrange(1, 1 + (end - pos - 1)) =~= v@.subrange(pos + 1, end as int));
        assert(rem.skip((pos - i) + (end - pos - 1) + 2) =~= v@.skip(end + 1));
        push_segment(&mut out, cur, &v, i, pos);
        if v[pos + 1] == '[' {
            let params = split_params(&v, pos + 2, end);
            proof {
                assert(v@.subrange(pos + 1, end as int).drop_first() =~= v@.subrange(pos + 2, end as int));
            }
            st = apply_sgr_params(&params, st);
        }
        cur = SegmentStyle { fg: st.fg, bg: st.bg, bold: st.bold, dim: st.dim };
        i = end + 1;
    }
    if out.len() == 0 {
        let style = level_of(&v);
        let text = string_from_chars(&v);
        out.push((style, text));
        assert(segments_view(out@) =~= seq![(level_style(line@), line@)]);
    }
    out
}

} // verus!
