//! Dashboard colours and the short text renderings of durations, sizes and
//! clock times that the panes show.
use vstd::prelude::*;
use crate::config::ThemeConfig;
use crate::text::{chars_of, dec, dec2, push_dec, push_dec2, push_str};

verus! {

/// A 24-bit colour.
#[derive(Debug, Clone, Copy, PartialEq, Eq, Structural)]
pub struct Rgb {
    pub r: u8,
    pub g: u8,
    pub b: u8,
}

pub open spec fn rgb(r: u8, g: u8, b: u8) -> Rgb {
    Rgb { r: r, g: g, b: b }
}

/// Every colour the dashboard draws with.
#[derive(Debug, Clone, Copy, PartialEq, Eq, Structural)]
pub struct ThemeColors {
    pub bg_dark: Rgb,
    pub bg_mid: Rgb,
    pub bg_light: Rgb,
    pub border: Rgb,
    pub accent: Rgb,
    pub accent_green: Rgb,
    pub accent_red: Rgb,
    pub accent_yellow: Rgb,
    pub accent_purple: Rgb,
    pub text_bright: Rgb,
    pub text_dim: Rgb,
    pub text_faded: Rgb,
    pub bar_cpu: Rgb,
    pub bar_mem: Rgb,
    pub bar_io: Rgb,
    pub row_selected: Rgb,
    pub row_hover: Rgb,
}

/// The theme variants.
#[derive(Debug, Clone, Copy, PartialEq, Eq, Structural)]
pub enum Theme {
    Neon,
    Dark,
    Light,
}

impl Default for Theme {
    fn default() -> (t: Theme)
        ensures
            t == Theme::Neon,
    {
        Theme::Neon
    }
}

/// The palette of each theme.
pub open spec fn palette(t: Theme) -> ThemeColors {
    match t {
        Theme::Neon => ThemeColors {
            bg_dark: rgb(10, 10, 16),
            bg_mid: rgb(16, 18, 28),
            bg_light: rgb(22, 25, 38),
            border: rgb(35, 40, 55),
            accent: rgb(0, 200, 255),
            accent_green: rgb(0, 230, 120),
            accent_red: rgb(230, 50, 70),
            accent_yellow: rgb(255, 200, 50),
            accent_purple: rgb(160, 80, 255),
            text_bright: rgb(200, 210, 220),
            text_dim: rgb(80, 85, 100),
            text_faded: rgb(50, 55, 70),
            bar_cpu: rgb(0, 200, 255),
            bar_mem: rgb(255, 180, 0),
            bar_io: rgb(160, 80, 255),
            row_selected: rgb(25, 32, 60),
            row_hover: rgb(14, 16, 26),
        },
        Theme::Dark => ThemeColors {
            bg_dark: rgb(0, 0, 0),
            bg_mid: rgb(8, 8, 12),
            bg_light: rgb(12, 12, 18),
            border: rgb(30, 30, 40),
            accent: rgb(0, 150, 220),
            accent_green: rgb(0, 200, 100),
            accent_red: rgb(200, 40, 60),
            accent_yellow: rgb(200, 150, 30),
            accent_purple: rgb(120, 60, 200),
            text_bright: rgb(180, 190, 200),
            text_dim: rgb(70, 75, 90),
            text_faded: rgb(40, 45, 55),
            bar_cpu: rgb(0, 150, 220),
            bar_mem: rgb(200, 140, 0),
            bar_io: rgb(120, 60, 200),
            row_selected: rgb(15, 18, 35),
            row_hover: rgb(10, 12, 22),
        },
        Theme::Light => ThemeColors {
            bg_dark: rgb(240, 242, 248),
            bg_mid: rgb(232, 234, 242),
            bg_light: rgb(225, 228, 238),
            border: rgb(200, 205, 215),
            accent: rgb(0, 100, 200),
            accent_green: rgb(0, 160, 80),
            accent_red: rgb(200, 30, 50),
            accent_yellow: rgb(180, 130, 10),
            accent_purple: rgb(100, 40, 180),
            text_bright: rgb(20, 25, 35),
            text_dim: rgb(100, 105, 120),
            text_faded: rgb(150, 155, 170),
            bar_cpu: rgb(0, 100, 200),
            bar_mem: rgb(180, 120, 0),
            bar_io: rgb(100, 40, 180),
            row_selected: rgb(210, 215, 230),
            row_hover: rgb(220, 222, 235),
        },
    }
}

// ── Hex colours ────────────────────────────────────────────────────

/// `s` without its leading `#` characters (`trim_start_matches('#')`).
pub open spec fn trim_hashes(s: Seq<char>) -> Seq<char>
    decreases s.len(),
{
    if s.len() > 0 && s[0] == '#' { trim_hashes(s.drop_first()) } else { s }
}

/// The number of bytes of `c` in UTF-8.
pub open spec fn utf8_width(c: char) -> nat {
    if (c as u32) < 0x80 { 1 } else if (c as u32) < 0x800 { 2 } else if (c as u32) < 0x10000 { 3 } else { 4 }
}

/// The UTF-8 length of the first `n` characters of `s`.
pub open spec fn utf8_prefix_len(s: Seq<char>, n: int) -> nat
    decreases n,
{
    if n <= 0 || s.len() == 0 { 0 } else { utf8_prefix_len(s, n - 1) + utf8_width(s[n - 1]) }
}

/// The UTF-8 length of `s` (`str::len`).
pub open spec fn utf8_len(s: Seq<char>) -> nat {
    utf8_prefix_len(s, s.len() as int)
}

/// Whether byte offset `k` falls between two characters of `s`.
pub open spec fn is_boundary(s: Seq<char>, k: nat) -> bool {
    exists|n: int| 0 <= n <= s.len() && utf8_prefix_len(s, n) == k
}

pub open spec fn hex_value(c: char) -> nat {
    if '0' <= c && c <= '9' {
        (c as u32 - 48) as nat
    } else if 'a' <= c && c <= 'f' {
        (c as u32 - 87) as nat
    } else {
        (c as u32 - 55) as nat
    }
}

/// The byte two hex digits denote, the first the high one.
pub open spec fn hex_byte(a: char, b: char) -> u8 {
    (hex_value(a) * 16 + hex_value(b)) as u8
}

/// Whether `t` is exactly six ASCII hex digits.
pub open spec fn six_hex_digits(t: Seq<char>) -> bool {
    t.len() == 6 && forall|i: int| 0 <= i < 6 ==> crate::config::is_hex_digit(#[trigger] t[i])
}

/// The colour a `#RRGGBB` string denotes, if any: leading `#`s are
/// dropped, and exactly six hex digits must remain.
pub open spec fn hex_color(s: Seq<char>) -> Option<Rgb> {
    let t = trim_hashes(s);
    if six_hex_digits(t) {
        Some(rgb(hex_byte(t[0], t[1]), hex_byte(t[2], t[3]), hex_byte(t[4], t[5])))
    } else {
        None
    }
}

fn is_hex_digit_char(c: char) -> (r: bool)
    ensures
        r == crate::config::is_hex_digit(c),
{
    ('0' <= c && c <= '9') || ('a' <= c && c <= 'f') || ('A' <= c && c <= 'F')
}

fn hex_digit_value(c: char) -> (v: u8)
    requires
        crate::config::is_hex_digit(c),
    ensures
        v as nat == hex_value(c),
        v < 16,
{
    if '0' <= c && c <= '9' {
        (c as u32 - 48) as u8
    } else if 'a' <= c && c <= 'f' {
        (c as u32 - 87) as u8
    } else {
        (c as u32 - 55) as u8
    }
}

fn parse_pair(a: char, b: char) -> (r: u8)
    requires
        crate::config::is_hex_digit(a),
        crate::config::is_hex_digit(b),
    ensures
        r == hex_byte(a, b),
{
    let hi = hex_digit_value(a);
    let lo = hex_digit_value(b);
    hi * 16 + lo
}

pub proof fn lemma_prefix_len_mono(s: Seq<char>, m: int, n: int)
    requires
        0 <= m <= n <= s.len(),
    ensures
        utf8_prefix_len(s, m) <= utf8_prefix_len(s, n),
    decreases n - m,
{
    if m < n {
        lemma_prefix_len_mono(s, m, n - 1);
    }
}

/// Drops the leading `#` characters.
fn trim_hash_chars(v: &Vec<char>) -> (r: Vec<char>)
    ensures
        r@ == trim_hashes(v@),
{
    let mut i: usize = 0;
    assert(v@.skip(0) =~= v@);
    while i < v.len() && v[i] == '#'
        invariant
            i <= v.len(),
            trim_hashes(v@) == trim_hashes(v@.skip(i as int)),
        decreases v.len() - i,
    {
        assert(v@.skip(i as int).drop_first() =~= v@.skip(i + 1));
        i = i + 1;
    }
    let mut r: Vec<char> = Vec::new();
    let mut j: usize = i;
    while j < v.len()
        invariant
            i <= j <= v.len(),
            r@ == v@.subrange(i as int, j as int),
        decreases v.len() - j,
    {
        r.push(v[j]);
        j = j + 1;
        assert(r@ =~= v@.subrange(i as int, j as int));
    }
    assert(r@ =~= v@.skip(i as int));
    assert(i == v.len() || v@.skip(i as int)[0] != '#');
    r
}

/// Parses `#RRGGBB`: after any leading `#`s, exactly six hex digits.
pub fn parse_hex_color(hex: &str) -> (r: Result<Rgb, ()>)
    ensures
        match r {
            Ok(c) => hex_color(hex@) == Some(c),
            Err(_) => hex_color(hex@).is_none(),
        },
{
    let t = trim_hash_chars(&chars_of(hex));
    if t.len() != 6 {
        return Err(());
    }
    let mut i: usize = 0;
    while i < 6
        invariant
            t@ == trim_hashes(hex@),
            t.len() == 6,
            i <= 6,
            forall|j: int| 0 <= j < i ==> crate::config::is_hex_digit(#[trigger] t@[j]),
        decreases 6 - i,
    {
        if !is_hex_digit_char(t[i]) {
            assert(!crate::config::is_hex_digit(t@[i as int]));
            assert(!six_hex_digits(t@));
            return Err(());
        }
        i = i + 1;
    }
    assert(six_hex_digits(t@));
    let r = parse_pair(t[0], t[1]);
    let g = parse_pair(t[2], t[3]);
    let b = parse_pair(t[4], t[5]);
    Ok(Rgb { r, g, b })
}

// ── Theme selection ────────────────────────────────────────────────

/// The palette after the overrides that parse.
pub open spec fn overridden(c: ThemeColors, cfg: Option<ThemeConfig>) -> ThemeColors {
    match cfg {
        Some(theme) => {
            let c1 = match theme.accent {
                Some(a) => match hex_color(a@) {
                    Some(col) => ThemeColors { accent: col, bar_cpu: col, ..c },
                    None => c,
                },
                None => c,
            };
            let c2 = match theme.bg_dark {
                Some(a) => match hex_color(a@) {
                    Some(col) => ThemeColors { bg_dark: col, ..c1 },
                    None => c1,
                },
                None => c1,
            };
            match theme.bg_mid {
                Some(a) => match hex_color(a@) {
                    Some(col) => ThemeColors { bg_mid: col, ..c2 },
                    None => c2,
                },
                None => c2,
            }
        },
        None => c,
    }
}

impl Theme {
    /// The theme a configuration selects: always Neon; its colour
    /// overrides apply through `colors_with_overrides`.
    pub fn from_config(_cfg: &Option<ThemeConfig>) -> (t: Theme)
        ensures
            t == Theme::Neon,
    {
        Theme::Neon
    }

    /// This theme's palette.
    pub fn colors(&self) -> (c: ThemeColors)
        ensures
            c == palette(*self),
    {
        match self {
            Theme::Neon => ThemeColors {
                bg_dark: Rgb { r: 10, g: 10, b: 16 },
                bg_mid: Rgb { r: 16, g: 18, b: 28 },
                bg_light: Rgb { r: 22, g: 25, b: 38 },
                border: Rgb { r: 35, g: 40, b: 55 },
                accent: Rgb { r: 0, g: 200, b: 255 },
                accent_green: Rgb { r: 0, g: 230, b: 120 },
                accent_red: Rgb { r: 230, g: 50, b: 70 },
                accent_yellow: Rgb { r: 255, g: 200, b: 50 },
                accent_purple: Rgb { r: 160, g: 80, b: 255 },
                text_bright: Rgb { r: 200, g: 210, b: 220 },
                text_dim: Rgb { r: 80, g: 85, b: 100 },
                text_faded: Rgb { r: 50, g: 55, b: 70 },
                bar_cpu: Rgb { r: 0, g: 200, b: 255 },
                bar_mem: Rgb { r: 255, g: 180, b: 0 },
                bar_io: Rgb { r: 160, g: 80, b: 255 },
                row_selected: Rgb { r: 25, g: 32, b: 60 },
                row_hover: Rgb { r: 14, g: 16, b: 26 },
            },
            Theme::Dark => ThemeColors {
                bg_dark: Rgb { r: 0, g: 0, b: 0 },
                bg_mid: Rgb { r: 8, g: 8, b: 12 },
                bg_light: Rgb { r: 12, g: 12, b: 18 },
                border: Rgb { r: 30, g: 30, b: 40 },
                accent: Rgb { r: 0, g: 150, b: 220 },
                accent_green: Rgb { r: 0, g: 200, b: 100 },
                accent_red: Rgb { r: 200, g: 40, b: 60 },
                accent_yellow: Rgb { r: 200, g: 150, b: 30 },
                accent_purple: Rgb { r: 120, g: 60, b: 200 },
                text_bright: Rgb { r: 180, g: 190, b: 200 },
                text_dim: Rgb { r: 70, g: 75, b: 90 },
                text_faded: Rgb { r: 40, g: 45, b: 55 },
                bar_cpu: Rgb { r: 0, g: 150, b: 220 },
                bar_mem: Rgb { r: 200, g: 140, b: 0 },
                bar_io: Rgb { r: 120, g: 60, b: 200 },
                row_selected: Rgb { r: 15, g: 18, b: 35 },
                row_hover: Rgb { r: 10, g: 12, b: 22 },
            },
            Theme::Light => ThemeColors {
                bg_dark: Rgb { r: 240, g: 242, b: 248 },
                bg_mid: Rgb { r: 232, g: 234, b: 242 },
                bg_light: Rgb { r: 225, g: 228, b: 238 },
                border: Rgb { r: 200, g: 205, b: 215 },
                accent: Rgb { r: 0, g: 100, b: 200 },
                accent_green: Rgb { r: 0, g: 160, b: 80 },
                accent_red: Rgb { r: 200, g: 30, b: 50 },
                accent_yellow: Rgb { r: 180, g: 130, b: 10 },
                accent_purple: Rgb { r: 100, g: 40, b: 180 },
                text_bright: Rgb { r: 20, g: 25, b: 35 },
                text_dim: Rgb { r: 100, g: 105, b: 120 },
                text_faded: Rgb { r: 150, g: 155, b: 170 },
                bar_cpu: Rgb { r: 0, g: 100, b: 200 },
                bar_mem: Rgb { r: 180, g: 120, b: 0 },
                bar_io: Rgb { r: 100, g: 40, b: 180 },
                row_selected: Rgb { r: 210, g: 215, b: 230 },
                row_hover: Rgb { r: 220, g: 222, b: 235 },
            },
        }
    }

    /// This theme's palette with the configured overrides applied: the
    /// accent (also used for CPU bars), the dark and the mid background.
    /// An override that does not parse is ignored.
    pub fn colors_with_overrides(&self, cfg: &Option<ThemeConfig>) -> (c: ThemeColors)
        ensures
            c == overridden(palette(*self), *cfg),
    {
        let mut c = self.colors();
        if let Some(theme) = cfg {
            if let Some(accent) = &theme.accent {
                if let Ok(color) = parse_hex_color(accent.as_str()) {
                    c.accent = color;
                    c.bar_cpu = color;
                }
            }
            if let Some(bg) = &theme.bg_dark {
                if let Ok(color) = parse_hex_color(bg.as_str()) {
                    c.bg_dark = color;
                }
            }
            if let Some(bg) = &theme.bg_mid {
                if let Ok(color) = parse_hex_color(bg.as_str()) {
                    c.bg_mid = color;
                }
            }
        }
        c
    }
}

// ── Durations, sizes and clock times ───────────────────────────────

/// `format_uptime`: hours and minutes once an hour has passed, minutes and
/// seconds once a minute has, else seconds (`1h05m`, `3m07s`, `42s`).
pub open spec fn uptime_text(secs: nat) -> Seq<char> {
    let h = secs / 3600;
    let m = (secs % 3600) / 60;
    let s = secs % 60;
    if h > 0 {
        dec(h) + "h"@ + dec2(m) + "m"@
    } else if m > 0 {
        dec(m) + "m"@ + dec2(s) + "s"@
    } else {
        dec(s) + "s"@
    }
}

pub fn format_uptime(secs: u64) -> (r: String)
    ensures
        r@ == uptime_text(secs as nat),
{
    let h = secs / 3600;
    let m = (secs % 3600) / 60;
    let s = secs % 60;
    let mut r = String::new();
    if h > 0 {
        push_dec(&mut r, h);
        push_str(&mut r, "h");
        push_dec2(&mut r, m);
        push_str(&mut r, "m");
    } else if m > 0 {
        push_dec(&mut r, m);
        push_str(&mut r, "m");
        push_dec2(&mut r, s);
        push_str(&mut r, "s");
    } else {
        push_dec(&mut r, s);
        push_str(&mut r, "s");
    }
    assert(r@ =~= uptime_text(secs as nat));
    r
}

/// The sidebar's short uptime: nothing for zero, else `↑1h05m`, `↑3m` or
/// `↑42s`.
pub open spec fn compact_uptime_text(secs: nat) -> Seq<char> {
    let h = secs / 3600;
    let m = (secs % 3600) / 60;
    if secs == 0 {
        seq![]
    } else if h > 0 {
        "↑"@ + dec(h) + "h"@ + dec2(m) + "m"@
    } else if m > 0 {
        "↑"@ + dec(m) + "m"@
    } else {
        "↑"@ + dec(secs) + "s"@
    }
}

pub fn format_compact_uptime(secs: u64) -> (r: String)
    ensures
        r@ == compact_uptime_text(secs as nat),
{
    let mut r = String::new();
    if secs == 0 {
        assert(r@ =~= compact_uptime_text(secs as nat));
        return r;
    }
    let h = secs / 3600;
    let m = (secs % 3600) / 60;
    push_str(&mut r, "↑");
    if h > 0 {
        push_dec(&mut r, h);
        push_str(&mut r, "h");
        push_dec2(&mut r, m);
        push_str(&mut r, "m");
    } else if m > 0 {
        push_dec(&mut r, m);
        push_str(&mut r, "m");
    } else {
        push_dec(&mut r, secs);
        push_str(&mut r, "s");
    }
    assert(r@ =~= compact_uptime_text(secs as nat));
    r
}

/// `HH:MM:SS` of an epoch-millis timestamp (UTC, hours modulo 24).
pub open spec fn clock_text(ts: nat) -> Seq<char> {
    let secs = ts / 1000;
    dec2((secs / 3600) % 24) + ":"@ + dec2((secs / 60) % 60) + ":"@ + dec2(secs % 60)
}

pub fn format_clock(ts: u64) -> (r: String)
    ensures
        r@ == clock_text(ts as nat),
{
    let secs = ts / 1000;
    let mut r = String::new();
    push_dec2(&mut r, (secs / 3600) % 24);
    push_str(&mut r, ":");
    push_dec2(&mut r, (secs / 60) % 60);
    push_str(&mut r, ":");
    push_dec2(&mut r, secs % 60);
    assert(r@ =~= clock_text(ts as nat));
    r
}

/// `DD+HH:MM:SS` of an epoch-millis timestamp: whole days since the epoch,
/// then the time of day.
pub open spec fn day_clock_text(ts: nat) -> Seq<char> {
    let secs = ts / 1000;
    dec2(secs / 86400) + "+"@ + dec2((secs / 3600) % 24) + ":"@ + dec2((secs / 60) % 60) + ":"@
        + dec2(secs % 60)
}

pub fn format_day_clock(ts: u64) -> (r: String)
    ensures
        r@ == day_clock_text(ts as nat),
{
    let secs = ts / 1000;
    let mut r = String::new();
    push_dec2(&mut r, secs / 86400);
    push_str(&mut r, "+");
    push_dec2(&mut r, (secs / 3600) % 24);
    push_str(&mut r, ":");
    push_dec2(&mut r, (secs / 60) % 60);
    push_str(&mut r, ":");
    push_dec2(&mut r, secs % 60);
    assert(r@ =~= day_clock_text(ts as nat));
    r
}

/// `n / d` rounded to the nearest integer, ties to even.
pub open spec fn round_div_even(n: nat, d: nat) -> nat {
    let q = n / d;
    let r = n % d;
    if 2 * r > d || (2 * r == d && q % 2 == 1) { q + 1 } else { q }
}

/// The number of bits of `n`.
pub open spec fn bit_len(n: nat) -> nat
    decreases n,
{
    if n == 0 { 0 } else { 1 + bit_len(n / 2) }
}

pub open spec fn pow2(k: nat) -> nat
    decreases k,
{
    if k == 0 { 1 } else { 2 * pow2((k - 1) as nat) }
}

/// `n as f64`: `n` rounded to 53 significant bits, ties to even.
pub open spec fn to_f64(n: nat) -> nat {
    if bit_len(n) <= 53 {
        n
    } else {
        let k = (bit_len(n) - 53) as nat;
        round_div_even(n, pow2(k)) * pow2(k)
    }
}

pub const KIB: u64 = 1024;
pub const MIB: u64 = 1048576;
pub const GIB: u64 = 1073741824;

/// `human_bytes`: bytes below 1 KiB as `NB`; below 1 MiB as whole KiB
/// (`{:.0}`, ties to even); below 1 GiB as whole MiB; from 1 GiB on as GiB
/// with one decimal of the value's `f64` rounding.
pub open spec fn human_bytes_text(bytes: nat) -> Seq<char> {
    if bytes >= GIB {
        let tenths = round_div_even(to_f64(bytes) * 10, GIB as nat);
        dec(tenths / 10) + "."@ + dec(tenths % 10) + "GB"@
    } else if bytes >= MIB {
        dec(round_div_even(bytes, MIB as nat)) + "MB"@
    } else if bytes >= KIB {
        dec(round_div_even(bytes, KIB as nat)) + "KB"@
    } else {
        dec(bytes) + "B"@
    }
}

fn round_div_even_u128(n: u128, d: u128) -> (r: u128)
    requires
        d > 0,
        n / d < u128::MAX,
    ensures
        r as nat == round_div_even(n as nat, d as nat),
{
    let q = n / d;
    let r = n % d;
    if r > d - r || (r == d - r && q % 2 == 1) { q + 1 } else { q }
}

proof fn lemma_pow2_pos(k: nat)
    ensures
        pow2(k) > 0,
    decreases k,
{
    if k > 0 {
        lemma_pow2_pos((k - 1) as nat);
    }
}

proof fn lemma_pow2_64()
    ensures
        pow2(64) == 0x1_0000_0000_0000_0000nat,
{
    reveal_with_fuel(pow2, 65);
}

proof fn lemma_bit_len_bound(n: nat, k: nat)
    requires
        n < pow2(k),
    ensures
        bit_len(n) <= k,
    decreases k,
{
    if n > 0 {
        if k == 0 {
            assert(pow2(0) == 1);
        } else {
            assert(pow2(k) == 2 * pow2((k - 1) as nat));
            lemma_bit_len_bound(n / 2, (k - 1) as nat);
        }
    }
}

/// `n as f64`, as an integer.
fn u64_as_f64_value(n: u64) -> (r: u128)
    ensures
        r as nat == to_f64(n as nat),
        r < 0x1000_0000_0000_0000_0000u128,
{
    proof {
        lemma_pow2_64();
        lemma_bit_len_bound(n as nat, 64);
    }
    let mut bits: u64 = 0;
    let mut m: u64 = n;
    while m > 0
        invariant
            bits + bit_len(m as nat) == bit_len(n as nat),
            bit_len(n as nat) <= 64,
        decreases m,
    {
        m = m / 2;
        bits = bits + 1;
    }
    if bits <= 53 {
        return n as u128;
    }
    let k = bits - 53;
    let mut p: u128 = 1;
    let mut i: u64 = 0;
    while i < k
        invariant
            i <= k,
            k <= 11,
            p as nat == pow2(i as nat),
            p <= 2048,
        decreases k - i,
    {
        proof {
            assert(pow2((i + 1) as nat) == 2 * pow2(i as nat));
            lemma_pow2_le(i as nat + 1, 11);
            assert(pow2(11) == 2048) by { reveal_with_fuel(pow2, 12); }
        }
        p = p * 2;
        i = i + 1;
    }
    proof {
        lemma_pow2_pos(k as nat);
    }
    let q = (n as u128) / p;
    let rem = (n as u128) % p;
    let rounded = if rem > p - rem || (rem == p - rem && q % 2 == 1) { q + 1 } else { q };
    assert(rounded <= n as u128 + 1);
    assert(rounded * p <= (n as u128 + 1) * 2048) by (nonlinear_arith)
        requires
            rounded <= n as u128 + 1,
            p <= 2048,
    ;
    rounded * p
}

proof fn lemma_pow2_le(i: nat, j: nat)
    requires
        i <= j,
    ensures
        pow2(i) <= pow2(j),
    decreases j - i,
{
    if i < j {
        lemma_pow2_le(i, (j - 1) as nat);
        assert(pow2(j) == 2 * pow2((j - 1) as nat));
        lemma_pow2_pos((j - 1) as nat);
    }
}

pub fn human_bytes(bytes: u64) -> (r: String)
    ensures
        r@ == human_bytes_text(bytes as nat),
{
    let mut r = String::new();
    if bytes >= GIB {
        let x = u64_as_f64_value(bytes);
        let tenths = round_div_even_u128(x * 10, GIB as u128);
        assert(tenths as int <= (x as int * 10) / (GIB as int) + 1);
        assert((x as int * 10) / (GIB as int) <= x as int * 10);
        assert(tenths / 10 < 0x1_0000_0000_0000_0000u128);
        push_dec(&mut r, (tenths / 10) as u64);
        push_str(&mut r, ".");
        push_dec(&mut r, (tenths % 10) as u64);
        push_str(&mut r, "GB");
    } else if bytes >= MIB {
        push_dec(&mut r, round_div_even_u128(bytes as u128, MIB as u128) as u64);
        push_str(&mut r, "MB");
    } else if bytes >= KIB {
        push_dec(&mut r, round_div_even_u128(bytes as u128, KIB as u128) as u64);
        push_str(&mut r, "KB");
    } else {
        push_dec(&mut r, bytes);
        push_str(&mut r, "B");
    }
    assert(r@ =~= human_bytes_text(bytes as nat));
    r
}

} // verus!

verus! {

/// The colours the dashboard draws with are chosen once: the first `init`
/// (or `init_with_colors`) fills the slot and later ones leave it as it is.
pub fn init(slot: &mut Option<ThemeColors>, theme: Theme)
    ensures
        *final(slot) == match *old(slot) {
            Some(c) => Some(c),
            None => Some(palette(theme)),
        },
{
    if slot.is_none() {
        *slot = Some(theme.colors());
    }
}

/// Installs the given colours unless some are installed already.
pub fn init_with_colors(slot: &mut Option<ThemeColors>, colors: ThemeColors)
    ensures
        *final(slot) == match *old(slot) {
            Some(c) => Some(c),
            None => Some(colors),
        },
{
    if slot.is_none() {
        *slot = Some(colors);
    }
}

/// The installed colours; the neon palette is installed first when none
/// are.
pub fn colors(slot: &mut Option<ThemeColors>) -> (c: ThemeColors)
    ensures
        *final(slot) == Some(c),
        c == match *old(slot) {
            Some(x) => x,
            None => palette(Theme::Neon),
        },
{
    match *slot {
        Some(c) => c,
        None => {
            let c = Theme::Neon.colors();
            *slot = Some(c);
            c
        },
    }
}

} // verus!
