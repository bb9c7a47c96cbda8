//! Scanning text the way `str`'s own methods do: Unicode whitespace,
//! `lines`, `split_whitespace`, `trim`, and unsigned integer parsing in
//! base 10 or 16. The telemetry and wire parsers are built from these.
use vstd::prelude::*;
use crate::vecs::vec_push;

verus! {

/// `char::is_whitespace`: the Unicode `White_Space` property.
pub open spec fn is_ws(c: char) -> bool {
    let u = c as u32;
    (9 <= u && u <= 13) || u == 32 || u == 0x85 || u == 0xa0 || u == 0x1680
        || (0x2000 <= u && u <= 0x200a) || u == 0x2028 || u == 0x2029 || u == 0x202f
        || u == 0x205f || u == 0x3000
}

pub fn is_whitespace(c: char) -> (r: bool)
    ensures
        r == is_ws(c),
{
    let u = c as u32;
    (9 <= u && u <= 13) || u == 32 || u == 0x85 || u == 0xa0 || u == 0x1680
        || (0x2000 <= u && u <= 0x200a) || u == 0x2028 || u == 0x2029 || u == 0x202f
        || u == 0x205f || u == 0x3000
}

// ── lines ──────────────────────────────────────────────────────────

/// A line without the `\r` of a `\r\n` ending.
pub open spec fn strip_cr(line: Seq<char>) -> Seq<char> {
    if line.len() > 0 && line.last() == '\r' { line.drop_last() } else { line }
}

/// The finished lines of `s` and the unfinished last one.
pub open spec fn line_fold(s: Seq<char>) -> (Seq<Seq<char>>, Seq<char>)
    decreases s.len(),
{
    if s.len() == 0 {
        (seq![], seq![])
    } else {
        let (done, cur) = line_fold(s.drop_last());
        if s.last() == '\n' {
            (done.push(strip_cr(cur)), seq![])
        } else {
            (done, cur.push(s.last()))
        }
    }
}

/// `str::lines`: the lines of `s`, split at `\n` or `\r\n`; a final line
/// ending adds no empty line.
pub open spec fn lines_of(s: Seq<char>) -> Seq<Seq<char>> {
    let (done, cur) = line_fold(s);
    if cur.len() > 0 { done.push(cur) } else { done }
}

/// A vector of characters is its own deep view.
pub proof fn lemma_chars_deep(v: &Vec<char>)
    ensures
        v.deep_view() == v@,
{
    assert(v.deep_view() =~= v@);
}

fn strip_cr_vec(cur: Vec<char>) -> (r: Vec<char>)
    ensures
        r@ == strip_cr(cur@),
{
    let mut cur = cur;
    if cur.len() > 0 && cur[cur.len() - 1] == '\r' {
        cur.pop();
    }
    cur
}

pub fn split_lines(s: &Vec<char>) -> (r: Vec<Vec<char>>)
    ensures
        r.deep_view() == lines_of(s@),
{
    let mut done: Vec<Vec<char>> = Vec::new();
    let mut cur: Vec<char> = Vec::new();
    let mut i: usize = 0;
    while i < s.len()
        invariant
            i <= s.len(),
            (done.deep_view(), cur@) == line_fold(s@.take(i as int)),
        decreases s.len() - i,
    {
        proof {
            assert(s@.take(i + 1).drop_last() =~= s@.take(i as int));
        }
        let c = s[i];
        if c == '\n' {
            let line = strip_cr_vec(cur);
            proof { lemma_chars_deep(&line); }
            vec_push(&mut done, line);
            cur = Vec::new();
        } else {
            cur.push(c);
        }
        i = i + 1;
        assert((done.deep_view(), cur@) == line_fold(s@.take(i as int)));
    }
    assert(s@.take(i as int) =~= s@);
    if cur.len() > 0 {
        proof { lemma_chars_deep(&cur); }
        vec_push(&mut done, cur);
    }
    done
}

// ── words ──────────────────────────────────────────────────────────

/// The finished words of `s` and the unfinished last one.
pub open spec fn word_fold(s: Seq<char>) -> (Seq<Seq<char>>, Seq<char>)
    decreases s.len(),
{
    if s.len() == 0 {
        (seq![], seq![])
    } else {
        let (done, cur) = word_fold(s.drop_last());
        if is_ws(s.last()) {
            if cur.len() > 0 { (done.push(cur), seq![]) } else { (done, seq![]) }
        } else {
            (done, cur.push(s.last()))
        }
    }
}

/// `str::split_whitespace`: the maximal runs of non-whitespace in `s`.
pub open spec fn words_of(s: Seq<char>) -> Seq<Seq<char>> {
    let (done, cur) = word_fold(s);
    if cur.len() > 0 { done.push(cur) } else { done }
}

pub fn split_words(s: &Vec<char>) -> (r: Vec<Vec<char>>)
    ensures
        r.deep_view() == words_of(s@),
{
    let mut done: Vec<Vec<char>> = Vec::new();
    let mut cur: Vec<char> = Vec::new();
    let mut i: usize = 0;
    while i < s.len()
        invariant
            i <= s.len(),
            (done.deep_view(), cur@) == word_fold(s@.take(i as int)),
        decreases s.len() - i,
    {
        proof {
            assert(s@.take(i + 1).drop_last() =~= s@.take(i as int));
        }
        let c = s[i];
        if is_whitespace(c) {
            if cur.len() > 0 {
                proof { lemma_chars_deep(&cur); }
                vec_push(&mut done, cur);
                cur = Vec::new();
            }
        } else {
            cur.push(c);
        }
        i = i + 1;
        assert((done.deep_view(), cur@) == word_fold(s@.take(i as int)));
    }
    assert(s@.take(i as int) =~= s@);
    if cur.len() > 0 {
        proof { lemma_chars_deep(&cur); }
        vec_push(&mut done, cur);
    }
    done
}

// ── trim ───────────────────────────────────────────────────────────

/// The number of whitespace characters `s` starts with.
pub open spec fn lead_ws(s: Seq<char>) -> nat
    decreases s.len(),
{
    if s.len() > 0 && is_ws(s[0]) { 1 + lead_ws(s.drop_first()) } else { 0 }
}

/// The number of whitespace characters `s` ends with.
pub open spec fn trail_ws(s: Seq<char>) -> nat
    decreases s.len(),
{
    if s.len() > 0 && is_ws(s.last()) { 1 + trail_ws(s.drop_last()) } else { 0 }
}

/// `str::trim`: `s` without its leading and trailing whitespace.
pub open spec fn trimmed(s: Seq<char>) -> Seq<char> {
    let t = s.skip(lead_ws(s) as int);
    t.take(t.len() - trail_ws(t))
}

proof fn lemma_lead_ws(s: Seq<char>, a: int)
    requires
        0 <= a <= s.len(),
        forall|k: int| 0 <= k < a ==> is_ws(s[k]),
        a == s.len() || !is_ws(s[a]),
    ensures
        lead_ws(s) == a,
    decreases a,
{
    if a > 0 {
        let t = s.drop_first();
        assert forall|k: int| 0 <= k < a - 1 implies is_ws(t[k]) by {
            assert(t[k] == s[k + 1]);
        }
        if a - 1 < t.len() {
            assert(t[a - 1] == s[a]);
        }
        lemma_lead_ws(t, a - 1);
    }
}

proof fn lemma_trail_ws(s: Seq<char>, b: int)
    requires
        0 <= b <= s.len(),
        forall|k: int| b <= k < s.len() ==> is_ws(s[k]),
        b == 0 || !is_ws(s[b - 1]),
    ensures
        trail_ws(s) == s.len() - b,
    decreases s.len() - b,
{
    if b < s.len() {
        let t = s.drop_last();
        assert forall|k: int| b <= k < t.len() implies is_ws(t[k]) by {
            assert(t[k] == s[k]);
        }
        if b > 0 {
            assert(t[b - 1] == s[b - 1]);
        }
        lemma_trail_ws(t, b);
    }
}

/// The bounds `(a, b)` of `trimmed(s[lo..hi])` inside `s`.
pub fn trim_bounds(s: &Vec<char>, lo: usize, hi: usize) -> (r: (usize, usize))
    requires
        lo <= hi <= s.len(),
    ensures
        lo <= r.0 <= r.1 <= hi,
        s@.subrange(r.0 as int, r.1 as int) == trimmed(s@.subrange(lo as int, hi as int)),
{
    let ghost w = s@.subrange(lo as int, hi as int);
    let mut a = lo;
    while a < hi && is_whitespace(s[a])
        invariant
            lo <= a <= hi <= s.len(),
            w == s@.subrange(lo as int, hi as int),
            forall|k: int| lo <= k < a ==> is_ws(s@[k]),
        decreases hi - a,
    {
        a = a + 1;
    }
    proof {
        lemma_lead_ws(w, a - lo);
    }
    let ghost t = w.skip(a - lo);
    assert(t =~= s@.subrange(a as int, hi as int));
    let mut b = hi;
    while b > a && is_whitespace(s[b - 1])
        invariant
            lo <= a <= b <= hi <= s.len(),
            t == s@.subrange(a as int, hi as int),
            forall|k: int| b <= k < hi ==> is_ws(s@[k]),
        decreases b - a,
    {
        b = b - 1;
    }
    proof {
        lemma_trail_ws(t, b - a);
        assert(t.take(t.len() - trail_ws(t)) =~= s@.subrange(a as int, b as int));
    }
    (a, b)
}

// ── unsigned integers ──────────────────────────────────────────────

/// `char::to_digit(radix)` for radix 10 or 16.
pub open spec fn digit_val(c: char, radix: nat) -> Option<nat> {
    let u = c as u32;
    if 48 <= u && u <= 57 && ((u - 48) as nat) < radix {
        Some((u - 48) as nat)
    } else if 97 <= u && u <= 122 && ((u - 87) as nat) < radix {
        Some((u - 87) as nat)
    } else if 65 <= u && u <= 90 && ((u - 55) as nat) < radix {
        Some((u - 55) as nat)
    } else {
        None
    }
}

/// The value of a string of digits, or `None` if one is not a digit.
pub open spec fn digits_val(d: Seq<char>, radix: nat) -> Option<nat>
    decreases d.len(),
{
    if d.len() == 0 {
        Some(0)
    } else {
        match (digits_val(d.drop_last(), radix), digit_val(d.last(), radix)) {
            (Some(v), Some(x)) => Some(v * radix + x),
            _ => None,
        }
    }
}

/// `u64::from_str_radix` (and `parse`) bounded by `max`: an optional `+`,
/// then at least one digit, with a value no greater than `max`.
pub open spec fn parse_uint(s: Seq<char>, radix: nat, max: nat) -> Option<nat> {
    let d = if s.len() > 0 && s[0] == '+' { s.drop_first() } else { s };
    if d.len() == 0 {
        None
    } else {
        match digits_val(d, radix) {
            Some(v) => if v <= max { Some(v) } else { None },
            None => None,
        }
    }
}

proof fn lemma_digits_grow(d: Seq<char>, radix: nat, k: int, j: int)
    requires
        radix >= 1,
        0 <= k <= j <= d.len(),
    ensures
        digits_val(d.take(k), radix) is None ==> digits_val(d.take(j), radix) is None,
        digits_val(d.take(k), radix) is Some && digits_val(d.take(j), radix) is Some
            ==> digits_val(d.take(k), radix)->0 <= digits_val(d.take(j), radix)->0,
    decreases j - k,
{
    if k < j {
        lemma_digits_grow(d, radix, k, j - 1);
        assert(d.take(j).drop_last() =~= d.take(j - 1));
        let p = digits_val(d.take(j - 1), radix);
        if p is Some {
            let v = p->0;
            assert(v * radix >= v) by (nonlinear_arith)
                requires
                    radix >= 1,
            ;
        }
    }
}

fn digit_of(c: char, radix: u32) -> (r: Option<u64>)
    requires
        radix == 10 || radix == 16,
    ensures
        r matches Some(x) ==> digit_val(c, radix as nat) == Some(x as nat),
        r is None ==> digit_val(c, radix as nat) is None,
{
    let u = c as u32;
    if 48 <= u && u <= 57 && u - 48 < radix {
        Some((u - 48) as u64)
    } else if 97 <= u && u <= 122 && u - 87 < radix {
        Some((u - 87) as u64)
    } else if 65 <= u && u <= 90 && u - 55 < radix {
        Some((u - 55) as u64)
    } else {
        None
    }
}

/// Parses `s[lo..hi]` as an unsigned integer in base `radix` no greater
/// than `max`.
pub fn parse_uint_in(s: &Vec<char>, lo: usize, hi: usize, radix: u32, max: u64) -> (r: Option<u64>)
    requires
        lo <= hi <= s.len(),
        radix == 10 || radix == 16,
    ensures
        r matches Some(v) ==> parse_uint(s@.subrange(lo as int, hi as int), radix as nat, max as nat) == Some(v as nat),
        r is None ==> parse_uint(s@.subrange(lo as int, hi as int), radix as nat, max as nat) is None,
{
    let ghost w = s@.subrange(lo as int, hi as int);
    let start = if lo < hi && s[lo] == '+' { lo + 1 } else { lo };
    let ghost d = if w.len() > 0 && w[0] == '+' { w.drop_first() } else { w };
    assert(d =~= s@.subrange(start as int, hi as int));
    if start == hi {
        return None;
    }
    let mut acc: u64 = 0;
    let mut i = start;
    assert(d.take(0) =~= Seq::<char>::empty());
    while i < hi
        invariant
            lo <= start <= i <= hi <= s.len(),
            radix == 10 || radix == 16,
            d == s@.subrange(start as int, hi as int),
            w == s@.subrange(lo as int, hi as int),
            d == (if w.len() > 0 && w[0] == '+' { w.drop_first() } else { w }),
            d.len() > 0,
            digits_val(d.take(i - start), radix as nat) == Some(acc as nat),
            acc <= max,
        decreases hi - i,
    {
        let k: Ghost<int> = Ghost(i - start);
        assert(d.take(k@ + 1).drop_last() =~= d.take(k@));
        assert(d.take(k@ + 1).last() == s@[i as int]);
        let x = digit_of(s[i], radix);
        match x {
            None => {
                proof {
                    assert(digits_val(d.take(k@ + 1), radix as nat) is None);
                    lemma_digits_grow(d, radix as nat, k@ + 1, d.len() as int);
                    assert(d.take(d.len() as int) =~= d);
                }
                return None;
            },
            Some(x) => {
                let r64 = radix as u64;
                if x > max {
                    proof {
                        assert(digits_val(d.take(k@ + 1), radix as nat) == Some(acc as nat * radix as nat + x as nat));
                        assert(acc as nat * radix as nat + x as nat > max as nat) by (nonlinear_arith)
                            requires
                                x > max,
                        ;
                        lemma_digits_grow(d, radix as nat, k@ + 1, d.len() as int);
                        assert(d.take(d.len() as int) =~= d);
                    }
                    return None;
                }
                let q: u64 = (max - x) / r64;
                if acc > q {
                    proof {
                        assert(digits_val(d.take(k@ + 1), radix as nat) == Some(acc as nat * radix as nat + x as nat));
                        assert(acc as nat * radix as nat + x as nat > max as nat) by (nonlinear_arith)
                            requires
                                acc > q,
                                q as int == (max as int - x as int) / (r64 as int),
                                r64 == radix,
                                r64 >= 1,
                                x <= max,
                        ;
                        lemma_digits_grow(d, radix as nat, k@ + 1, d.len() as int);
                        assert(d.take(d.len() as int) =~= d);
                    }
                    return None;
                }
                assert(acc as nat * radix as nat + x as nat <= max as nat) by (nonlinear_arith)
                    requires
                        acc <= q,
                        q as int == (max as int - x as int) / (r64 as int),
                        r64 == radix,
                        r64 >= 1,
                        x <= max,
                ;
                acc = acc * r64 + x;
            },
        }
        i = i + 1;
    }
    assert(d.take(d.len() as int) =~= d);
    Some(acc)
}

} // verus!

verus! {

/// Whether `s` starts with the characters of `p`.
pub fn has_prefix(s: &Vec<char>, p: &Vec<char>) -> (r: bool)
    ensures
        r == crate::text::starts_with_seq(s@, p@),
{
    if p.len() > s.len() {
        return false;
    }
    let mut j: usize = 0;
    while j < p.len()
        invariant
            p.len() <= s.len(),
            j <= p.len(),
            forall|k: int| 0 <= k < j ==> s@[k] == p@[k],
        decreases p.len() - j,
    {
        if s[j] != p[j] {
            assert(s@.subrange(0, p.len() as int)[j as int] != p@[j as int]);
            return false;
        }
        j = j + 1;
    }
    assert(s@.subrange(0, p.len() as int) =~= p@);
    true
}

/// Whether two character vectors are equal.
pub fn chars_eq(a: &Vec<char>, b: &Vec<char>) -> (r: bool)
    ensures
        r == (a@ == b@),
{
    if a.len() != b.len() {
        return false;
    }
    let mut j: usize = 0;
    while j < a.len()
        invariant
            a.len() == b.len(),
            j <= a.len(),
            forall|k: int| 0 <= k < j ==> a@[k] == b@[k],
        decreases a.len() - j,
    {
        if a[j] != b[j] {
            return false;
        }
        j = j + 1;
    }
    assert(a@ =~= b@);
    true
}

/// The position of the last `c` in `s`, if any.
pub open spec fn last_index(s: Seq<char>, c: char) -> Option<int>
    decreases s.len(),
{
    if s.len() == 0 {
        None
    } else if s.last() == c {
        Some(s.len() - 1)
    } else {
        last_index(s.drop_last(), c)
    }
}

pub fn find_last(s: &Vec<char>, c: char) -> (r: Option<usize>)
    ensures
        r matches Some(i) ==> last_index(s@, c) == Some(i as int) && i < s.len(),
        r is None ==> last_index(s@, c) is None,
{
    let mut i = s.len();
    assert(s@.take(i as int) =~= s@);
    while i > 0
        invariant
            i <= s.len(),
            last_index(s@, c) == last_index(s@.take(i as int), c),
        decreases i,
    {
        assert(s@.take(i as int).last() == s@[i - 1]);
        if s[i - 1] == c {
            return Some(i - 1);
        }
        assert(s@.take(i as int).drop_last() =~= s@.take(i - 1));
        i = i - 1;
    }
    None
}

/// The characters of `s[lo..hi]`.
pub fn sub_chars(s: &Vec<char>, lo: usize, hi: usize) -> (r: Vec<char>)
    requires
        lo <= hi <= s.len(),
    ensures
        r@ == s@.subrange(lo as int, hi as int),
{
    let mut r: Vec<char> = Vec::new();
    let mut i = lo;
    while i < hi
        invariant
            lo <= i <= hi <= s.len(),
            r@ == s@.subrange(lo as int, i as int),
        decreases hi - i,
    {
        r.push(s[i]);
        i = i + 1;
        assert(r@ =~= s@.subrange(lo as int, i as int));
    }
    r
}

} // verus!
