//! Command-line style argument parsing for the probe and ping panels.
//!
//! Both panels accept a target plus flags in one input line: `-i` sets the
//! probe interval in (possibly fractional) seconds, `-m` the maximum hop
//! count, `-c` a cycle or packet count, `-s` the ping payload size.  A flag
//! whose value does not parse is ignored; the target is the last word that
//! does not start with a dash.

use vstd::prelude::*;

verus! {

pub const BYTE_DASH: u8 = 45;
pub const BYTE_DOT: u8 = 46;
pub const BYTE_ZERO: u8 = 48;
pub const BYTE_NINE: u8 = 57;

/// ASCII whitespace, as the input line is split into words.
pub open spec fn spec_is_ws(b: u8) -> bool {
    b == 32 || b == 9 || b == 10 || b == 11 || b == 12 || b == 13
}

/// Length of the word at the head of `s`: the count of leading
/// non-whitespace bytes.
pub open spec fn spec_word_len(s: Seq<u8>) -> int
    decreases s.len(),
{
    if s.len() == 0 || spec_is_ws(s[0]) {
        0
    } else {
        1 + spec_word_len(s.subrange(1, s.len() as int))
    }
}

/// The words of `s`: maximal runs of non-whitespace bytes, in order.
pub open spec fn spec_words(s: Seq<u8>) -> Seq<Seq<u8>>
    decreases s.len(),
    via spec_words_decreases
{
    if s.len() == 0 {
        Seq::<Seq<u8>>::empty()
    } else if spec_is_ws(s[0]) {
        spec_words(s.subrange(1, s.len() as int))
    } else {
        let k = spec_word_len(s);
        seq![s.subrange(0, k)] + spec_words(s.subrange(k, s.len() as int))
    }
}

#[via_fn]
proof fn spec_words_decreases(s: Seq<u8>) {
    if s.len() != 0 && !spec_is_ws(s[0]) {
        lemma_word_len_bounds(s);
        assert(spec_word_len(s) >= 1);
    }
}

proof fn lemma_word_len_bounds(s: Seq<u8>)
    ensures
        0 <= spec_word_len(s) <= s.len(),
        spec_word_len(s) < s.len() ==> spec_is_ws(s[spec_word_len(s)]),
        forall|k: int| 0 <= k < spec_word_len(s) ==> !spec_is_ws(s[k]),
    decreases s.len(),
{
    if s.len() == 0 || spec_is_ws(s[0]) {
    } else {
        let sub = s.subrange(1, s.len() as int);
        lemma_word_len_bounds(sub);
        let w = spec_word_len(s);
        assert(w == 1 + spec_word_len(sub));
        if w < s.len() {
            assert(sub[w - 1] == s[w]);
        }
        assert forall|k: int| 0 <= k < w implies !spec_is_ws(s[k]) by {
            if k > 0 {
                assert(sub[k - 1] == s[k]);
            }
        }
    }
}

/// A scan that found no whitespace until `m`, and whitespace (or the end)
/// at `m`, has found the word length.
proof fn lemma_word_len_is(s: Seq<u8>, m: int)
    requires
        0 <= m <= s.len(),
        forall|k: int| 0 <= k < m ==> !spec_is_ws(s[k]),
        m == s.len() || spec_is_ws(s[m]),
    ensures
        spec_word_len(s) == m,
    decreases s.len(),
{
    if s.len() == 0 || spec_is_ws(s[0]) {
    } else {
        let sub = s.subrange(1, s.len() as int);
        assert(forall|k: int| 0 <= k < m - 1 ==> sub[k] == s[k + 1] && !spec_is_ws(#[trigger] sub[k]));
        if m - 1 < sub.len() {
            assert(sub[m - 1] == s[m]);
        }
        lemma_word_len_is(sub, m - 1);
    }
}

fn is_ws(b: u8) -> (r: bool)
    ensures
        r == spec_is_ws(b),
{
    b == 32 || b == 9 || b == 10 || b == 11 || b == 12 || b == 13
}

/// Split an input line into its words.
pub fn tokenize(s: &[u8]) -> (toks: Vec<Vec<u8>>)
    ensures
        toks.deep_view() == spec_words(s@),
{
    let n = s.len();
    let mut toks: Vec<Vec<u8>> = Vec::new();
    let mut i: usize = 0;
    proof {
        assert(s@.subrange(0, n as int) =~= s@);
        assert(toks.deep_view() + spec_words(s@) =~~= spec_words(s@));
    }
    while i < n
        invariant
            n == s@.len(),
            i <= n,
            spec_words(s@) == toks.deep_view() + spec_words(s@.subrange(i as int, n as int)),
        decreases n - i,
    {
        if is_ws(s[i]) {
            proof {
                let rest = s@.subrange(i as int, n as int);
                assert(rest.subrange(1, rest.len() as int) =~= s@.subrange(i + 1, n as int));
            }
            i = i + 1;
        } else {
            let start = i;
            let mut j = i;
            while j < n && !is_ws(s[j])
                invariant
                    n == s@.len(),
                    start <= j <= n,
                    forall|k: int| start <= k < j ==> !spec_is_ws(s@[k]),
                decreases n - j,
            {
                j = j + 1;
            }
            let mut word: Vec<u8> = Vec::new();
            let mut k = start;
            while k < j
                invariant
                    start <= k <= j <= n,
                    n == s@.len(),
                    word@ =~= s@.subrange(start as int, k as int),
                decreases j - k,
            {
                word.push(s[k]);
                k = k + 1;
                assert(word@ =~= s@.subrange(start as int, k as int));
            }
            proof {
                let rest = s@.subrange(start as int, n as int);
                assert(forall|t: int|
                    0 <= t < j - start ==> rest[t] == s@[start + t] && !spec_is_ws(rest[t]));
                if j < n {
                    assert(spec_is_ws(rest[(j - start) as int]));
                }
                lemma_word_len_is(rest, j - start);
                assert(rest.subrange(0, j - start) =~= s@.subrange(start as int, j as int));
                assert(rest.subrange(j - start, rest.len() as int) =~= s@.subrange(
                    j as int,
                    n as int,
                ));
                assert(spec_words(rest) == seq![s@.subrange(start as int, j as int)] + spec_words(
                    s@.subrange(j as int, n as int),
                ));
            }
            let ghost pre = toks.deep_view();
            toks.push(word);
            proof {
                assert(word.deep_view() =~= word@);
                assert(toks.deep_view() =~~= pre + seq![s@.subrange(start as int, j as int)]);
                assert(toks.deep_view() + spec_words(s@.subrange(j as int, n as int)) =~~= pre
                    + spec_words(s@.subrange(start as int, n as int)));
            }
            i = j;
        }
    }
    proof {
        assert(s@.subrange(n as int, n as int) =~= Seq::<u8>::empty());
        assert(toks.deep_view() + Seq::<Seq<u8>>::empty() =~~= toks.deep_view());
    }
    toks
}

/// Every byte is an ASCII decimal digit, and there is at least one.
pub open spec fn spec_all_digits(t: Seq<u8>) -> bool {
    t.len() > 0 && forall|i: int| 0 <= i < t.len() ==> BYTE_ZERO <= #[trigger] t[i] <= BYTE_NINE
}

/// The number written by a run of decimal digits.
pub open spec fn spec_digits_val(t: Seq<u8>) -> nat
    decreases t.len(),
{
    if t.len() == 0 {
        0
    } else {
        spec_digits_val(t.subrange(0, t.len() - 1)) * 10 + (t[t.len() - 1] - BYTE_ZERO) as nat
    }
}

/// Longer digit runs never denote smaller numbers.
proof fn lemma_digits_val_monotone(t: Seq<u8>, i: int, j: int)
    requires
        0 <= i <= j <= t.len(),
    ensures
        spec_digits_val(t.subrange(0, i)) <= spec_digits_val(t.subrange(0, j)),
    decreases j - i,
{
    if i < j {
        lemma_digits_val_monotone(t, i, j - 1);
        let p = t.subrange(0, j);
        assert(p.subrange(0, p.len() - 1) =~= t.subrange(0, j - 1));
        assert(spec_digits_val(t.subrange(0, j - 1)) <= spec_digits_val(p));
    }
}

/// What `u64` parsing yields: the value, if the word is all digits and the
/// value fits.
pub open spec fn spec_parse_u64(t: Seq<u8>) -> Option<u64> {
    if spec_all_digits(t) && spec_digits_val(t) <= u64::MAX {
        Some(spec_digits_val(t) as u64)
    } else {
        None
    }
}

/// Parse a `u64` from a word of digits; `None` on any other byte or on
/// overflow.
pub fn parse_u64(t: &[u8]) -> (r: Option<u64>)
    ensures
        r == spec_parse_u64(t@),
{
    let n = t.len();
    if n == 0 {
        return None;
    }
    let mut acc: u64 = 0;
    let mut i: usize = 0;
    while i < n
        invariant
            n == t@.len(),
            0 < n,
            i <= n,
            forall|k: int| 0 <= k < i ==> BYTE_ZERO <= #[trigger] t@[k] <= BYTE_NINE,
            acc == spec_digits_val(t@.subrange(0, i as int)),
        decreases n - i,
    {
        let b = t[i];
        if b < BYTE_ZERO || b > BYTE_NINE {
            return None;
        }
        let d: u64 = (b - BYTE_ZERO) as u64;
        let next = acc.checked_mul(10);
        match next {
            Some(m) => {
                match m.checked_add(d) {
                    Some(v) => {
                        acc = v;
                        i = i + 1;
                        proof {
                            let p = t@.subrange(0, i as int);
                            assert(p.subrange(0, p.len() - 1) =~= t@.subrange(0, i - 1));
                        }
                    },
                    None => {
                        proof {
                            overflow_implies_none(t@, i as int, acc, d);
                        }
                        return None;
                    },
                }
            },
            None => {
                proof {
                    overflow_implies_none(t@, i as int, acc, d);
                }
                return None;
            },
        }
    }
    proof {
        assert(t@.subrange(0, n as int) =~= t@);
    }
    Some(acc)
}

/// Once a digit prefix has overflowed `u64`, the whole word cannot fit.
proof fn overflow_implies_none(t: Seq<u8>, i: int, acc: u64, d: u64)
    requires
        0 <= i < t.len(),
        acc == spec_digits_val(t.subrange(0, i)),
        d == t[i] - BYTE_ZERO,
        acc * 10 + d > u64::MAX,
    ensures
        spec_digits_val(t) > u64::MAX,
{
    let p = t.subrange(0, i + 1);
    assert(p.subrange(0, p.len() - 1) =~= t.subrange(0, i));
    assert(spec_digits_val(p) == acc * 10 + d);
    lemma_digits_val_monotone(t, i + 1, t.len() as int);
    assert(t.subrange(0, t.len() as int) =~= t);
}

/// What `u8` parsing yields.
pub open spec fn spec_parse_u8(t: Seq<u8>) -> Option<u8> {
    if spec_all_digits(t) && spec_digits_val(t) <= u8::MAX {
        Some(spec_digits_val(t) as u8)
    } else {
        None
    }
}

/// Parse a `u8` from a word of digits.
pub fn parse_u8(t: &[u8]) -> (r: Option<u8>)
    ensures
        r == spec_parse_u8(t@),
{
    match parse_u64(t) {
        Some(v) => {
            if v <= 255 {
                Some(v as u8)
            } else {
                None
            }
        },
        None => {
            proof {
                if spec_all_digits(t@) && spec_digits_val(t@) <= u8::MAX {
                    assert(spec_digits_val(t@) <= u64::MAX);
                }
            }
            None
        },
    }
}

/// What `usize` parsing yields.
pub open spec fn spec_parse_usize(t: Seq<u8>) -> Option<usize> {
    if spec_all_digits(t) && spec_digits_val(t) <= usize::MAX {
        Some(spec_digits_val(t) as usize)
    } else {
        None
    }
}

/// Parse a `usize` from a word of digits.
pub fn parse_usize(t: &[u8]) -> (r: Option<usize>)
    ensures
        r == spec_parse_usize(t@),
{
    match parse_u64(t) {
        Some(v) => {
            if v <= usize::MAX as u64 {
                Some(v as usize)
            } else {
                None
            }
        },
        None => {
            proof {
                if spec_all_digits(t@) && spec_digits_val(t@) <= usize::MAX {
                    assert(spec_digits_val(t@) <= u64::MAX);
                }
            }
            None
        },
    }
}

/// The word has the shape of a non-negative decimal number: digits, a dot
/// with digits on at least one side, or both.
pub open spec fn spec_is_decimal(t: Seq<u8>) -> bool {
    ||| spec_all_digits(t)
    ||| exists|d: int|
        {
            &&& 0 <= d < t.len()
            &&& #[trigger] t[d] == BYTE_DOT
            &&& (forall|i: int| 0 <= i < t.len() && i != d ==> BYTE_ZERO <= #[trigger] t[i] <= BYTE_NINE)
            &&& t.len() >= 2
        }
}

/// The integer part of a decimal word: the digits before the dot (all of
/// them when there is no dot).
pub open spec fn spec_dec_int_part(t: Seq<u8>) -> Seq<u8> {
    if exists|d: int| 0 <= d < t.len() && #[trigger] t[d] == BYTE_DOT {
        t.subrange(0, choose|d: int| 0 <= d < t.len() && #[trigger] t[d] == BYTE_DOT)
    } else {
        t
    }
}

/// The fractional digits of a decimal word: the digits after the dot.
pub open spec fn spec_dec_frac_part(t: Seq<u8>) -> Seq<u8> {
    if exists|d: int| 0 <= d < t.len() && #[trigger] t[d] == BYTE_DOT {
        let d = choose|d: int| 0 <= d < t.len() && #[trigger] t[d] == BYTE_DOT;
        t.subrange(d + 1, t.len() as int)
    } else {
        Seq::<u8>::empty()
    }
}

/// Milliseconds written by up to three fractional-second digits.
pub open spec fn spec_frac_ms(frac: Seq<u8>) -> nat {
    let d0: nat = if frac.len() >= 1 {
        (frac[0] - BYTE_ZERO) as nat
    } else {
        0
    };
    let d1: nat = if frac.len() >= 2 {
        (frac[1] - BYTE_ZERO) as nat
    } else {
        0
    };
    let d2: nat = if frac.len() >= 3 {
        (frac[2] - BYTE_ZERO) as nat
    } else {
        0
    };
    d0 * 100 + d1 * 10 + d2
}

/// What parsing an interval in seconds yields, in milliseconds: the integer
/// part times one thousand plus the leading three fractional digits,
/// saturated to `u64`.
pub open spec fn spec_parse_secs_ms(t: Seq<u8>) -> Option<u64> {
    if spec_is_decimal(t) {
        let v = spec_digits_val(spec_dec_int_part(t)) * 1000 + spec_frac_ms(spec_dec_frac_part(t));
        Some(
            if v > u64::MAX {
                u64::MAX
            } else {
                v as u64
            },
        )
    } else {
        None
    }
}

/// Parse a seconds value (`1`, `0.5`, `2.`, `.25`) into whole milliseconds,
/// truncating beyond the third fractional digit and saturating to `u64`.
pub fn parse_secs_to_ms(t: &[u8]) -> (r: Option<u64>)
    ensures
        r == spec_parse_secs_ms(t@),
{
    let n = t.len();
    if n == 0 {
        assert(!spec_is_decimal(t@));
        return None;
    }
    // Find the dot, if any, and reject any byte that is neither digit nor a
    // single dot.
    let mut dot: usize = n;
    let mut i: usize = 0;
    while i < n
        invariant
            n == t@.len(),
            i <= n,
            dot == n || (dot < i && t@[dot as int] == BYTE_DOT),
            forall|k: int|
                0 <= k < i && k != dot ==> BYTE_ZERO <= #[trigger] t@[k] <= BYTE_NINE,
        decreases n - i,
    {
        let b = t[i];
        if b == BYTE_DOT {
            if dot < n {
                // a second dot: not a number
                proof {
                    lemma_not_decimal_two_dots(t@, dot as int, i as int);
                }
                return None;
            }
            dot = i;
        } else if b < BYTE_ZERO || b > BYTE_NINE {
            proof {
                lemma_not_decimal_bad_byte(t@, i as int);
            }
            return None;
        }
        i = i + 1;
    }
    if n == 1 && dot == 0 {
        // a lone dot
        proof {
            lemma_not_decimal_lone_dot(t@);
        }
        return None;
    }

    let int_end: usize = if dot < n {
        dot
    } else {
        n
    };
    proof {
        if dot < n {
            lemma_decimal_with_dot(t@, dot as int);
        } else {
            assert(spec_all_digits(t@));
            assert(spec_is_decimal(t@));
            assert(spec_dec_int_part(t@) =~= t@);
            assert(spec_dec_frac_part(t@) =~= Seq::<u8>::empty());
        }
    }

    // Integer part, saturating above u64::MAX.
    let mut ip: u128 = 0;
    let ghost int_part = t@.subrange(0, int_end as int);
    let mut k: usize = 0;
    while k < int_end
        invariant
            n == t@.len(),
            int_end <= n,
            k <= int_end,
            int_part == t@.subrange(0, int_end as int),
            forall|j: int| 0 <= j < int_end ==> BYTE_ZERO <= #[trigger] t@[j] <= BYTE_NINE,
            ip == if spec_digits_val(int_part.subrange(0, k as int)) <= u64::MAX {
                spec_digits_val(int_part.subrange(0, k as int)) as int
            } else {
                0x10000000000000000
            },
        decreases int_end - k,
    {
        let d: u128 = (t[k] - BYTE_ZERO) as u128;
        let ghost prefix = int_part.subrange(0, k as int);
        let ghost prefix1 = int_part.subrange(0, k as int + 1);
        proof {
            assert(prefix1.subrange(0, prefix1.len() - 1) =~= prefix);
            assert(int_part[k as int] == t@[k as int]);
        }
        if ip > u64::MAX as u128 {
            proof {
                assert(spec_digits_val(prefix) > u64::MAX);
                assert(spec_digits_val(prefix1) == spec_digits_val(prefix) * 10 + (
                int_part[k as int] - BYTE_ZERO));
                assert(spec_digits_val(prefix1) > u64::MAX) by (nonlinear_arith)
                    requires
                        spec_digits_val(prefix1) == spec_digits_val(prefix) * 10 + (
                        int_part[k as int] - BYTE_ZERO),
                        spec_digits_val(prefix) > u64::MAX,
                ;
            }
            // stays saturated
        } else {
            let wide: u128 = ip * 10 + d;
            if wide > u64::MAX as u128 {
                ip = 0x10000000000000000;
            } else {
                ip = wide;
            }
        }
        k = k + 1;
    }
    proof {
        assert(int_part.subrange(0, int_end as int) =~= int_part);
    }

    // Fractional milliseconds: the first three digits after the dot.
    let mut frac_ms: u64 = 0;
    let ghost frac = if dot < n {
        t@.subrange(dot + 1, n as int)
    } else {
        Seq::<u8>::empty()
    };
    if dot < n {
        let fl: usize = n - dot - 1;
        let d0: u64 = if fl >= 1 {
            (t[dot + 1] - BYTE_ZERO) as u64
        } else {
            0
        };
        let d1: u64 = if fl >= 2 {
            (t[dot + 2] - BYTE_ZERO) as u64
        } else {
            0
        };
        let d2: u64 = if fl >= 3 {
            (t[dot + 3] - BYTE_ZERO) as u64
        } else {
            0
        };
        frac_ms = d0 * 100 + d1 * 10 + d2;
    }
    proof {
        assert(frac_ms == spec_frac_ms(frac));
        assert(spec_dec_int_part(t@) =~= int_part);
        assert(spec_dec_frac_part(t@) =~= frac);
    }

    let total: u128 = ip * 1000 + (frac_ms as u128);
    let r: u64 = if total > u64::MAX as u128 {
        u64::MAX
    } else {
        total as u64
    };
    proof {
        let v = spec_digits_val(int_part) * 1000 + spec_frac_ms(frac);
        if spec_digits_val(int_part) <= u64::MAX {
            assert(total == v);
        } else {
            assert(ip == 0x10000000000000000);
            assert(v >= spec_digits_val(int_part) * 1000) by (nonlinear_arith)
                requires
                    v == spec_digits_val(int_part) * 1000 + spec_frac_ms(frac),
            ;
            assert(spec_digits_val(int_part) * 1000 > u64::MAX) by (nonlinear_arith)
                requires
                    spec_digits_val(int_part) > u64::MAX,
            ;
            assert(total > u64::MAX as u128);
        }
    }
    Some(r)
}

/// The word `-i`.
pub open spec fn spec_flag_interval() -> Seq<u8> {
    seq![45u8, 105u8]
}

/// The word `-m`.
pub open spec fn spec_flag_max_hops() -> Seq<u8> {
    seq![45u8, 109u8]
}

/// The word `-c`.
pub open spec fn spec_flag_count() -> Seq<u8> {
    seq![45u8, 99u8]
}

/// The word `-s`.
pub open spec fn spec_flag_size() -> Seq<u8> {
    seq![45u8, 115u8]
}

/// The probe panel's parsed argument line.
pub struct MtrArgs {
    pub host: Vec<u8>,
    pub interval_ms: u64,
    pub max_hops: u8,
    pub count: Option<u64>,
}

/// Spec-level counterpart of [`MtrArgs`].
pub ghost struct MtrSpec {
    pub host: Seq<u8>,
    pub interval_ms: u64,
    pub max_hops: u8,
    pub count: Option<u64>,
}

/// The probe defaults: a one-second interval, thirty hops, no cycle limit,
/// no target.
pub open spec fn spec_mtr_defaults() -> MtrSpec {
    MtrSpec { host: Seq::<u8>::empty(), interval_ms: 1000, max_hops: 30, count: None }
}

/// One left-to-right scan of the words from position `i`: a recognized flag
/// consumes its value word (ignoring it if it does not parse), any other
/// word starting with a dash is skipped, and any other word becomes the
/// target.
pub open spec fn spec_scan_mtr(toks: Seq<Seq<u8>>, i: int, st: MtrSpec) -> MtrSpec
    decreases toks.len() - i,
{
    if i < 0 || i >= toks.len() {
        st
    } else {
        let t = toks[i];
        if t == spec_flag_interval() {
            if i + 1 < toks.len() {
                let st1 = match spec_parse_secs_ms(toks[i + 1]) {
                    Some(ms) => MtrSpec { interval_ms: ms, ..st },
                    None => st,
                };
                spec_scan_mtr(toks, i + 2, st1)
            } else {
                spec_scan_mtr(toks, i + 1, st)
            }
        } else if t == spec_flag_max_hops() {
            if i + 1 < toks.len() {
                let st1 = match spec_parse_u8(toks[i + 1]) {
                    Some(v) => MtrSpec { max_hops: v, ..st },
                    None => st,
                };
                spec_scan_mtr(toks, i + 2, st1)
            } else {
                spec_scan_mtr(toks, i + 1, st)
            }
        } else if t == spec_flag_count() {
            if i + 1 < toks.len() {
                let st1 = match spec_parse_u64(toks[i + 1]) {
                    Some(v) => MtrSpec { count: Some(v), ..st },
                    None => st,
                };
                spec_scan_mtr(toks, i + 2, st1)
            } else {
                spec_scan_mtr(toks, i + 1, st)
            }
        } else if t.len() > 0 && t[0] == BYTE_DASH {
            spec_scan_mtr(toks, i + 1, st)
        } else {
            spec_scan_mtr(toks, i + 1, MtrSpec { host: t, ..st })
        }
    }
}

fn is_flag(t: &Vec<u8>, c: u8) -> (r: bool)
    ensures
        r == (t@ == seq![45u8, c]),
{
    let hit = t.len() == 2 && t[0] == BYTE_DASH && t[1] == c;
    proof {
        if hit {
            assert(t@ =~= seq![45u8, c]);
        }
    }
    hit
}

/// Parse the probe panel's argument line.  Yields `None` exactly when no
/// target word is present.
pub fn parse_mtr_args(input: &[u8]) -> (r: Option<MtrArgs>)
    ensures
        ({
            let fin = spec_scan_mtr(spec_words(input@), 0, spec_mtr_defaults());
            match r {
                None => fin.host.len() == 0,
                Some(a) => {
                    &&& fin.host.len() > 0
                    &&& a.host@ == fin.host
                    &&& a.interval_ms == fin.interval_ms
                    &&& a.max_hops == fin.max_hops
                    &&& a.count == fin.count
                },
            }
        }),
{
    let toks = tokenize(input);
    let ghost tv = toks.deep_view();
    let n = toks.len();
    let mut host: Vec<u8> = Vec::new();
    let mut interval_ms: u64 = 1000;
    let mut max_hops: u8 = 30;
    let mut count: Option<u64> = None;
    let mut i: usize = 0;
    proof {
        assert(host@ =~= spec_mtr_defaults().host);
    }
    while i < n
        invariant
            n == tv.len(),
            tv == toks.deep_view(),
            i <= n,
            spec_scan_mtr(tv, 0, spec_mtr_defaults()) == spec_scan_mtr(
                tv,
                i as int,
                MtrSpec { host: host@, interval_ms, max_hops, count },
            ),
        decreases n - i,
    {
        let ghost st = MtrSpec { host: host@, interval_ms, max_hops, count };
        proof {
            assert(tv[i as int] == toks@[i as int]@);
        }
        if is_flag(&toks[i], 105) {
            if i + 1 < n {
                proof {
                    assert(tv[i as int + 1] == toks@[i as int + 1]@);
                }
                if let Some(ms) = parse_secs_to_ms(toks[i + 1].as_slice()) {
                    interval_ms = ms;
                }
                i = i + 2;
            } else {
                i = i + 1;
            }
        } else if is_flag(&toks[i], 109) {
            if i + 1 < n {
                proof {
                    assert(tv[i as int + 1] == toks@[i as int + 1]@);
                }
                if let Some(v) = parse_u8(toks[i + 1].as_slice()) {
                    max_hops = v;
                }
                i = i + 2;
            } else {
                i = i + 1;
            }
        } else if is_flag(&toks[i], 99) {
            if i + 1 < n {
                proof {
                    assert(tv[i as int + 1] == toks@[i as int + 1]@);
                }
                if let Some(v) = parse_u64(toks[i + 1].as_slice()) {
                    count = Some(v);
                }
                i = i + 2;
            } else {
                i = i + 1;
            }
        } else if toks[i].len() > 0 && toks[i][0] == BYTE_DASH {
            i = i + 1;
        } else {
            host = toks[i].clone();
            proof {
                assert(host@ == tv[i as int]);
            }
            i = i + 1;
        }
    }
    if host.len() == 0 {
        None
    } else {
        Some(MtrArgs { host, interval_ms, max_hops, count })
    }
}

/// The ping panel's parsed argument line.
pub struct PingArgs {
    pub host: Vec<u8>,
    pub interval_ms: u64,
    pub payload_size: usize,
    pub count: Option<u64>,
}

/// Spec-level counterpart of [`PingArgs`].
pub ghost struct PingSpec {
    pub host: Seq<u8>,
    pub interval_ms: u64,
    pub payload_size: usize,
    pub count: Option<u64>,
}

/// The ping defaults: a one-second interval, a 56-byte payload, no packet
/// limit, no target.
pub open spec fn spec_ping_defaults() -> PingSpec {
    PingSpec { host: Seq::<u8>::empty(), interval_ms: 1000, payload_size: 56, count: None }
}

/// One left-to-right scan of the words from position `i`, with the ping
/// panel's flags.
pub open spec fn spec_scan_ping(toks: Seq<Seq<u8>>, i: int, st: PingSpec) -> PingSpec
    decreases toks.len() - i,
{
    if i < 0 || i >= toks.len() {
        st
    } else {
        let t = toks[i];
        if t == spec_flag_interval() {
            if i + 1 < toks.len() {
                let st1 = match spec_parse_secs_ms(toks[i + 1]) {
                    Some(ms) => PingSpec { interval_ms: ms, ..st },
                    None => st,
                };
                spec_scan_ping(toks, i + 2, st1)
            } else {
                spec_scan_ping(toks, i + 1, st)
            }
        } else if t == spec_flag_size() {
            if i + 1 < toks.len() {
                let st1 = match spec_parse_usize(toks[i + 1]) {
                    Some(v) => PingSpec { payload_size: v, ..st },
                    None => st,
                };
                spec_scan_ping(toks, i + 2, st1)
            } else {
                spec_scan_ping(toks, i + 1, st)
            }
        } else if t == spec_flag_count() {
            if i + 1 < toks.len() {
                let st1 = match spec_parse_u64(toks[i + 1]) {
                    Some(v) => PingSpec { count: Some(v), ..st },
                    None => st,
                };
                spec_scan_ping(toks, i + 2, st1)
            } else {
                spec_scan_ping(toks, i + 1, st)
            }
        } else if t.len() > 0 && t[0] == BYTE_DASH {
            spec_scan_ping(toks, i + 1, st)
        } else {
            spec_scan_ping(toks, i + 1, PingSpec { host: t, ..st })
        }
    }
}

/// Parse the ping panel's argument line.  Yields `None` exactly when no
/// target word is present.
pub fn parse_ping_args(input: &[u8]) -> (r: Option<PingArgs>)
    ensures
        ({
            let fin = spec_scan_ping(spec_words(input@), 0, spec_ping_defaults());
            match r {
                None => fin.host.len() == 0,
                Some(a) => {
                    &&& fin.host.len() > 0
                    &&& a.host@ == fin.host
                    &&& a.interval_ms == fin.interval_ms
                    &&& a.payload_size == fin.payload_size
                    &&& a.count == fin.count
                },
            }
        }),
{
    let toks = tokenize(input);
    let ghost tv = toks.deep_view();
    let n = toks.len();
    let mut host: Vec<u8> = Vec::new();
    let mut interval_ms: u64 = 1000;
    let mut payload_size: usize = 56;
    let mut count: Option<u64> = None;
    let mut i: usize = 0;
    proof {
        assert(host@ =~= spec_ping_defaults().host);
    }
    while i < n
        invariant
            n == tv.len(),
            tv == toks.deep_view(),
            i <= n,
            spec_scan_ping(tv, 0, spec_ping_defaults()) == spec_scan_ping(
                tv,
                i as int,
                PingSpec { host: host@, interval_ms, payload_size, count },
            ),
        decreases n - i,
    {
        proof {
            assert(tv[i as int] == toks@[i as int]@);
        }
        if is_flag(&toks[i], 105) {
            if i + 1 < n {
                proof {
                    assert(tv[i as int + 1] == toks@[i as int + 1]@);
                }
                if let Some(ms) = parse_secs_to_ms(toks[i + 1].as_slice()) {
                    interval_ms = ms;
                }
                i = i + 2;
            } else {
                i = i + 1;
            }
        } else if is_flag(&toks[i], 115) {
            if i + 1 < n {
                proof {
                    assert(tv[i as int + 1] == toks@[i as int + 1]@);
                }
                if let Some(v) = parse_usize(toks[i + 1].as_slice()) {
                    payload_size = v;
                }
                i = i + 2;
            } else {
                i = i + 1;
            }
        } else if is_flag(&toks[i], 99) {
            if i + 1 < n {
                proof {
                    assert(tv[i as int + 1] == toks@[i as int + 1]@);
                }
                if let Some(v) = parse_u64(toks[i + 1].as_slice()) {
                    count = Some(v);
                }
                i = i + 2;
            } else {
                i = i + 1;
            }
        } else if toks[i].len() > 0 && toks[i][0] == BYTE_DASH {
            i = i + 1;
        } else {
            host = toks[i].clone();
            proof {
                assert(host@ == tv[i as int]);
            }
            i = i + 1;
        }
    }
    if host.len() == 0 {
        None
    } else {
        Some(PingArgs { host, interval_ms, payload_size, count })
    }
}

proof fn lemma_not_decimal_two_dots(t: Seq<u8>, d1: int, d2: int)
    requires
        0 <= d1 < d2 < t.len(),
        t[d1] == BYTE_DOT,
        t[d2] == BYTE_DOT,
    ensures
        !spec_is_decimal(t),
{
    assert(!(BYTE_ZERO <= t[d1] <= BYTE_NINE));
}

proof fn lemma_not_decimal_bad_byte(t: Seq<u8>, i: int)
    requires
        0 <= i < t.len(),
        t[i] != BYTE_DOT,
        !(BYTE_ZERO <= t[i] <= BYTE_NINE),
    ensures
        !spec_is_decimal(t),
{
}

proof fn lemma_not_decimal_lone_dot(t: Seq<u8>)
    requires
        t.len() == 1,
        t[0] == BYTE_DOT,
    ensures
        !spec_is_decimal(t),
{
}

proof fn lemma_decimal_with_dot(t: Seq<u8>, d: int)
    requires
        0 <= d < t.len(),
        t[d] == BYTE_DOT,
        forall|k: int| 0 <= k < t.len() && k != d ==> BYTE_ZERO <= #[trigger] t[k] <= BYTE_NINE,
        t.len() >= 2,
    ensures
        spec_is_decimal(t),
        spec_dec_int_part(t) == t.subrange(0, d),
        spec_dec_frac_part(t) == t.subrange(d + 1, t.len() as int),
{
    let c = choose|c: int| 0 <= c < t.len() && #[trigger] t[c] == BYTE_DOT;
    assert(c == d);
}

} // verus!
