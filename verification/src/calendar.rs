//! Calendar arithmetic: unix milliseconds to ISO 8601 UTC strings, used to
//! compare a retention cutoff against stored notification timestamps.

use vstd::prelude::*;
use vstd::arithmetic::div_mod::{lemma_div_is_ordered, lemma_fundamental_div_mod, lemma_fundamental_div_mod_converse};
use crate::text::{
    dec_digits, fmt_int_padded, lemma_pad_len, lemma_pad_order, lemma_seq_lt_concat, lemma_seq_lt_skip, pow10,
    push_char, push_int_padded, seq_lt, zero_pad,
};

verus! {

/// Rust's integer division, which truncates toward zero (`b > 0`).
pub open spec fn tdiv(a: int, b: int) -> int {
    if a >= 0 { a / b } else { -((-a) / b) }
}

/// Rust's remainder, which takes the sign of the dividend (`b > 0`).
pub open spec fn tmod(a: int, b: int) -> int {
    a - b * tdiv(a, b)
}

/// Bounds of Rust's truncating division and remainder.
pub(crate) proof fn lemma_tdiv_bounds(a: int, b: int)
    requires
        b > 0,
    ensures
        -b < tmod(a, b) < b,
        a >= 0 ==> 0 <= tmod(a, b),
        a < 0 ==> tmod(a, b) <= 0,
        a >= 0 ==> 0 <= tdiv(a, b) <= a,
        a < 0 ==> a <= tdiv(a, b) <= 0,
        a >= 0 ==> 0 <= b * tdiv(a, b) <= a,
        a < 0 ==> a <= b * tdiv(a, b) <= 0,
        a < 0 && b >= 2 ==> 2 * tdiv(a, b) >= a,
{
    if a >= 0 {
        lemma_fundamental_div_mod(a, b);
        assert(0 <= a % b < b);
        assert(0 <= a / b) by (nonlinear_arith)
            requires a >= 0, b > 0, a == b * (a / b) + a % b, a % b < b;
        assert(a / b <= a) by (nonlinear_arith)
            requires a >= 0, b > 0, a / b >= 0, b * (a / b) <= a;
        assert(0 <= b * (a / b)) by (nonlinear_arith)
            requires a / b >= 0, b > 0;
    } else {
        let p = -a;
        lemma_fundamental_div_mod(p, b);
        assert(0 <= p % b < b);
        assert(0 <= p / b) by (nonlinear_arith)
            requires p > 0, b > 0, p == b * (p / b) + p % b, p % b < b;
        assert(p / b <= p) by (nonlinear_arith)
            requires p > 0, b > 0, p / b >= 0, b * (p / b) <= p;
        assert(0 <= b * (p / b)) by (nonlinear_arith)
            requires p / b >= 0, b > 0;
        assert(b * tdiv(a, b) == -(b * (p / b))) by (nonlinear_arith)
            requires tdiv(a, b) == -(p / b);
        if b >= 2 {
            assert(2 * (p / b) <= b * (p / b)) by (nonlinear_arith)
                requires b >= 2, p / b >= 0;
        }
    }
}

/// `a.div_euclid(b)` for `b > 1`: the floor of `a / b`.
pub fn div_floor(a: i64, b: i64) -> (q: i64)
    requires
        b > 1,
    ensures
        q == a as int / b as int,
{
    let q = a / b;
    proof {
        lemma_tdiv_bounds(a as int, b as int);
        assert(q == tdiv(a as int, b as int));
        assert(q * b == b * q) by (nonlinear_arith);
    }
    let r = a - q * b;
    proof {
        assert((q - 1) * b == q * b - b) by (nonlinear_arith);
    }
    if r < 0 {
        proof {
            lemma_fundamental_div_mod_converse(a as int, b as int, q - 1, r + b);
        }
        q - 1
    } else {
        proof {
            lemma_fundamental_div_mod_converse(a as int, b as int, q as int, r as int);
        }
        q
    }
}

/// `a.rem_euclid(b)` for `b > 1`: the non-negative remainder.
pub fn mod_floor(a: i64, b: i64) -> (r: i64)
    requires
        b > 1,
    ensures
        r == a as int % b as int,
{
    let q = a / b;
    proof {
        lemma_tdiv_bounds(a as int, b as int);
        assert(q == tdiv(a as int, b as int));
        assert(q * b == b * q) by (nonlinear_arith);
    }
    let r = a - q * b;
    proof {
        assert((q - 1) * b == q * b - b) by (nonlinear_arith);
    }
    if r < 0 {
        proof {
            lemma_fundamental_div_mod_converse(a as int, b as int, q - 1, r + b);
        }
        r + b
    } else {
        proof {
            lemma_fundamental_div_mod_converse(a as int, b as int, q as int, r as int);
        }
        r
    }
}

/// Julian Day Number of 1970-01-01.
pub const UNIX_EPOCH_JDN: i64 = 2_440_588;

/// The (year, month, day) of Julian Day Number `j` in the proleptic
/// Gregorian calendar, by Richards' conversion (integer arithmetic with
/// Rust's truncating division).
pub open spec fn ymd_of_jdn(j: int) -> (int, int, int) {
    let f = j + 1401 + tdiv(tdiv(4 * j + 274277, 146097) * 3, 4) - 38;
    let e = 4 * f + 3;
    let g = tdiv(tmod(e, 1461), 4);
    let h = 5 * g + 2;
    let day = tdiv(tmod(h, 153), 5) + 1;
    let month = tmod(tdiv(h, 153) + 2, 12) + 1;
    let year = tdiv(e, 1461) - 4716 + tdiv(12 + 2 - month, 12);
    (year, month, day)
}

/// Smallest day number [`jdn_to_ymd`] accepts: every intermediate of the
/// conversion fits an `i64` from here on.
pub const JDN_MIN: i64 = -2_305_795_661_307_961_977;

/// Largest day number [`jdn_to_ymd`] accepts: one more overflows the
/// conversion's `4 * f + 3`.
pub const JDN_MAX: i64 = 2_305_795_661_307_959_247;

/// `0 <= x / d <= c` for `0 <= x <= n` once `n / d == c`, shown by `n == c * d + r`.
proof fn lemma_quotient_at_most(x: int, n: int, d: int, c: int, r: int)
    requires
        d > 0,
        0 <= x <= n,
        n == c * d + r,
        0 <= r < d,
    ensures
        0 <= x / d <= c,
{
    lemma_fundamental_div_mod_converse(n, d, c, r);
    lemma_div_is_ordered(x, n, d);
    lemma_div_is_ordered(0, x, d);
}

/// The two quotients of Richards' conversion stay within the values they
/// take at the ends of the accepted range.
proof fn lemma_richards_quotients(j: int)
    requires
        JDN_MIN <= j <= JDN_MAX,
    ensures
        -63_130_540_977_785 <= tdiv(4 * j + 274277, 146097) <= 63_130_540_977_789,
        -47_347_905_733_338 <= tdiv(tdiv(4 * j + 274277, 146097) * 3, 4) <= 47_347_905_733_341,
{
    let t1 = 4 * j + 274277;
    if t1 >= 0 {
        lemma_quotient_at_most(t1, 9_223_182_645_232_111_265, 146097, 63_130_540_977_789, 71732);
    } else {
        lemma_quotient_at_most(-t1, 9_223_182_645_231_573_631, 146097, 63_130_540_977_785, 118486);
    }
    let t2 = tdiv(t1, 146097) * 3;
    if t2 >= 0 {
        lemma_quotient_at_most(t2, 189_391_622_933_367, 4, 47_347_905_733_341, 3);
    } else {
        lemma_quotient_at_most(-t2, 189_391_622_933_355, 4, 47_347_905_733_338, 3);
    }
}

/// Convert a Julian Day Number to (year, month, day) using the proleptic
/// Gregorian calendar algorithm (Richards 2013).
pub fn jdn_to_ymd(jdn: i64) -> (r: (i64, i64, i64))
    requires
        JDN_MIN <= jdn <= JDN_MAX,
    ensures
        (r.0 as int, r.1 as int, r.2 as int) == ymd_of_jdn(jdn as int),
{
    proof {
        lemma_richards_quotients(jdn as int);
    }
    let f = jdn + 1_401 + (((4 * jdn + 274_277) / 146_097) * 3) / 4 - 38;
    let e = 4 * f + 3;
    proof {
        lemma_tdiv_bounds(e as int, 1461);
        lemma_tdiv_bounds(tmod(e as int, 1461), 4);
    }
    let g = (e % 1_461) / 4;
    let h = 5 * g + 2;
    proof {
        lemma_tdiv_bounds(h as int, 153);
        lemma_tdiv_bounds(tmod(h as int, 153), 5);
        lemma_tdiv_bounds(tdiv(h as int, 153) + 2, 12);
    }
    let day = (h % 153) / 5 + 1;
    let month = (h / 153 + 2) % 12 + 1;
    proof {
        lemma_tdiv_bounds(12 + 2 - month, 12);
    }
    let year = e / 1_461 - 4_716 + (12 + 2 - month) / 12;
    (year, month, day)
}

/// The ISO 8601 UTC rendering `YYYY-MM-DDTHH:MM:SSZ` of unix time `ms`
/// (milliseconds; seconds and days are floored, also for negative times).
pub open spec fn iso8601_of_ms(ms: int) -> Seq<char> {
    let secs = ms / 1000;
    let days = secs / 86400;
    let tod = secs % 86400;
    let ymd = ymd_of_jdn(days + 2440588);
    fmt_int_padded(ymd.0, 4) + seq!['-'] + fmt_int_padded(ymd.1, 2) + seq!['-'] + fmt_int_padded(ymd.2, 2)
        + seq!['T'] + fmt_int_padded(tod / 3600, 2) + seq![':'] + fmt_int_padded((tod % 3600) / 60, 2)
        + seq![':'] + fmt_int_padded(tod % 60, 2) + seq!['Z']
}

/// Convert a unix timestamp in milliseconds to an ISO 8601 UTC string
/// (`YYYY-MM-DDTHH:MM:SSZ`), comparable against stored timestamps.
pub fn ms_to_iso8601(ms: i64) -> (s: String)
    ensures
        s@ == iso8601_of_ms(ms as int),
{
    let secs = div_floor(ms, 1000);
    let days_since_epoch = div_floor(secs, 86400);
    let time_of_day = mod_floor(secs, 86400);
    let h = time_of_day / 3600;
    let m = (time_of_day % 3600) / 60;
    let sec = time_of_day % 60;
    proof {
        assert(-10_000_000_000_000_000 <= days_since_epoch <= 10_000_000_000_000_000) by {
            lemma_fundamental_div_mod(ms as int, 1000);
            lemma_fundamental_div_mod(secs as int, 86400);
        }
    }
    let jdn = days_since_epoch + UNIX_EPOCH_JDN;
    let (year, month, day) = jdn_to_ymd(jdn);
    let mut s = String::new();
    push_int_padded(&mut s, year, 4);
    push_char(&mut s, '-');
    push_int_padded(&mut s, month, 2);
    push_char(&mut s, '-');
    push_int_padded(&mut s, day, 2);
    push_char(&mut s, 'T');
    push_int_padded(&mut s, h, 2);
    push_char(&mut s, ':');
    push_int_padded(&mut s, m, 2);
    push_char(&mut s, ':');
    push_int_padded(&mut s, sec, 2);
    push_char(&mut s, 'Z');
    assert(s@ =~= iso8601_of_ms(ms as int));
    s
}

// ---------------------------------------------------------------------------
// Order
// ---------------------------------------------------------------------------

/// Strict lexicographic order on (year, month, day).
pub open spec fn ymd_lt(a: (int, int, int), b: (int, int, int)) -> bool {
    a.0 < b.0 || (a.0 == b.0 && (a.1 < b.1 || (a.1 == b.1 && a.2 < b.2)))
}

/// For a non-negative dividend, Rust's division and remainder are the
/// floor ones.
proof fn lemma_tdiv_nonneg(a: int, b: int)
    requires
        a >= 0,
        b > 0,
    ensures
        tdiv(a, b) == a / b,
        tmod(a, b) == a % b,
        0 <= a % b < b,
{
    lemma_fundamental_div_mod(a, b);
}

/// Later day numbers (from the Julian epoch on) convert to later dates.
pub(crate) proof fn lemma_ymd_increasing(j1: int, j2: int)
    requires
        0 <= j1 < j2,
    ensures
        ymd_lt(ymd_of_jdn(j1), ymd_of_jdn(j2)),
{
    // The Julian day count f strictly increases.
    let x1 = 4 * j1 + 274277;
    let x2 = 4 * j2 + 274277;
    lemma_tdiv_nonneg(x1, 146097);
    lemma_tdiv_nonneg(x2, 146097);
    lemma_div_is_ordered(x1, x2, 146097);
    let a1 = x1 / 146097;
    let a2 = x2 / 146097;
    assert(a1 >= 0) by {
        lemma_div_is_ordered(0, x1, 146097);
    }
    lemma_tdiv_nonneg(a1 * 3, 4);
    lemma_tdiv_nonneg(a2 * 3, 4);
    lemma_div_is_ordered(a1 * 3, a2 * 3, 4);
    let f1 = j1 + 1401 + (a1 * 3) / 4 - 38;
    let f2 = j2 + 1401 + (a2 * 3) / 4 - 38;
    assert(0 <= (a1 * 3) / 4) by {
        lemma_div_is_ordered(0, a1 * 3, 4);
    }
    assert(f1 < f2);
    let e1 = 4 * f1 + 3;
    let e2 = 4 * f2 + 3;
    assert(e1 >= 0);
    assert(e2 - e1 >= 4);
    // Its 4-year cycle and day within the cycle increase lexicographically.
    lemma_tdiv_nonneg(e1, 1461);
    lemma_tdiv_nonneg(e2, 1461);
    lemma_div_is_ordered(e1, e2, 1461);
    let q1 = e1 / 1461;
    let q2 = e2 / 1461;
    let r1 = e1 % 1461;
    let r2 = e2 % 1461;
    lemma_tdiv_nonneg(r1, 4);
    lemma_tdiv_nonneg(r2, 4);
    let g1 = r1 / 4;
    let g2 = r2 / 4;
    assert(0 <= g1 <= 365 && 0 <= g2 <= 365);
    if q1 == q2 {
        assert(r2 - r1 == e2 - e1);
        lemma_div_is_ordered(r1 + 4, r2, 4);
        assert((r1 + 4) / 4 == g1 + 1);
        assert(g1 < g2);
    }
    // Month (counted from March) and day within the year.
    let h1 = 5 * g1 + 2;
    let h2 = 5 * g2 + 2;
    lemma_tdiv_nonneg(h1, 153);
    lemma_tdiv_nonneg(h2, 153);
    let m1 = h1 / 153;
    let m2 = h2 / 153;
    assert(0 <= m1 <= 11 && 0 <= m2 <= 11);
    lemma_tdiv_nonneg(h1 % 153, 5);
    lemma_tdiv_nonneg(h2 % 153, 5);
    let d1 = (h1 % 153) / 5 + 1;
    let d2 = (h2 % 153) / 5 + 1;
    if q1 == q2 {
        lemma_div_is_ordered(h1, h2, 153);
        if m1 == m2 {
            assert(h2 % 153 - h1 % 153 == h2 - h1);
            lemma_div_is_ordered(h1 % 153 + 5, h2 % 153, 5);
            assert((h1 % 153 + 5) / 5 == (h1 % 153) / 5 + 1);
            assert(d1 < d2);
        }
    }
    lemma_tdiv_nonneg(m1 + 2, 12);
    lemma_tdiv_nonneg(m2 + 2, 12);
    let mo1 = (m1 + 2) % 12 + 1;
    let mo2 = (m2 + 2) % 12 + 1;
    assert(m1 <= 9 ==> mo1 == m1 + 3);
    assert(m1 >= 10 ==> mo1 == m1 - 9);
    assert(m2 <= 9 ==> mo2 == m2 + 3);
    assert(m2 >= 10 ==> mo2 == m2 - 9);
    lemma_tdiv_nonneg(14 - mo1, 12);
    lemma_tdiv_nonneg(14 - mo2, 12);
    assert(ymd_of_jdn(j1) == (q1 - 4716 + (14 - mo1) / 12, mo1, d1));
    assert(ymd_of_jdn(j2) == (q2 - 4716 + (14 - mo2) / 12, mo2, d2));
}

/// The text `iso8601_of_ms` lays out for a date and a time of day.
pub open spec fn iso_text(y: int, mo: int, d: int, hh: int, mi: int, ss: int) -> Seq<char> {
    fmt_int_padded(y, 4) + seq!['-'] + fmt_int_padded(mo, 2) + seq!['-'] + fmt_int_padded(d, 2)
        + seq!['T'] + fmt_int_padded(hh, 2) + seq![':'] + fmt_int_padded(mi, 2)
        + seq![':'] + fmt_int_padded(ss, 2) + seq!['Z']
}

/// The six fields, as a tuple in significance order.
pub open spec fn fields_lt(a: (int, int, int, int, int, int), b: (int, int, int, int, int, int)) -> bool {
    ymd_lt((a.0, a.1, a.2), (b.0, b.1, b.2)) || ((a.0, a.1, a.2) == (b.0, b.1, b.2) && (a.3 < b.3 || (a.3
        == b.3 && (a.4 < b.4 || (a.4 == b.4 && a.5 < b.5)))))
}

/// Every field fits its width.
pub open spec fn fields_fit(f: (int, int, int, int, int, int)) -> bool {
    0 <= f.0 <= 9999 && 0 <= f.1 < 100 && 0 <= f.2 < 100 && 0 <= f.3 < 100 && 0 <= f.4 < 100 && 0 <= f.5 < 100
}

/// One field decides: with a common prefix, a field in order of the same
/// width decides the order whatever follows.
proof fn lemma_field_decides(p: Seq<char>, a: Seq<char>, b: Seq<char>, ta: Seq<char>, tb: Seq<char>)
    requires
        a.len() == b.len(),
        seq_lt(a, b),
    ensures
        seq_lt(p + a + ta, p + b + tb),
{
    let x = p + a + ta;
    let y = p + b + tb;
    lemma_seq_lt_skip(x, y, p.len() as int);
    assert(x.subrange(p.len() as int, x.len() as int) =~= a + ta);
    assert(y.subrange(p.len() as int, y.len() as int) =~= b + tb);
    lemma_seq_lt_concat(a, b, ta, tb);
}

/// A field below `10^w`, padded.
pub(crate) proof fn lemma_padded_field(v: int, w: nat)
    requires
        1 <= w,
        0 <= v < pow10(w),
    ensures
        fmt_int_padded(v, w) == zero_pad(dec_digits(v as nat), w),
        fmt_int_padded(v, w).len() == w,
{
    lemma_pad_len(v as nat, w);
}

/// The ISO layout of six rendered fields.
pub open spec fn layout(y: Seq<char>, mo: Seq<char>, d: Seq<char>, h: Seq<char>, mi: Seq<char>, ss: Seq<char>) -> Seq<char> {
    y + seq!['-'] + mo + seq!['-'] + d + seq!['T'] + h + seq![':'] + mi + seq![':'] + ss + seq!['Z']
}

proof fn lemma_layout_field_0(a0: Seq<char>, a1: Seq<char>, a2: Seq<char>, a3: Seq<char>, a4: Seq<char>, a5: Seq<char>, b0: Seq<char>, b1: Seq<char>, b2: Seq<char>, b3: Seq<char>, b4: Seq<char>, b5: Seq<char>)
    requires
        a0.len() == b0.len(),
        seq_lt(a0, b0),
    ensures
        seq_lt(layout(a0, a1, a2, a3, a4, a5), layout(b0, b1, b2, b3, b4, b5)),
{
    let p = Seq::<char>::empty();
    let ra = seq!['-'] + a1 + seq!['-'] + a2 + seq!['T'] + a3 + seq![':'] + a4 + seq![':'] + a5 + seq!['Z'];
    let rb = seq!['-'] + b1 + seq!['-'] + b2 + seq!['T'] + b3 + seq![':'] + b4 + seq![':'] + b5 + seq!['Z'];
    assert(layout(a0, a1, a2, a3, a4, a5) =~= p + a0 + ra);
    assert(layout(b0, b1, b2, b3, b4, b5) =~= p + b0 + rb);
    lemma_field_decides(p, a0, b0, ra, rb);
}

proof fn lemma_layout_field_1(a0: Seq<char>, a1: Seq<char>, a2: Seq<char>, a3: Seq<char>, a4: Seq<char>, a5: Seq<char>, b1: Seq<char>, b2: Seq<char>, b3: Seq<char>, b4: Seq<char>, b5: Seq<char>)
    requires
        a1.len() == b1.len(),
        seq_lt(a1, b1),
    ensures
        seq_lt(layout(a0, a1, a2, a3, a4, a5), layout(a0, b1, b2, b3, b4, b5)),
{
    let p = a0 + seq!['-'];
    let ra = seq!['-'] + a2 + seq!['T'] + a3 + seq![':'] + a4 + seq![':'] + a5 + seq!['Z'];
    let rb = seq!['-'] + b2 + seq!['T'] + b3 + seq![':'] + b4 + seq![':'] + b5 + seq!['Z'];
    assert(layout(a0, a1, a2, a3, a4, a5) =~= p + a1 + ra);
    assert(layout(a0, b1, b2, b3, b4, b5) =~= p + b1 + rb);
    lemma_field_decides(p, a1, b1, ra, rb);
}

proof fn lemma_layout_field_2(a0: Seq<char>, a1: Seq<char>, a2: Seq<char>, a3: Seq<char>, a4: Seq<char>, a5: Seq<char>, b2: Seq<char>, b3: Seq<char>, b4: Seq<char>, b5: Seq<char>)
    requires
        a2.len() == b2.len(),
        seq_lt(a2, b2),
    ensures
        seq_lt(layout(a0, a1, a2, a3, a4, a5), layout(a0, a1, b2, b3, b4, b5)),
{
    let p = a0 + seq!['-'] + a1 + seq!['-'];
    let ra = seq!['T'] + a3 + seq![':'] + a4 + seq![':'] + a5 + seq!['Z'];
    let rb = seq!['T'] + b3 + seq![':'] + b4 + seq![':'] + b5 + seq!['Z'];
    assert(layout(a0, a1, a2, a3, a4, a5) =~= p + a2 + ra);
    assert(layout(a0, a1, b2, b3, b4, b5) =~= p + b2 + rb);
    lemma_field_decides(p, a2, b2, ra, rb);
}

proof fn lemma_layout_field_3(a0: Seq<char>, a1: Seq<char>, a2: Seq<char>, a3: Seq<char>, a4: Seq<char>, a5: Seq<char>, b3: Seq<char>, b4: Seq<char>, b5: Seq<char>)
    requires
        a3.len() == b3.len(),
        seq_lt(a3, b3),
    ensures
        seq_lt(layout(a0, a1, a2, a3, a4, a5), layout(a0, a1, a2, b3, b4, b5)),
{
    let p = a0 + seq!['-'] + a1 + seq!['-'] + a2 + seq!['T'];
    let ra = seq![':'] + a4 + seq![':'] + a5 + seq!['Z'];
    let rb = seq![':'] + b4 + seq![':'] + b5 + seq!['Z'];
    assert(layout(a0, a1, a2, a3, a4, a5) =~= p + a3 + ra);
    assert(layout(a0, a1, a2, b3, b4, b5) =~= p + b3 + rb);
    lemma_field_decides(p, a3, b3, ra, rb);
}

proof fn lemma_layout_field_4(a0: Seq<char>, a1: Seq<char>, a2: Seq<char>, a3: Seq<char>, a4: Seq<char>, a5: Seq<char>, b4: Seq<char>, b5: Seq<char>)
    requires
        a4.len() == b4.len(),
        seq_lt(a4, b4),
    ensures
        seq_lt(layout(a0, a1, a2, a3, a4, a5), layout(a0, a1, a2, a3, b4, b5)),
{
    let p = a0 + seq!['-'] + a1 + seq!['-'] + a2 + seq!['T'] + a3 + seq![':'];
    let ra = seq![':'] + a5 + seq!['Z'];
    let rb = seq![':'] + b5 + seq!['Z'];
    assert(layout(a0, a1, a2, a3, a4, a5) =~= p + a4 + ra);
    assert(layout(a0, a1, a2, a3, b4, b5) =~= p + b4 + rb);
    lemma_field_decides(p, a4, b4, ra, rb);
}

proof fn lemma_layout_field_5(a0: Seq<char>, a1: Seq<char>, a2: Seq<char>, a3: Seq<char>, a4: Seq<char>, a5: Seq<char>, b5: Seq<char>)
    requires
        a5.len() == b5.len(),
        seq_lt(a5, b5),
    ensures
        seq_lt(layout(a0, a1, a2, a3, a4, a5), layout(a0, a1, a2, a3, a4, b5)),
{
    let p = a0 + seq!['-'] + a1 + seq!['-'] + a2 + seq!['T'] + a3 + seq![':'] + a4 + seq![':'];
    let ra = seq!['Z'];
    let rb = seq!['Z'];
    assert(layout(a0, a1, a2, a3, a4, a5) =~= p + a5 + ra);
    assert(layout(a0, a1, a2, a3, a4, b5) =~= p + b5 + rb);
    lemma_field_decides(p, a5, b5, ra, rb);
}

/// The six rendered fields of a field tuple.
pub open spec fn rendered_fields(f: (int, int, int, int, int, int)) -> Seq<Seq<char>> {
    seq![
        fmt_int_padded(f.0, 4),
        fmt_int_padded(f.1, 2),
        fmt_int_padded(f.2, 2),
        fmt_int_padded(f.3, 2),
        fmt_int_padded(f.4, 2),
        fmt_int_padded(f.5, 2),
    ]
}

/// Fields in order render in order.
pub(crate) proof fn lemma_iso_text_order(a: (int, int, int, int, int, int), b: (int, int, int, int, int, int))
    requires
        fields_fit(a),
        fields_fit(b),
        fields_lt(a, b),
    ensures
        seq_lt(iso_text(a.0, a.1, a.2, a.3, a.4, a.5), iso_text(b.0, b.1, b.2, b.3, b.4, b.5)),
{
    assert(pow10(4) == 10000 && pow10(2) == 100) by {
        reveal_with_fuel(pow10, 5);
    }
    let ra = rendered_fields(a);
    let rb = rendered_fields(b);
    lemma_padded_field(a.0, 4);
    lemma_padded_field(b.0, 4);
    lemma_padded_field(a.1, 2);
    lemma_padded_field(b.1, 2);
    lemma_padded_field(a.2, 2);
    lemma_padded_field(b.2, 2);
    lemma_padded_field(a.3, 2);
    lemma_padded_field(b.3, 2);
    lemma_padded_field(a.4, 2);
    lemma_padded_field(b.4, 2);
    lemma_padded_field(a.5, 2);
    lemma_padded_field(b.5, 2);
    assert(iso_text(a.0, a.1, a.2, a.3, a.4, a.5) == layout(ra[0], ra[1], ra[2], ra[3], ra[4], ra[5]));
    assert(iso_text(b.0, b.1, b.2, b.3, b.4, b.5) == layout(rb[0], rb[1], rb[2], rb[3], rb[4], rb[5]));
    if a.0 != b.0 {
        lemma_pad_order(a.0 as nat, b.0 as nat, 4);
        lemma_layout_field_0(ra[0], ra[1], ra[2], ra[3], ra[4], ra[5], rb[0], rb[1], rb[2], rb[3], rb[4], rb[5]);
    } else if a.1 != b.1 {
        lemma_pad_order(a.1 as nat, b.1 as nat, 2);
        lemma_layout_field_1(ra[0], ra[1], ra[2], ra[3], ra[4], ra[5], rb[1], rb[2], rb[3], rb[4], rb[5]);
    } else if a.2 != b.2 {
        lemma_pad_order(a.2 as nat, b.2 as nat, 2);
        lemma_layout_field_2(ra[0], ra[1], ra[2], ra[3], ra[4], ra[5], rb[2], rb[3], rb[4], rb[5]);
    } else if a.3 != b.3 {
        lemma_pad_order(a.3 as nat, b.3 as nat, 2);
        lemma_layout_field_3(ra[0], ra[1], ra[2], ra[3], ra[4], ra[5], rb[3], rb[4], rb[5]);
    } else if a.4 != b.4 {
        lemma_pad_order(a.4 as nat, b.4 as nat, 2);
        lemma_layout_field_4(ra[0], ra[1], ra[2], ra[3], ra[4], ra[5], rb[4], rb[5]);
    } else {
        lemma_pad_order(a.5 as nat, b.5 as nat, 2);
        lemma_layout_field_5(ra[0], ra[1], ra[2], ra[3], ra[4], ra[5], rb[5]);
    }
}

/// The fields `iso8601_of_ms` renders for `ms`: the date of its day and the
/// hour, minute and second within it.
pub open spec fn iso_fields(ms: int) -> (int, int, int, int, int, int) {
    let secs = ms / 1000;
    let days = secs / 86400;
    let tod = secs % 86400;
    let ymd = ymd_of_jdn(days + 2440588);
    (ymd.0, ymd.1, ymd.2, tod / 3600, (tod % 3600) / 60, tod % 60)
}

/// The first millisecond of year 0 (`0000-01-01T00:00:00Z`).
pub const FIRST_ISO_MS: i64 = -62_167_219_200_000;

/// The last millisecond of year 9999 (`9999-12-31T23:59:59.999Z`).
pub const LAST_ISO_MS: i64 = 253_402_300_799_999;

/// From the Julian epoch on, months run 1 to 12 and days 1 to 31.
pub(crate) proof fn lemma_month_day_range(j: int)
    requires
        j >= 0,
    ensures
        1 <= ymd_of_jdn(j).1 <= 12,
        1 <= ymd_of_jdn(j).2 <= 31,
{
    lemma_tdiv_bounds(4 * j + 274277, 146097);
    let a = tdiv(4 * j + 274277, 146097);
    lemma_tdiv_bounds(a * 3, 4);
    let f = j + 1401 + tdiv(a * 3, 4) - 38;
    let e = 4 * f + 3;
    lemma_tdiv_bounds(e, 1461);
    lemma_tdiv_bounds(tmod(e, 1461), 4);
    let g = tdiv(tmod(e, 1461), 4);
    assert(4 * g <= 1460);
    let h = 5 * g + 2;
    lemma_tdiv_bounds(h, 153);
    lemma_tdiv_bounds(tmod(h, 153), 5);
    assert(5 * tdiv(tmod(h, 153), 5) <= 152);
    lemma_tdiv_bounds(tdiv(h, 153) + 2, 12);
}

/// The day number of a time in years 0 through 9999.
pub(crate) proof fn lemma_day_number_range(ms: int)
    requires
        FIRST_ISO_MS <= ms <= LAST_ISO_MS,
    ensures
        1721060 <= ms / 1000 / 86400 + 2440588 <= 5373484,
{
    lemma_div_is_ordered(FIRST_ISO_MS as int, ms, 1000);
    lemma_div_is_ordered(ms, LAST_ISO_MS as int, 1000);
    lemma_div_is_ordered(FIRST_ISO_MS as int / 1000, ms / 1000, 86400);
    lemma_div_is_ordered(ms / 1000, LAST_ISO_MS as int / 1000, 86400);
}

/// Every field of a time in years 0 through 9999 fits its width.
pub(crate) proof fn lemma_iso_fields_fit(ms: int)
    requires
        FIRST_ISO_MS <= ms <= LAST_ISO_MS,
    ensures
        fields_fit(iso_fields(ms)),
{
    lemma_day_number_range(ms);
    let j = ms / 1000 / 86400 + 2440588;
    lemma_month_day_range(j);
    assert(ymd_of_jdn(1721060) == (0int, 1int, 1int));
    assert(ymd_of_jdn(5373484) == (9999int, 12int, 31int));
    if j > 1721060 {
        lemma_ymd_increasing(1721060, j);
    }
    if j < 5373484 {
        lemma_ymd_increasing(j, 5373484);
    }
    lemma_fundamental_div_mod(ms / 1000, 86400);
    let tod = (ms / 1000) % 86400;
    lemma_fundamental_div_mod(tod, 3600);
    lemma_fundamental_div_mod(tod % 3600, 60);
    lemma_fundamental_div_mod(tod, 60);
}

/// Later seconds have later fields.
pub(crate) proof fn lemma_iso_fields_increasing(a: int, b: int)
    requires
        FIRST_ISO_MS <= a <= b <= LAST_ISO_MS,
        a / 1000 < b / 1000,
    ensures
        fields_lt(iso_fields(a), iso_fields(b)),
{
    lemma_day_number_range(a);
    lemma_day_number_range(b);
    let sa = a / 1000;
    let sb = b / 1000;
    lemma_div_is_ordered(sa, sb, 86400);
    let da = sa / 86400;
    let db = sb / 86400;
    if da < db {
        lemma_ymd_increasing(da + 2440588, db + 2440588);
    } else {
        lemma_fundamental_div_mod(sa, 86400);
        lemma_fundamental_div_mod(sb, 86400);
        let ta = sa % 86400;
        let tb = sb % 86400;
        assert(ta < tb);
        lemma_fundamental_div_mod(ta, 3600);
        lemma_fundamental_div_mod(tb, 3600);
        lemma_div_is_ordered(ta, tb, 3600);
        if ta / 3600 == tb / 3600 {
            let ra = ta % 3600;
            let rb = tb % 3600;
            assert(ra < rb);
            lemma_fundamental_div_mod(ra, 60);
            lemma_fundamental_div_mod(rb, 60);
            lemma_div_is_ordered(ra, rb, 60);
            lemma_fundamental_div_mod(ta, 60);
            lemma_fundamental_div_mod(tb, 60);
            if ra / 60 == rb / 60 {
                assert(ta % 60 == ra % 60) by {
                    assert(ta == 3600 * (ta / 3600) + ra);
                    assert(ta == 60 * (60 * (ta / 3600) + ra / 60) + ra % 60);
                    vstd::arithmetic::div_mod::lemma_fundamental_div_mod_converse(
                        ta,
                        60,
                        60 * (ta / 3600) + ra / 60,
                        ra % 60,
                    );
                }
                assert(tb % 60 == rb % 60) by {
                    assert(tb == 3600 * (tb / 3600) + rb);
                    assert(tb == 60 * (60 * (tb / 3600) + rb / 60) + rb % 60);
                    vstd::arithmetic::div_mod::lemma_fundamental_div_mod_converse(
                        tb,
                        60,
                        60 * (tb / 3600) + rb / 60,
                        rb % 60,
                    );
                }
            }
        }
    }
}

} // verus!
