//! Decimal rendering of integers, prices (cents) and weights (milligrams)
//! for the event log and for user-facing messages.

use vstd::prelude::*;
use vstd::arithmetic::power::pow;
use vstd::arithmetic::power2::{lemma_pow2, lemma_pow2_adds, lemma_pow2_pos, lemma_pow2_unfold, pow2};

verus! {

/// The character of a decimal digit.
pub open spec fn digit_char(d: int) -> char {
    if d == 0 { '0' }
    else if d == 1 { '1' }
    else if d == 2 { '2' }
    else if d == 3 { '3' }
    else if d == 4 { '4' }
    else if d == 5 { '5' }
    else if d == 6 { '6' }
    else if d == 7 { '7' }
    else if d == 8 { '8' }
    else { '9' }
}

/// Decimal digits of a natural number, most significant first, no leading zeros.
pub open spec fn decimal_digits(n: nat) -> Seq<char>
    decreases n,
{
    if n < 10 {
        seq![digit_char(n as int)]
    } else {
        decimal_digits(n / 10).push(digit_char((n % 10) as int))
    }
}

/// Decimal rendering of an integer, with a leading '-' when negative.
pub open spec fn decimal(i: int) -> Seq<char> {
    if i < 0 {
        seq!['-'] + decimal_digits((-i) as nat)
    } else {
        decimal_digits(i as nat)
    }
}

fn digit_str(d: u64) -> (s: &'static str)
    requires
        d < 10,
    ensures
        s@ == seq![digit_char(d as int)],
{
    proof {
        reveal_strlit("0");
        reveal_strlit("1");
        reveal_strlit("2");
        reveal_strlit("3");
        reveal_strlit("4");
        reveal_strlit("5");
        reveal_strlit("6");
        reveal_strlit("7");
        reveal_strlit("8");
        reveal_strlit("9");
    }
    if d == 0 { "0" }
    else if d == 1 { "1" }
    else if d == 2 { "2" }
    else if d == 3 { "3" }
    else if d == 4 { "4" }
    else if d == 5 { "5" }
    else if d == 6 { "6" }
    else if d == 7 { "7" }
    else if d == 8 { "8" }
    else { "9" }
}

/// Appends the decimal digits of `n` to `out`.
pub fn push_decimal_u64(out: &mut String, n: u64)
    ensures
        final(out)@ == old(out)@ + decimal_digits(n as nat),
    decreases n,
{
    if n >= 10 {
        push_decimal_u64(out, n / 10);
    }
    out.append(digit_str(n % 10));
    assert(decimal_digits(n as nat) =~= if n < 10 {
        seq![digit_char(n as int)]
    } else {
        decimal_digits((n / 10) as nat).push(digit_char((n % 10) as int))
    });
}

/// Magnitude of an `i64` as a `u64` (defined for `i64::MIN` too).
pub fn magnitude(i: i64) -> (m: u64)
    ensures
        m as int == if i < 0 { -i } else { i as int },
{
    if i < 0 {
        ((-(i + 1)) as u64) + 1
    } else {
        i as u64
    }
}

/// Appends the decimal rendering of `i` to `out`.
pub fn push_decimal_i64(out: &mut String, i: i64)
    ensures
        final(out)@ == old(out)@ + decimal(i as int),
{
    proof { reveal_strlit("-"); }
    if i < 0 {
        out.append("-");
    }
    let m = magnitude(i);
    let ghost mid = out@;
    push_decimal_u64(out, m);
    if i < 0 {
        assert(out@ =~= old(out)@ + decimal(i as int));
    } else {
        assert(out@ =~= old(out)@ + decimal(i as int));
    }
}

/// The decimal rendering of an `i64`, as `format!("{}", i)` gives it.
pub fn fmt_i64(i: i64) -> (s: String)
    ensures
        s@ == decimal(i as int),
{
    let mut s = String::new();
    push_decimal_i64(&mut s, i);
    assert(s@ =~= decimal(i as int));
    s
}

/// `n / d` rounded to the nearest integer, ties to the even one.
pub open spec fn div_half_even(n: nat, d: nat) -> nat {
    let q = n / d;
    let r = n % d;
    if 2 * r > d || (2 * r == d && q % 2 == 1) { q + 1 } else { q }
}

/// 2^52 * 1000: a weight of `a` mg scaled by 2^t lies in
/// [BINADE_LOW, 2 * BINADE_LOW) exactly when (a / 1000) * 2^t lies in
/// [2^52, 2^53), the range of the 53-bit significands of doubles.
pub const BINADE_LOW: u64 = 4503599627370496000;

pub open spec fn in_binade(a: nat, t: nat) -> bool {
    BINADE_LOW <= a * pow2(t) < 2 * BINADE_LOW
}

/// The number of tenths that `{:.1}` prints for the double nearest to
/// `a / 1000`. That double is `m / 2^t`, where `t` brings `(a / 1000) * 2^t`
/// into [2^52, 2^53) and `m` is `a * 2^t / 1000` rounded half to even (IEEE
/// round to nearest); from `a / 1000 >= 2^53` on it is `2 * m`, with `m`
/// the rounding of `a / 2000`. `{:.1}` rounds the exact value of that
/// double to tenths, ties to the even tenth.
pub open spec fn double_tenths(a: nat) -> nat {
    if a == 0 {
        0
    } else if a >= 2 * BINADE_LOW {
        20 * div_half_even(a, 2000)
    } else {
        let t = choose|t: nat| in_binade(a, t);
        div_half_even(10 * div_half_even(a * pow2(t), 1000), pow2(t))
    }
}

/// `{:.2}` rendering of a price given in cents.
pub open spec fn price_text(cents: int) -> Seq<char> {
    let m: nat = if cents < 0 { (-cents) as nat } else { cents as nat };
    let sign: Seq<char> = if cents < 0 { seq!['-'] } else { Seq::empty() };
    sign + decimal_digits(m / 100) + seq!['.', digit_char(((m % 100) / 10) as int), digit_char((m % 10) as int)]
}

/// `{:.1}` rendering, in grams, of the double nearest to a weight given in
/// milligrams (the sign is printed for every negative weight).
pub open spec fn grams_text(mg: int) -> Seq<char> {
    let m: nat = if mg < 0 { (-mg) as nat } else { mg as nat };
    let t = double_tenths(m);
    let sign: Seq<char> = if mg < 0 { seq!['-'] } else { Seq::empty() };
    sign + decimal_digits(t / 10) + seq!['.', digit_char((t % 10) as int)]
}

/// Appends the two-decimal rendering of a price in cents.
pub fn push_price(out: &mut String, cents: i64)
    ensures
        final(out)@ == old(out)@ + price_text(cents as int),
{
    proof {
        reveal_strlit("-");
        reveal_strlit(".");
    }
    if cents < 0 {
        out.append("-");
    }
    let m = magnitude(cents);
    push_decimal_u64(out, m / 100);
    out.append(".");
    out.append(digit_str((m % 100) / 10));
    out.append(digit_str(m % 10));
    assert(out@ =~= old(out)@ + price_text(cents as int));
}

fn div_half_even_u64(n: u64, d: u64) -> (r: u64)
    requires
        d > 0,
    ensures
        r == div_half_even(n as nat, d as nat),
{
    let q = n / d;
    let r = n % d;
    if r > d - r || (r == d - r && q % 2 == 1) {
        assert(q < u64::MAX) by (nonlinear_arith)
            requires
                q == n / d,
                d >= 2,
                n <= u64::MAX,
        ;
        q + 1
    } else {
        q
    }
}

/// A scaling into the binade is unique.
proof fn lemma_binade_unique(a: nat, t1: nat, t2: nat)
    requires
        in_binade(a, t1),
        in_binade(a, t2),
    ensures
        t1 == t2,
{
    if t1 != t2 {
        let (lo, hi) = if t1 < t2 { (t1, t2) } else { (t2, t1) };
        let d = (hi - lo) as nat;
        lemma_pow2_adds(lo, d);
        assert(lo + d == hi);
        lemma_pow2_unfold(d);
        lemma_pow2_pos((d - 1) as nat);
        let x = a * pow2(lo);
        assert(a * pow2(hi) == x * pow2(d)) by (nonlinear_arith)
            requires
                pow2(hi) == pow2(lo) * pow2(d),
                x == a * pow2(lo),
        ;
        assert(x * pow2(d) >= 2 * x) by (nonlinear_arith)
            requires
                pow2(d) >= 2,
                x >= 0,
        ;
    }
}

/// The tenths of grams printed for a weight of `a` mg.
fn tenths_of(a: u64) -> (r: u64)
    requires
        a <= 0x8000_0000_0000_0000,
    ensures
        r == double_tenths(a as nat),
{
    if a == 0 {
        return 0;
    }
    if a >= 2 * BINADE_LOW {
        let m = div_half_even_u64(a, 2000);
        return 20 * m;
    }
    let mut n: u64 = a;
    let mut p: u64 = 1;
    let ghost mut t: nat = 0;
    proof {
        reveal(pow);
        assert(pow2(0) == 1) by {
            lemma_pow2(0);
        }
    }
    while n < BINADE_LOW
        invariant
            1 <= a < 2 * BINADE_LOW,
            n == a * pow2(t),
            p == pow2(t),
            1 <= p <= n,
            n < 2 * BINADE_LOW,
        decreases 2 * BINADE_LOW - n,
    {
        proof {
            lemma_pow2_unfold(t + 1);
            assert(a * pow2(t + 1) == 2 * n) by (nonlinear_arith)
                requires
                    pow2(t + 1) == 2 * pow2(t),
                    n == a * pow2(t),
            ;
        }
        n = 2 * n;
        p = 2 * p;
        proof {
            t = t + 1;
        }
    }
    proof {
        assert(in_binade(a as nat, t));
        let c = choose|c: nat| in_binade(a as nat, c);
        lemma_binade_unique(a as nat, t, c);
    }
    let m = div_half_even_u64(n, 1000);
    assert(m <= 9007199254740993) by (nonlinear_arith)
        requires
            m <= n / 1000 + 1,
            n < 2 * BINADE_LOW,
    ;
    div_half_even_u64(10 * m, p)
}

/// Appends the one-decimal rendering, in grams, of a weight in milligrams.
pub fn push_grams(out: &mut String, mg: i64)
    ensures
        final(out)@ == old(out)@ + grams_text(mg as int),
{
    proof {
        reveal_strlit("-");
        reveal_strlit(".");
    }
    if mg < 0 {
        out.append("-");
    }
    let m = magnitude(mg);
    let t = tenths_of(m);
    push_decimal_u64(out, t / 10);
    out.append(".");
    out.append(digit_str(t % 10));
    assert(out@ =~= old(out)@ + grams_text(mg as int));
}

/// A line of the plain-text system log.
pub open spec fn log_line(timestamp: Seq<char>, machine_id: i64, event: Seq<char>, details: Seq<char>) -> Seq<char> {
    "["@ + timestamp + "] machine="@ + decimal(machine_id as int) + " "@ + event + " | "@ + details + "\n"@
}

/// `[{timestamp}] machine={machine_id} {event} | {details}` and a newline.
pub fn log_file_line(timestamp: &str, machine_id: i64, event: &str, details: &str) -> (s: String)
    ensures
        s@ == log_line(timestamp@, machine_id, event@, details@),
{
    let mut s = "[".to_owned();
    s.append(timestamp);
    s.append("] machine=");
    push_decimal_i64(&mut s, machine_id);
    s.append(" ");
    s.append(event);
    s.append(" | ");
    s.append(details);
    s.append("\n");
    assert(s@ =~= log_line(timestamp@, machine_id, event@, details@));
    s
}

} // verus!
