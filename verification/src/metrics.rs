//! Helpers behind the machine's health metrics: the reporting periods, the
//! thinning of long series, the detection of offline gaps, and the CPU
//! usage between two `/proc/stat` samples.

use vstd::prelude::*;
use crate::seqs::somes;

verus! {

/// Minutes covered by a reporting period: `6h`, `24h` and `7d` are known,
/// anything else counts as one hour.
pub open spec fn period_minutes_of(period: Seq<char>) -> i64 {
    if period == "6h"@ {
        360
    } else if period == "24h"@ {
        1440
    } else if period == "7d"@ {
        10080
    } else {
        60
    }
}

/// The requested period (`1h` when none was given) and the minutes it covers.
pub fn metrics_period(period: Option<String>) -> (r: (String, i64))
    ensures
        r.0@ == match period {
            Some(p) => p@,
            None => "1h"@,
        },
        r.1 == period_minutes_of(r.0@),
{
    let label = match period {
        Some(p) => p,
        None => "1h".to_owned(),
    };
    let minutes = if label == "6h".to_owned() {
        360
    } else if label == "24h".to_owned() {
        1440
    } else if label == "7d".to_owned() {
        10080
    } else {
        60
    };
    (label, minutes)
}

/// Most points a series is thinned towards.
pub const MAX_POINTS: usize = 200;

/// The stride used to thin a series of `n` points: `n / 200` rounded up, so
/// that at most 200 points are kept.
pub open spec fn stride(n: nat) -> nat {
    if n > MAX_POINTS { ((n + 199) / 200) as nat } else { 1 }
}

/// Indices of the points kept of a series of `n` points, in increasing order:
/// every point when there are at most 200, otherwise every `stride(n)`-th
/// point from the first, which keeps at most 200 of them.
pub fn downsample_indices(n: usize) -> (idx: Vec<usize>)
    ensures
        idx@.len() == (n + stride(n as nat) - 1) / (stride(n as nat) as int),
        idx@.len() <= MAX_POINTS,
        n <= MAX_POINTS ==> idx@.len() == n,
        forall|k: int| 0 <= k < idx@.len() ==> #[trigger] idx@[k] == k * stride(n as nat),
        forall|k: int| 0 <= k < idx@.len() ==> #[trigger] idx@[k] < n,
{
    let step: usize = if n > MAX_POINTS {
        n / MAX_POINTS + if n % MAX_POINTS == 0 { 0 } else { 1 }
    } else {
        1
    };
    proof {
        if n > MAX_POINTS {
            lemma_ceil_div(n as int, MAX_POINTS as int, step as int);
        }
    }
    let q = n / step;
    let count: usize = if n % step == 0 {
        q
    } else {
        assert(step >= 2);
        assert(q < usize::MAX) by (nonlinear_arith)
            requires
                q == n / step,
                step >= 2,
                n <= usize::MAX,
        ;
        q + 1
    };
    proof {
        lemma_ceil_div(n as int, step as int, count as int);
        lemma_thinned_bound(n as int, step as int, count as int);
    }
    let mut idx: Vec<usize> = Vec::new();
    let mut k: usize = 0;
    while k < count
        invariant
            step == stride(n as nat),
            step >= 1,
            count as int == (n + step - 1) / (step as int),
            count == n / step + if n % step == 0 { 0int } else { 1int },
            k <= count,
            idx@.len() == k,
            forall|j: int| 0 <= j < idx@.len() ==> #[trigger] idx@[j] == j * step,
            forall|j: int| 0 <= j < idx@.len() ==> #[trigger] idx@[j] < n,
        decreases count - k,
    {
        assert(k * step < n) by (nonlinear_arith)
            requires
                step >= 1,
                k < count,
                count == n / step + if n % step == 0 { 0int } else { 1int },
        ;
        idx.push(k * step);
        k += 1;
    }
    idx
}

/// With the rounded-up stride, at most 200 points are kept (all of them when
/// there are at most 200).
proof fn lemma_thinned_bound(n: int, s: int, c: int)
    requires
        n >= 0,
        s == stride(n as nat),
        c == n / s + if n % s == 0 { 0int } else { 1int },
    ensures
        c <= MAX_POINTS,
        n <= MAX_POINTS ==> c == n,
{
    if n > MAX_POINTS {
        assert(s * 200 >= n) by (nonlinear_arith)
            requires
                s == (n + 199) / 200,
                n > 200,
        ;
        assert(c <= 200) by (nonlinear_arith)
            requires
                s >= 1,
                s * 200 >= n,
                n >= 0,
                c == n / s + if n % s == 0 { 0int } else { 1int },
        ;
    }
}

proof fn lemma_ceil_div(n: int, s: int, c: int)
    requires
        s >= 1,
        n >= 0,
        c == n / s + if n % s == 0 { 0int } else { 1int },
    ensures
        c == (n + s - 1) / s,
{
    assert(c == (n + s - 1) / s) by (nonlinear_arith)
        requires
            s >= 1,
            n >= 0,
            c == n / s + if n % s == 0 { 0int } else { 1int },
    ;
}

/// A stretch during which the machine sent no reading.
pub struct OfflineGap {
    pub from: String,
    pub to: String,
    /// Length in tenths of a minute.
    pub duration_tenths: i64,
}

/// Silence longer than this many seconds between two readings is a gap.
pub const GAP_THRESHOLD_S: i64 = 120;

/// Seconds rounded to tenths of a minute, halves away from zero.
pub open spec fn tenths_of_minute(seconds: int) -> int {
    if seconds >= 0 { (seconds + 3) / 6 } else { -((-seconds + 3) / 6) }
}

/// The gap between readings `i` and `i + 1`, if the silence exceeded the threshold.
pub open spec fn gap_at(timestamps: Seq<String>, gaps_s: Seq<Option<i64>>, i: int) -> Option<(String, String, int)> {
    match gaps_s[i] {
        Some(s) => if s > GAP_THRESHOLD_S {
            Some((timestamps[i], timestamps[i + 1], tenths_of_minute(s as int)))
        } else {
            None
        },
        None => None,
    }
}

pub open spec fn gap_view(g: OfflineGap) -> (String, String, int) {
    (g.from, g.to, g.duration_tenths as int)
}

/// A silence of `seconds` is given in tenths of a minute, to the nearest
/// tenth (`seconds / 6`), halves away from zero: the tenths times 6 are
/// within 3 seconds of the silence.
pub proof fn lemma_gap_tenths_round_seconds(seconds: int)
    ensures
        -3 <= 6 * tenths_of_minute(seconds) - seconds <= 3,
        6 * tenths_of_minute(seconds) - seconds == 3 ==> seconds >= 0,
        6 * tenths_of_minute(seconds) - seconds == -3 ==> seconds < 0,
{
}

/// For each reading but the last, the gap that follows it, if any.
pub open spec fn gap_candidates(timestamps: Seq<String>, gaps_s: Seq<Option<i64>>) -> Seq<Option<(String, String, int)>> {
    Seq::new(gaps_s.len(), |i: int| gap_at(timestamps, gaps_s, i))
}

/// `g` is the gap after reading `i` for some `i`: the silence that followed
/// that reading was longer than `GAP_THRESHOLD_S` seconds, `g` runs from that
/// reading to the next, and its length is that silence in tenths of a minute.
pub open spec fn gap_reported(timestamps: Seq<String>, gaps_s: Seq<Option<i64>>, g: (String, String, int)) -> bool {
    exists|i: int|
        0 <= i < gaps_s.len() && (#[trigger] gaps_s[i]) is Some && gaps_s[i]->0 > GAP_THRESHOLD_S && g.0
            == timestamps[i] && g.1 == timestamps[i + 1] && -3 < 6 * g.2 - gaps_s[i]->0 <= 3
}

/// The gaps reported are exactly the silences longer than `GAP_THRESHOLD_S`
/// seconds, in order: each reported gap is such a silence with its length
/// rounded to tenths of a minute, and each such silence is reported, after
/// as many gaps as there are such silences before it.
pub proof fn lemma_offline_gaps_are_the_long_silences(timestamps: Seq<String>, gaps_s: Seq<Option<i64>>)
    requires
        gaps_s.len() + 1 == timestamps.len(),
    ensures
        forall|k: int| 0 <= k < somes(gap_candidates(timestamps, gaps_s)).len()
            ==> gap_reported(timestamps, gaps_s, #[trigger] somes(gap_candidates(timestamps, gaps_s))[k]),
        forall|i: int| #![trigger gaps_s[i]] 0 <= i < gaps_s.len() && gaps_s[i] is Some && gaps_s[i]->0 > GAP_THRESHOLD_S ==> {
            let all = gap_candidates(timestamps, gaps_s);
            let k = somes(all.take(i)).len() as int;
            &&& k < somes(all).len()
            &&& somes(all)[k].0 == timestamps[i]
            &&& somes(all)[k].1 == timestamps[i + 1]
            &&& -3 < 6 * somes(all)[k].2 - gaps_s[i]->0 <= 3
        },
{
    let all = gap_candidates(timestamps, gaps_s);
    assert forall|k: int| 0 <= k < somes(all).len() implies gap_reported(timestamps, gaps_s, #[trigger] somes(all)[k]) by {
        crate::seqs::lemma_somes_member(all, k);
        let i = choose|i: int| 0 <= i < all.len() && #[trigger] all[i] == Some(somes(all)[k]);
        lemma_gap_tenths_round_seconds(gaps_s[i]->0 as int);
        assert(gaps_s[i] is Some);
    }
    assert forall|i: int| #![trigger gaps_s[i]] 0 <= i < gaps_s.len() && gaps_s[i] is Some && gaps_s[i]->0 > GAP_THRESHOLD_S implies {
            let k = somes(all.take(i)).len() as int;
            &&& k < somes(all).len()
            &&& somes(all)[k].0 == timestamps[i]
            &&& somes(all)[k].1 == timestamps[i + 1]
            &&& -3 < 6 * somes(all)[k].2 - gaps_s[i]->0 <= 3
        } by {
        assert(all[i] == gap_at(timestamps, gaps_s, i));
        crate::seqs::lemma_somes_at(all, i);
        lemma_gap_tenths_round_seconds(gaps_s[i]->0 as int);
    }
}

/// The offline gaps of a series of readings, given the seconds elapsed
/// between each reading and the next (`None` where that is unknown).
pub fn offline_gaps(timestamps: &Vec<String>, gaps_s: &Vec<Option<i64>>) -> (r: Vec<OfflineGap>)
    requires
        gaps_s@.len() + 1 == timestamps@.len(),
    ensures
        r@.map_values(|g: OfflineGap| gap_view(g)) == somes(
            Seq::new(gaps_s@.len(), |i: int| gap_at(timestamps@, gaps_s@, i)),
        ),
        // Each gap is a silence longer than the threshold, its length rounded to tenths of a minute.
        forall|k: int| 0 <= k < r@.len() ==> gap_reported(timestamps@, gaps_s@, gap_view(#[trigger] r@[k])),
{
    let ghost all = Seq::new(gaps_s@.len(), |i: int| gap_at(timestamps@, gaps_s@, i));
    let mut r: Vec<OfflineGap> = Vec::new();
    let mut i: usize = 0;
    while i < gaps_s.len()
        invariant
            gaps_s@.len() + 1 == timestamps@.len(),
            i <= gaps_s@.len(),
            all == Seq::new(gaps_s@.len(), |i: int| gap_at(timestamps@, gaps_s@, i)),
            r@.map_values(|g: OfflineGap| gap_view(g)) == somes(all.take(i as int)),
        decreases gaps_s@.len() - i,
    {
        proof { crate::seqs::lemma_somes_take_succ(all, i as int); }
        match gaps_s[i] {
            Some(s) => {
                if s > GAP_THRESHOLD_S {
                    let tenths = (s / 6) + if s % 6 >= 3 { 1 } else { 0 };
                    let g = OfflineGap {
                        from: timestamps[i].clone(),
                        to: timestamps[i + 1].clone(),
                        duration_tenths: tenths,
                    };
                    let ghost before = r@;
                    r.push(g);
                    assert(r@.map_values(|g: OfflineGap| gap_view(g)) =~= before.map_values(|g: OfflineGap| gap_view(g)).push(gap_view(g)));
                }
            },
            None => {},
        }
        i += 1;
    }
    assert(all.take(gaps_s@.len() as int) =~= all);
    proof {
        lemma_offline_gaps_are_the_long_silences(timestamps@, gaps_s@);
        assert forall|k: int| 0 <= k < r@.len() implies gap_reported(timestamps@, gaps_s@, gap_view(#[trigger] r@[k])) by {
            assert(r@.map_values(|g: OfflineGap| gap_view(g))[k] == gap_view(r@[k]));
            assert(somes(all)[k] == gap_view(r@[k]));
            assert(all == gap_candidates(timestamps@, gaps_s@));
            assert(somes(gap_candidates(timestamps@, gaps_s@))[k] == gap_view(r@[k]));
        }
    }
    r
}

/// Cumulative CPU time counters of one `/proc/stat` sample.
pub struct CpuStat {
    pub total: u64,
    pub idle: u64,
}

/// `a - b`, or 0 when `b` exceeds `a`.
pub open spec fn saturating_diff(a: u64, b: u64) -> int {
    if a >= b { a - b } else { 0 }
}

/// CPU usage between two samples in tenths of a percent: busy time over
/// total time, rounded half away from zero; 0 when no time elapsed.
pub open spec fn usage_tenths(total: int, idle: int) -> int {
    if total == 0 {
        0
    } else if total >= idle {
        (2000 * (total - idle) + total) / (2 * total)
    } else {
        -((2000 * (idle - total) + total) / (2 * total))
    }
}

/// Usage is the busy share of the elapsed time: `u` tenths of a percent
/// with `u` the nearest integer to `1000 * busy / total`, halves rounded up,
/// so `u / 1000` is within half a tenth of `busy / total`; idle time above
/// the elapsed time gives the same rounding of a negative share.
pub proof fn lemma_usage_is_the_busy_share(total: int, idle: int)
    requires
        total > 0,
        idle >= 0,
    ensures
        idle <= total ==> 0 <= usage_tenths(total, idle) <= 1000,
        idle <= total ==> 2 * usage_tenths(total, idle) * total <= 2000 * (total - idle) + total,
        idle <= total ==> 2000 * (total - idle) + total < 2 * usage_tenths(total, idle) * total + 2 * total,
        idle > total ==> 2 * (-usage_tenths(total, idle)) * total <= 2000 * (idle - total) + total,
        idle > total ==> 2000 * (idle - total) + total < 2 * (-usage_tenths(total, idle)) * total + 2 * total,
{
    let d = 2 * total;
    if idle <= total {
        let n = 2000 * (total - idle) + total;
        let u = n / d;
        assert(d * u <= n < d * u + d) by (nonlinear_arith)
            requires
                u == n / d,
                d > 0,
        ;
        assert(0 <= u <= 1000) by (nonlinear_arith)
            requires
                d * u <= n < d * u + d,
                d == 2 * total,
                n == 2000 * (total - idle) + total,
                total > 0,
                0 <= idle <= total,
        ;
        assert(2 * u * total == d * u) by (nonlinear_arith)
            requires
                d == 2 * total,
        ;
    } else {
        let n = 2000 * (idle - total) + total;
        let u = n / d;
        assert(d * u <= n < d * u + d) by (nonlinear_arith)
            requires
                u == n / d,
                d > 0,
        ;
        assert(2 * u * total == d * u) by (nonlinear_arith)
            requires
                d == 2 * total,
        ;
    }
}

/// More idle time over the same elapsed time never gives a higher usage.
pub proof fn lemma_usage_falls_as_idle_grows(total: int, idle1: int, idle2: int)
    requires
        total > 0,
        0 <= idle1 <= idle2 <= total,
    ensures
        usage_tenths(total, idle2) <= usage_tenths(total, idle1),
{
    lemma_usage_is_the_busy_share(total, idle1);
    lemma_usage_is_the_busy_share(total, idle2);
    let u1 = usage_tenths(total, idle1);
    let u2 = usage_tenths(total, idle2);
    assert(u2 <= u1) by (nonlinear_arith)
        requires
            total > 0,
            idle1 <= idle2,
            2 * u2 * total <= 2000 * (total - idle2) + total,
            2000 * (total - idle1) + total < 2 * u1 * total + 2 * total,
    ;
}

/// CPU usage between two samples, in tenths of a percent.
pub fn cpu_usage_tenths(prev: &CpuStat, curr: &CpuStat) -> (r: i128)
    ensures
        r == usage_tenths(saturating_diff(curr.total, prev.total), saturating_diff(curr.idle, prev.idle)),
        // No elapsed time reads as no usage.
        saturating_diff(curr.total, prev.total) == 0 ==> r == 0,
        // Otherwise the busy share of the elapsed time, rounded to tenths of a percent.
        saturating_diff(curr.total, prev.total) > 0 && saturating_diff(curr.idle, prev.idle) <= saturating_diff(
            curr.total,
            prev.total,
        ) ==> {
            let t = saturating_diff(curr.total, prev.total);
            let busy = t - saturating_diff(curr.idle, prev.idle);
            &&& 0 <= r <= 1000
            &&& 2 * r * t <= 2000 * busy + t
            &&& 2000 * busy + t < 2 * r * t + 2 * t
        },
{
    proof {
        if saturating_diff(curr.total, prev.total) > 0 {
            lemma_usage_is_the_busy_share(saturating_diff(curr.total, prev.total), saturating_diff(curr.idle, prev.idle));
        }
    }
    let total: u64 = if curr.total >= prev.total { curr.total - prev.total } else { 0 };
    let idle: u64 = if curr.idle >= prev.idle { curr.idle - prev.idle } else { 0 };
    if total == 0 {
        return 0;
    }
    let t = total as u128;
    if total >= idle {
        let busy = (total - idle) as u128;
        proof {
            assert(busy * 2000 <= t * 2000) by (nonlinear_arith) requires busy <= t;
            assert(t * 2000 < 0x1_0000_0000_0000_0000 * 2000) by (nonlinear_arith) requires t < 0x1_0000_0000_0000_0000;
        }
        let q = (2000 * busy + t) / (2 * t);
        proof {
            assert(q <= 1000) by (nonlinear_arith)
                requires q == (2000 * busy + t) / (2 * t), busy <= t, t > 0;
        }
        q as i128
    } else {
        let over = (idle - total) as u128;
        proof {
            assert(over * 2000 < 0x1_0000_0000_0000_0000 * 2000) by (nonlinear_arith) requires over < 0x1_0000_0000_0000_0000;
            assert(t * 2000 < 0x1_0000_0000_0000_0000 * 2000) by (nonlinear_arith) requires t < 0x1_0000_0000_0000_0000;
        }
        let q = (2000 * over + t) / (2 * t);
        proof {
            assert(q <= 2000 * over + t) by (nonlinear_arith)
                requires q == (2000 * over + t) / (2 * t), t > 0;
            assert(q < 0x1_0000_0000_0000_0000_0000) by (nonlinear_arith)
                requires q <= 2000 * over + t, over < 0x1_0000_0000_0000_0000, t < 0x1_0000_0000_0000_0000;
        }
        -(q as i128)
    }
}


// ---------------------------------------------------------------------------
// Reading `/proc/stat`.

/// ASCII white space as `char::is_whitespace` sees it.
pub open spec fn is_space(b: u8) -> bool {
    b == 0x20 || (0x09 <= b <= 0x0d)
}

/// End of the run of non-space bytes starting at `i`.
pub open spec fn token_end(s: Seq<u8>, i: int) -> int
    decreases s.len() - i,
{
    if i < 0 || i >= s.len() || is_space(s[i]) {
        i
    } else {
        token_end(s, i + 1)
    }
}

pub proof fn lemma_token_end(s: Seq<u8>, i: int)
    requires
        0 <= i <= s.len(),
    ensures
        i <= token_end(s, i) <= s.len(),
        forall|k: int| i <= k < token_end(s, i) ==> !is_space(#[trigger] s[k]),
        token_end(s, i) < s.len() ==> is_space(s[token_end(s, i)]),
    decreases s.len() - i,
{
    if i < s.len() && !is_space(s[i]) {
        lemma_token_end(s, i + 1);
    }
}

/// The white-space separated words of `s` from position `i` on.
pub open spec fn tokens_from(s: Seq<u8>, i: int) -> Seq<Seq<u8>>
    decreases s.len() - i,
{
    if i < 0 || i >= s.len() {
        Seq::empty()
    } else if is_space(s[i]) {
        tokens_from(s, i + 1)
    } else {
        let j = token_end(s, i + 1);
        proof {
            lemma_token_end(s, i + 1);
        }
        seq![s.subrange(i, j)] + tokens_from(s, j)
    }
}

/// The bytes before the first newline.
pub open spec fn first_line(s: Seq<u8>) -> Seq<u8> {
    if exists|i: int| 0 <= i < s.len() && s[i] == 10 {
        s.take(choose|i: int| 0 <= i < s.len() && s[i] == 10 && forall|k: int| 0 <= k < i ==> s[k] != 10)
    } else {
        s
    }
}

/// Value of a run of decimal digits.
pub open spec fn digits_value(d: Seq<u8>) -> int
    decreases d.len(),
{
    if d.len() == 0 {
        0
    } else {
        digits_value(d.drop_last()) * 10 + (d.last() - 48)
    }
}

pub open spec fn all_digits(d: Seq<u8>) -> bool {
    forall|i: int| 0 <= i < d.len() ==> 48 <= #[trigger] d[i] <= 57
}

/// How `str::parse::<u64>` reads a word: an optional `+`, then at least one
/// decimal digit, the value fitting in 64 bits.
pub open spec fn parse_u64_word(t: Seq<u8>) -> Option<u64> {
    let d = if t.len() > 0 && t[0] == 43 { t.drop_first() } else { t };
    if d.len() > 0 && all_digits(d) && digits_value(d) <= u64::MAX {
        Some(digits_value(d) as u64)
    } else {
        None
    }
}

/// The CPU counters of `/proc/stat`: on its first line, the seven numbers
/// after the first word (user, nice, system, idle, iowait, irq, softirq);
/// total time is their sum, idle time is idle plus iowait. `None` when a
/// number is missing or malformed, or when the sum does not fit in 64 bits.
pub open spec fn cpu_stat_of(text: Seq<u8>) -> Option<(u64, u64)> {
    let t = tokens_from(first_line(text), 0);
    if t.len() >= 8 && (forall|k: int| 1 <= k < 8 ==> #[trigger] parse_u64_word(t[k]) is Some) {
        let v = |k: int| parse_u64_word(t[k])->Some_0 as int;
        let total = v(1) + v(2) + v(3) + v(4) + v(5) + v(6) + v(7);
        if total <= u64::MAX {
            Some((total as u64, (v(4) + v(5)) as u64))
        } else {
            None
        }
    } else {
        None
    }
}

proof fn lemma_digits_value_prefix(d: Seq<u8>, k: int)
    requires
        all_digits(d),
        0 <= k <= d.len(),
    ensures
        digits_value(d.take(k)) <= digits_value(d),
        digits_value(d) >= 0,
    decreases d.len(),
{
    if d.len() > 0 {
        assert(all_digits(d.drop_last()));
        if k == d.len() {
            assert(d.take(k) =~= d);
            lemma_digits_value_prefix(d.drop_last(), 0);
        } else {
            assert(d.drop_last().take(k) =~= d.take(k));
            lemma_digits_value_prefix(d.drop_last(), k);
        }
    }
}

/// Reads a word as `str::parse::<u64>` does.
pub fn parse_u64(t: &[u8]) -> (r: Option<u64>)
    ensures
        r == parse_u64_word(t@),
{
    let start: usize = if t.len() > 0 && t[0] == 43 { 1 } else { 0 };
    let ghost d = if t@.len() > 0 && t@[0] == 43 { t@.drop_first() } else { t@ };
    assert(d =~= t@.subrange(start as int, t@.len() as int));
    if start >= t.len() {
        return None;
    }
    let mut acc: u64 = 0;
    let mut i: usize = start;
    while i < t.len()
        invariant
            start <= i <= t@.len(),
            d == (if t@.len() > 0 && t@[0] == 43 { t@.drop_first() } else { t@ }),
            d =~= t@.subrange(start as int, t@.len() as int),
            all_digits(d.take(i - start)),
            acc == digits_value(d.take(i - start)),
        decreases t@.len() - i,
    {
        let b = t[i];
        if b < 48 || b > 57 {
            assert(d[i - start] == b);
            assert(!all_digits(d));
            return None;
        }
        let ghost k = (i - start) as int;
        assert(d.take(k + 1).drop_last() =~= d.take(k));
        assert(all_digits(d.take(k + 1)));
        if acc > (u64::MAX - (b - 48) as u64) / 10 {
            proof {
                assert(d.take(k + 1).last() == b);
                assert(digits_value(d.take(k + 1)) == acc * 10 + (b - 48));
                assert(digits_value(d.take(k + 1)) > u64::MAX) by (nonlinear_arith)
                    requires
                        digits_value(d.take(k + 1)) == acc * 10 + (b - 48),
                        acc > (u64::MAX - (b - 48)) / 10,
                        48 <= b <= 57,
                ;
                if all_digits(d) {
                    lemma_digits_value_prefix(d, k + 1);
                    assert(digits_value(d) > u64::MAX);
                }
            }
            return None;
        }
        acc = acc * 10 + (b - 48) as u64;
        i += 1;
    }
    assert(d.take(i - start) =~= d);
    Some(acc)
}

/// The words of `line`.
fn split_words(line: &[u8]) -> (r: Vec<Vec<u8>>)
    ensures
        r@.len() == tokens_from(line@, 0).len(),
        forall|k: int| 0 <= k < r@.len() ==> #[trigger] r@[k]@ == tokens_from(line@, 0)[k],
{
    let mut r: Vec<Vec<u8>> = Vec::new();
    let mut i: usize = 0;
    while i < line.len()
        invariant
            i <= line@.len(),
            tokens_from(line@, 0) =~= r@.map_values(|w: Vec<u8>| w@) + tokens_from(line@, i as int),
        decreases line@.len() - i,
    {
        if line[i] == 0x20 || (0x09 <= line[i] && line[i] <= 0x0d) {
            assert(tokens_from(line@, i as int) == tokens_from(line@, i + 1));
            i += 1;
        } else {
            let mut word: Vec<u8> = Vec::new();
            let mut j: usize = i;
            proof { lemma_token_end(line@, i + 1); }
            while j < line.len() && !(line[j] == 0x20 || (0x09 <= line[j] && line[j] <= 0x0d))
                invariant
                    i <= j <= line@.len(),
                    word@ == line@.subrange(i as int, j as int),
                    forall|k: int| i <= k < j ==> !is_space(#[trigger] line@[k]),
                    i < line@.len() && !is_space(line@[i as int]),
                decreases line@.len() - j,
            {
                word.push(line[j]);
                assert(word@ =~= line@.subrange(i as int, j + 1));
                j += 1;
            }
            proof {
                lemma_token_end(line@, i as int);
                let e = token_end(line@, i + 1);
                assert(j == e) by {
                    if j < e {
                        assert(!is_space(line@[j as int]));
                    }
                    if e < j {
                        assert(!is_space(line@[e]));
                    }
                }
            }
            let ghost before = r@;
            r.push(word);
            assert(r@.map_values(|w: Vec<u8>| w@) =~= before.map_values(|w: Vec<u8>| w@).push(line@.subrange(i as int, j as int)));
            i = j;
        }
    }
    r
}

/// The bytes before the first newline.
fn first_line_of(text: &[u8]) -> (r: Vec<u8>)
    ensures
        r@ == first_line(text@),
{
    let mut r: Vec<u8> = Vec::new();
    let mut i: usize = 0;
    while i < text.len() && text[i] != 10
        invariant
            i <= text@.len(),
            r@ == text@.take(i as int),
            forall|k: int| 0 <= k < i ==> text@[k] != 10,
        decreases text@.len() - i,
    {
        r.push(text[i]);
        assert(r@ =~= text@.take(i + 1));
        i += 1;
    }
    proof {
        if i < text@.len() {
            let c = choose|c: int| 0 <= c < text@.len() && text@[c] == 10 && forall|k: int| 0 <= k < c ==> text@[k] != 10;
            assert(text@[i as int] == 10);
            assert(c == i) by {
                if c < i { assert(text@[c] != 10); }
                if c > i { assert(text@[i as int] != 10); }
            }
        } else {
            assert(text@.take(i as int) =~= text@);
        }
    }
    r
}

/// Reads the CPU counters from the text of `/proc/stat`.
pub fn parse_cpu_stat(text: &[u8]) -> (r: Option<CpuStat>)
    ensures
        match cpu_stat_of(text@) {
            Some((total, idle)) => r matches Some(c) && c.total == total && c.idle == idle,
            None => r is None,
        },
{
    let line = first_line_of(text);
    let words = split_words(line.as_slice());
    let ghost t = tokens_from(first_line(text@), 0);
    if words.len() < 8 {
        return None;
    }
    let user = match parse_u64(words[1].as_slice()) { Some(v) => v, None => return None };
    let nice = match parse_u64(words[2].as_slice()) { Some(v) => v, None => return None };
    let system = match parse_u64(words[3].as_slice()) { Some(v) => v, None => return None };
    let idle = match parse_u64(words[4].as_slice()) { Some(v) => v, None => return None };
    let iowait = match parse_u64(words[5].as_slice()) { Some(v) => v, None => return None };
    let irq = match parse_u64(words[6].as_slice()) { Some(v) => v, None => return None };
    let softirq = match parse_u64(words[7].as_slice()) { Some(v) => v, None => return None };
    assert(forall|k: int| 1 <= k < 8 ==> #[trigger] parse_u64_word(t[k]) is Some) by {
        assert(parse_u64_word(t[1]) is Some);
        assert(parse_u64_word(t[2]) is Some);
        assert(parse_u64_word(t[3]) is Some);
        assert(parse_u64_word(t[4]) is Some);
        assert(parse_u64_word(t[5]) is Some);
        assert(parse_u64_word(t[6]) is Some);
        assert(parse_u64_word(t[7]) is Some);
    }
    let sum: u128 = user as u128 + nice as u128 + system as u128 + idle as u128 + iowait as u128 + irq as u128
        + softirq as u128;
    if sum > u64::MAX as u128 {
        return None;
    }
    Some(CpuStat { total: sum as u64, idle: idle + iowait })
}

} // verus!
