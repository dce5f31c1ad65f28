//! Statistics over samples: averages, extremes, order statistics, jitter
//! and spread. A sample is a count of nanoseconds or any other `u64`.
//!
//! Every statistic of an empty sample set is zero.

use vstd::prelude::*;
use vstd::relations::sorted_by;
use vstd::relations::total_ordering;
use vstd::seq_lib::lemma_sorted_unique;

verus! {

/// The order of samples.
pub open spec fn at_most() -> spec_fn(u64, u64) -> bool {
    |a: u64, b: u64| a <= b
}

/// The samples in ascending order.
pub open spec fn ascending(s: Seq<u64>) -> Seq<u64> {
    s.sort_by(at_most())
}

/// The sum of the samples.
pub open spec fn total(s: Seq<u64>) -> int
    decreases s.len(),
{
    if s.len() == 0 {
        0
    } else {
        total(s.drop_last()) + s.last()
    }
}

/// The mean of the samples, rounded down.
pub open spec fn mean(s: Seq<u64>) -> int {
    if s.len() == 0 {
        0
    } else {
        total(s) / (s.len() as int)
    }
}

/// The least sample.
pub open spec fn smallest(s: Seq<u64>) -> int
    decreases s.len(),
{
    if s.len() == 0 {
        0
    } else if s.len() == 1 {
        s[0] as int
    } else if s.last() < smallest(s.drop_last()) {
        s.last() as int
    } else {
        smallest(s.drop_last())
    }
}

/// The greatest sample.
pub open spec fn largest(s: Seq<u64>) -> int
    decreases s.len(),
{
    if s.len() == 0 {
        0
    } else if s.last() > largest(s.drop_last()) {
        s.last() as int
    } else {
        largest(s.drop_last())
    }
}

/// The median: the middle one of the samples in ascending order, or the
/// mean of the two middle ones, rounded down.
pub open spec fn median(s: Seq<u64>) -> int {
    let t = ascending(s);
    let n = t.len() as int;
    if n == 0 {
        0
    } else if n % 2 == 0 {
        (t[n / 2 - 1] + t[n / 2]) / 2
    } else {
        t[n / 2] as int
    }
}

/// The rank of percentile `p` among `n` samples: `p / 100 * (n - 1)`,
/// rounded to the nearest rank, halves upwards, and never beyond the last.
pub open spec fn percentile_rank(n: int, p: int) -> int {
    let rank = (p * (n - 1) + 50) / 100;
    if rank > n - 1 {
        n - 1
    } else {
        rank
    }
}

/// Percentile `p` of the samples, by sort and index.
pub open spec fn percentile(s: Seq<u64>, p: int) -> int {
    if s.len() == 0 {
        0
    } else {
        ascending(s)[percentile_rank(s.len() as int, p)] as int
    }
}

/// The distance between two samples.
pub open spec fn distance(a: u64, b: u64) -> int {
    if a >= b {
        a - b
    } else {
        b - a
    }
}

/// The sum of the distances between consecutive samples.
pub open spec fn total_gap(s: Seq<u64>) -> int
    decreases s.len(),
{
    if s.len() < 2 {
        0
    } else {
        total_gap(s.drop_last()) + distance(s[s.len() - 1], s[s.len() - 2])
    }
}

/// Jitter: the mean distance between consecutive samples, rounded down.
pub open spec fn jitter(s: Seq<u64>) -> int {
    if s.len() < 2 {
        0
    } else {
        total_gap(s) / (s.len() - 1)
    }
}

/// The sum of the squares of the samples.
pub open spec fn total_squares(s: Seq<u64>) -> int
    decreases s.len(),
{
    if s.len() == 0 {
        0
    } else {
        total_squares(s.drop_last()) + s.last() * s.last()
    }
}

/// `n * n` times the variance of the `n` samples: `n` times the sum of
/// their squares, less the square of their sum.
pub open spec fn spread(s: Seq<u64>) -> int {
    s.len() * total_squares(s) - total(s) * total(s)
}

/// The integer square root: the greatest `r` with `r * r <= x`.
pub open spec fn isqrt(x: int) -> int
    decreases x,
{
    if x <= 0 {
        0
    } else {
        let r = isqrt(x - 1);
        if (r + 1) * (r + 1) <= x {
            r + 1
        } else {
            r
        }
    }
}

/// Whether the spread of the samples, taken `factor` times, can be
/// computed in 128 bits.
pub open spec fn spread_fits(s: Seq<u64>, factor: int) -> bool {
    &&& s.len() * total_squares(s) <= u128::MAX
    &&& total(s) * total(s) <= u128::MAX
    &&& factor * spread(s) <= u128::MAX
}

/// The coefficient of variation of the samples, standard deviation over
/// mean, in units of `1 / scale`, rounded down. It is undefined where the
/// mean is zero, and where it cannot be computed in 128 bits.
pub open spec fn variation(s: Seq<u64>, scale: int) -> Option<int> {
    if total(s) > 0 && spread_fits(s, scale * scale) {
        Some(isqrt(scale * scale * spread(s)) / total(s))
    } else {
        None
    }
}

/// Whether the coefficient of variation of the samples is defined, can be
/// compared in 128 bits, and is at most `num / den`.
pub open spec fn variation_at_most(s: Seq<u64>, num: int, den: int) -> bool {
    &&& total(s) > 0
    &&& spread_fits(s, den * den)
    &&& num * num * (total(s) * total(s)) <= u128::MAX
    &&& den * den * spread(s) <= num * num * (total(s) * total(s))
}

/// Whether the samples stand in ascending order.
pub open spec fn is_ascending(s: Seq<u64>) -> bool {
    forall|i: int, j: int| 0 <= i < j < s.len() ==> s[i] <= s[j]
}

/// The order of samples is a total order.
pub proof fn lemma_at_most_is_total()
    ensures
        total_ordering(at_most()),
{
    let r = at_most();
    assert(vstd::relations::reflexive(r));
    assert(vstd::relations::antisymmetric(r));
    assert(vstd::relations::transitive(r));
    assert(vstd::relations::strongly_connected(r));
}

/// The samples in ascending order are the same samples, in ascending order.
pub proof fn lemma_ascending(s: Seq<u64>)
    ensures
        ascending(s).len() == s.len(),
        ascending(s).to_multiset() == s.to_multiset(),
        is_ascending(ascending(s)),
        forall|k: int| 0 <= k < s.len() ==> s.contains(#[trigger] ascending(s)[k]),
{
    lemma_at_most_is_total();
    s.lemma_sort_by_ensures(at_most());
    let t = ascending(s);
    broadcast use vstd::seq_lib::group_to_multiset_ensures;

    assert(t.to_multiset().len() == s.to_multiset().len());
    assert forall|i: int, j: int| 0 <= i < j < t.len() implies t[i] <= t[j] by {
        assert(at_most()(t[i], t[j]));
    }
    assert forall|k: int| 0 <= k < s.len() implies s.contains(#[trigger] t[k]) by {
        assert(t.contains(t[k]));
    }
}

/// Samples in ascending order that are the samples of `s` are `ascending(s)`.
pub proof fn lemma_ascending_unique(s: Seq<u64>, t: Seq<u64>)
    requires
        is_ascending(t),
        t.to_multiset() == s.to_multiset(),
    ensures
        t == ascending(s),
{
    lemma_at_most_is_total();
    s.lemma_sort_by_ensures(at_most());
    assert(sorted_by(t, at_most())) by {
        assert forall|i: int, j: int| 0 <= i < j < t.len() implies #[trigger] at_most()(
            t[i],
            t[j],
        ) by {}
    }
    lemma_sorted_unique(t, ascending(s), at_most());
}

/// No sample is below the least or above the greatest.
pub proof fn lemma_extremes(s: Seq<u64>)
    ensures
        forall|i: int| 0 <= i < s.len() ==> smallest(s) <= #[trigger] s[i] <= largest(s),
        s.len() > 0 ==> s.contains(smallest(s) as u64) && s.contains(largest(s) as u64),
        0 <= smallest(s) <= largest(s) <= u64::MAX,
    decreases s.len(),
{
    if s.len() > 0 {
        let p = s.drop_last();
        lemma_extremes(p);
        assert forall|i: int| 0 <= i < s.len() implies smallest(s) <= #[trigger] s[i] <= largest(
            s,
        ) by {
            if i < p.len() {
                assert(p[i] == s[i]);
            }
        }
        if p.len() > 0 {
            let a = choose|i: int| 0 <= i < p.len() && p[i] == smallest(p) as u64;
            let b = choose|i: int| 0 <= i < p.len() && p[i] == largest(p) as u64;
            assert(s[a] == p[a] && s[b] == p[b]);
        }
        assert(s[s.len() - 1] == s.last());
    }
}

/// The sum of `n` samples is at most `n` times the greatest `u64`.
pub proof fn lemma_total_bound(s: Seq<u64>)
    ensures
        0 <= total(s) <= s.len() * u64::MAX,
    decreases s.len(),
{
    if s.len() > 0 {
        lemma_total_bound(s.drop_last());
    }
}

/// The sum of the gaps of `n` samples is at most `n` times the greatest `u64`.
pub proof fn lemma_total_gap_bound(s: Seq<u64>)
    ensures
        0 <= total_gap(s) <= s.len() * u64::MAX,
    decreases s.len(),
{
    if s.len() >= 2 {
        lemma_total_gap_bound(s.drop_last());
    }
}

/// Over any non-empty sample set the least sample, the median, the 95th
/// percentile, the 99th percentile and the greatest sample stand in this
/// order.
pub proof fn lemma_order_statistics(s: Seq<u64>)
    requires
        s.len() > 0,
    ensures
        smallest(s) <= median(s) <= percentile(s, 95) <= percentile(s, 99) <= largest(s),
{
    let t = ascending(s);
    let n = s.len() as int;
    lemma_ascending(s);
    lemma_extremes(s);
    let lo = if n % 2 == 0 {
        n / 2 - 1
    } else {
        n / 2
    };
    let mid = n / 2;
    let r95 = percentile_rank(n, 95);
    let r99 = percentile_rank(n, 99);
    assert(0 <= lo <= mid <= r95 <= r99 <= n - 1);
    assert(s.contains(t[lo]));
    assert(s.contains(t[r99]));
    assert(t[lo] <= t[mid] <= t[r95] <= t[r99]);
}

/// The integer square root of `x` is the one `r` with `r * r <= x < (r + 1) * (r + 1)`.
pub proof fn lemma_isqrt(x: int)
    requires
        x >= 0,
    ensures
        isqrt(x) >= 0,
        isqrt(x) * isqrt(x) <= x,
        x < (isqrt(x) + 1) * (isqrt(x) + 1),
    decreases x,
{
    if x > 0 {
        lemma_isqrt(x - 1);
        let r = isqrt(x - 1);
        assert((r + 2) * (r + 2) > (r + 1) * (r + 1) + 1) by (nonlinear_arith)
            requires
                r >= 0,
        ;
    }
}

/// Whatever `r` satisfies `r * r <= x < (r + 1) * (r + 1)` is the integer
/// square root of `x`.
pub proof fn lemma_isqrt_unique(x: int, r: int)
    requires
        r >= 0,
        r * r <= x,
        x < (r + 1) * (r + 1),
    ensures
        isqrt(x) == r,
{
    lemma_isqrt(x);
    let q = isqrt(x);
    assert(q == r) by (nonlinear_arith)
        requires
            q >= 0,
            r >= 0,
            q * q <= x,
            x < (q + 1) * (q + 1),
            r * r <= x,
            x < (r + 1) * (r + 1),
    ;
}

/// `[u64]::sort` of the standard library: afterwards the values stand in
/// ascending order, and they are the values that were there, each as often
/// as before.
#[verifier::external_body]
fn sort_in_place(samples: &mut Vec<u64>)
    ensures
        is_ascending(final(samples)@),
        final(samples)@.to_multiset() == old(samples)@.to_multiset(),
{
    samples.sort();
}

/// The samples in ascending order, as a list of their own.
pub fn sorted(samples: &[u64]) -> (out: Vec<u64>)
    ensures
        out@ == ascending(samples@),
{
    let mut out: Vec<u64> = Vec::new();
    let mut i: usize = 0;
    while i < samples.len()
        invariant
            i <= samples.len(),
            out@ == samples@.subrange(0, i as int),
        decreases samples.len() - i,
    {
        out.push(samples[i]);
        i = i + 1;
        assert(out@ =~= samples@.subrange(0, i as int));
    }
    assert(out@ =~= samples@);
    sort_in_place(&mut out);
    proof {
        lemma_ascending_unique(samples@, out@);
    }
    out
}

/// The sum of the samples.
pub fn sum(samples: &[u64]) -> (r: u128)
    ensures
        r == total(samples@),
{
    let mut acc: u128 = 0;
    let mut i: usize = 0;
    while i < samples.len()
        invariant
            i <= samples.len(),
            acc == total(samples@.subrange(0, i as int)),
            acc <= i * u64::MAX,
        decreases samples.len() - i,
    {
        proof {
            let next = samples@.subrange(0, i + 1);
            assert(next.drop_last() =~= samples@.subrange(0, i as int));
            assert(next.last() == samples@[i as int]);
        }
        acc = acc + samples[i] as u128;
        i = i + 1;
    }
    assert(samples@.subrange(0, i as int) =~= samples@);
    acc
}

/// The mean of the samples, rounded down; zero for no samples.
pub fn average(samples: &[u64]) -> (r: u64)
    ensures
        r == mean(samples@),
{
    if samples.len() == 0 {
        return 0;
    }
    let s = sum(samples);
    proof {
        lemma_total_bound(samples@);
        let n = samples@.len() as int;
        let t = total(samples@);
        assert(t / n <= u64::MAX) by (nonlinear_arith)
            requires
                n > 0,
                0 <= t <= n * u64::MAX,
        ;
    }
    (s / (samples.len() as u128)) as u64
}

/// The least sample; zero for no samples.
pub fn minimum(samples: &[u64]) -> (r: u64)
    ensures
        r == smallest(samples@),
{
    if samples.len() == 0 {
        return 0;
    }
    let mut best: u64 = samples[0];
    let mut i: usize = 1;
    assert(samples@.subrange(0, 1).drop_last() =~= Seq::<u64>::empty());
    while i < samples.len()
        invariant
            1 <= i <= samples.len(),
            best == smallest(samples@.subrange(0, i as int)),
        decreases samples.len() - i,
    {
        proof {
            let next = samples@.subrange(0, i + 1);
            assert(next.drop_last() =~= samples@.subrange(0, i as int));
            assert(next.last() == samples@[i as int]);
        }
        if samples[i] < best {
            best = samples[i];
        }
        i = i + 1;
    }
    assert(samples@.subrange(0, i as int) =~= samples@);
    best
}

/// The greatest sample; zero for no samples.
pub fn maximum(samples: &[u64]) -> (r: u64)
    ensures
        r == largest(samples@),
{
    let mut best: u64 = 0;
    let mut i: usize = 0;
    while i < samples.len()
        invariant
            i <= samples.len(),
            best == largest(samples@.subrange(0, i as int)),
        decreases samples.len() - i,
    {
        proof {
            let next = samples@.subrange(0, i + 1);
            assert(next.drop_last() =~= samples@.subrange(0, i as int));
            assert(next.last() == samples@[i as int]);
        }
        if samples[i] > best {
            best = samples[i];
        }
        i = i + 1;
    }
    assert(samples@.subrange(0, i as int) =~= samples@);
    best
}

/// The median of the samples; zero for no samples.
pub fn calculate_median(samples: &[u64]) -> (r: u64)
    ensures
        r == median(samples@),
{
    if samples.len() == 0 {
        proof {
            lemma_ascending(samples@);
        }
        return 0;
    }
    let t = sorted(samples);
    proof {
        lemma_ascending(samples@);
    }
    let mid = t.len() / 2;
    if t.len() % 2 == 0 {
        ((t[mid - 1] as u128 + t[mid] as u128) / 2) as u64
    } else {
        t[mid]
    }
}

/// Percentile `p` of the samples; zero for no samples.
pub fn calculate_percentile(samples: &[u64], p: u32) -> (r: u64)
    ensures
        r == percentile(samples@, p as int),
{
    if samples.len() == 0 {
        return 0;
    }
    let t = sorted(samples);
    proof {
        lemma_ascending(samples@);
    }
    let last = (t.len() - 1) as u128;
    assert(p * last <= u32::MAX * u64::MAX) by (nonlinear_arith)
        requires
            p <= u32::MAX,
            last <= u64::MAX,
    ;
    let rank = ((p as u128) * last + 50) / 100;
    let index = if rank > last {
        last
    } else {
        rank
    };
    t[index as usize]
}

/// The jitter of the samples, taken in the order given; zero for fewer
/// than two samples.
pub fn calculate_jitter(samples: &[u64]) -> (r: u64)
    ensures
        r == jitter(samples@),
{
    if samples.len() < 2 {
        return 0;
    }
    let mut acc: u128 = 0;
    let mut i: usize = 1;
    assert(total_gap(samples@.subrange(0, 1)) == 0);
    while i < samples.len()
        invariant
            1 <= i <= samples.len(),
            acc == total_gap(samples@.subrange(0, i as int)),
            acc <= i * u64::MAX,
        decreases samples.len() - i,
    {
        proof {
            let next = samples@.subrange(0, i + 1);
            assert(next.drop_last() =~= samples@.subrange(0, i as int));
            assert(next[i as int] == samples@[i as int]);
            assert(next[i - 1] == samples@[i - 1]);
        }
        let a = samples[i];
        let b = samples[i - 1];
        let gap = if a >= b {
            a - b
        } else {
            b - a
        };
        acc = acc + gap as u128;
        i = i + 1;
    }
    assert(samples@.subrange(0, i as int) =~= samples@);
    proof {
        let n = samples@.len() as int;
        let g = total_gap(samples@);
        lemma_total_gap_bound(samples@);
        lemma_jitter_fits(samples@);
    }
    (acc / ((samples.len() - 1) as u128)) as u64
}

/// The sum of the gaps of `n` samples is at most `n - 1` times the
/// greatest `u64`, so that their mean is a `u64`.
pub proof fn lemma_jitter_fits(s: Seq<u64>)
    requires
        s.len() >= 2,
    ensures
        0 <= total_gap(s) <= (s.len() - 1) * u64::MAX,
        0 <= jitter(s) <= u64::MAX,
    decreases s.len(),
{
    if s.len() > 2 {
        lemma_jitter_fits(s.drop_last());
    } else {
        assert(total_gap(s.drop_last()) == 0);
    }
    let n = s.len() as int;
    let g = total_gap(s);
    assert(g / (n - 1) <= u64::MAX) by (nonlinear_arith)
        requires
            n >= 2,
            0 <= g <= (n - 1) * u64::MAX,
    ;
    assert(g / (n - 1) >= 0) by (nonlinear_arith)
        requires
            n >= 2,
            0 <= g,
    ;
}

/// The integer square root of `x`.
pub fn integer_sqrt(x: u128) -> (r: u64)
    ensures
        r == isqrt(x as int),
{
    let mut lo: u128 = 0;
    let mut hi: u128 = 0x1_0000_0000_0000_0000;
    while hi - lo > 1
        invariant
            lo < hi <= 0x1_0000_0000_0000_0000,
            lo * lo <= x,
            x < hi * hi,
        decreases hi - lo,
    {
        let mid = lo + (hi - lo) / 2;
        assert(mid * mid <= u128::MAX) by (nonlinear_arith)
            requires
                mid < 0x1_0000_0000_0000_0000,
        ;
        if mid * mid <= x {
            lo = mid;
        } else {
            hi = mid;
        }
    }
    proof {
        lemma_isqrt_unique(x as int, lo as int);
    }
    lo as u64
}

/// The sum of the squared distances of the samples from `x`.
pub open spec fn total_deviation(s: Seq<u64>, x: int) -> int
    decreases s.len(),
{
    if s.len() == 0 {
        0
    } else {
        total_deviation(s.drop_last(), x) + (s.last() - x) * (s.last() - x)
    }
}

/// The squared distances from `x` sum to the sum of the squares, less
/// `2 * x` times the sum, plus `x * x` for each sample; and to no less
/// than zero.
pub proof fn lemma_total_deviation(s: Seq<u64>, x: int)
    ensures
        total_deviation(s, x) == total_squares(s) - 2 * x * total(s) + s.len() * (x * x),
        total_deviation(s, x) >= 0,
    decreases s.len(),
{
    if s.len() > 0 {
        let p = s.drop_last();
        let y = s.last() as int;
        lemma_total_deviation(p, x);
        let q = total_squares(p);
        let t = total(p);
        let n = p.len() as int;
        assert((y - x) * (y - x) >= 0) by (nonlinear_arith);
        assert(q - 2 * x * t + n * (x * x) + (y - x) * (y - x) == (q + y * y) - 2 * x * (t + y) + (
        n + 1) * (x * x)) by (nonlinear_arith);
    }
}

/// The spread of any samples is at least zero.
pub proof fn lemma_spread_nonnegative(s: Seq<u64>)
    ensures
        spread(s) >= 0,
        total_squares(s) >= 0,
    decreases s.len(),
{
    if s.len() > 0 {
        let p = s.drop_last();
        let x = s.last() as int;
        lemma_spread_nonnegative(p);
        lemma_total_deviation(p, x);
        let q = total_squares(p);
        let t = total(p);
        let n = p.len() as int;
        assert(x * x >= 0) by (nonlinear_arith);
        assert((n + 1) * (q + x * x) - (t + x) * (t + x) == (n * q - t * t) + (q - 2 * x * t + n
            * (x * x))) by (nonlinear_arith);
    }
}

/// The squares of a prefix sum to no more than the squares of the whole.
pub proof fn lemma_total_squares_prefix(s: Seq<u64>, k: int)
    requires
        0 <= k <= s.len(),
    ensures
        0 <= total_squares(s.subrange(0, k)) <= total_squares(s),
    decreases s.len() - k,
{
    lemma_spread_nonnegative(s.subrange(0, k));
    if k < s.len() {
        lemma_total_squares_prefix(s, k + 1);
        let next = s.subrange(0, k + 1);
        assert(next.drop_last() =~= s.subrange(0, k));
        assert(next.last() * next.last() >= 0) by (nonlinear_arith);
    } else {
        assert(s.subrange(0, k) =~= s);
    }
}

/// The sum of the squares of the samples, where it fits in 128 bits.
fn sum_squares(samples: &[u64]) -> (r: Option<u128>)
    ensures
        match r {
            Some(v) => v == total_squares(samples@),
            None => total_squares(samples@) > u128::MAX,
        },
{
    let mut acc: u128 = 0;
    let mut i: usize = 0;
    while i < samples.len()
        invariant
            i <= samples.len(),
            acc == total_squares(samples@.subrange(0, i as int)),
        decreases samples.len() - i,
    {
        let x = samples[i] as u128;
        assert(x * x <= u128::MAX) by (nonlinear_arith)
            requires
                x <= u64::MAX,
        ;
        proof {
            let next = samples@.subrange(0, i + 1);
            assert(next.drop_last() =~= samples@.subrange(0, i as int));
            assert(next.last() == samples@[i as int]);
        }
        match acc.checked_add(x * x) {
            Some(v) => {
                acc = v;
            },
            None => {
                proof {
                    lemma_total_squares_prefix(samples@, i + 1);
                }
                return None;
            },
        }
        i = i + 1;
    }
    assert(samples@.subrange(0, i as int) =~= samples@);
    Some(acc)
}

/// The spread of the samples, taken `factor` times, where it can be
/// computed in 128 bits.
fn scaled_spread(samples: &[u64], factor: u64) -> (r: Option<u128>)
    requires
        samples@.len() > 0,
    ensures
        match r {
            Some(v) => spread_fits(samples@, factor as int) && v == factor * spread(samples@),
            None => !spread_fits(samples@, factor as int),
        },
{
    proof {
        lemma_spread_nonnegative(samples@);
    }
    let n = samples.len() as u128;
    let t = sum(samples);
    let ghost q_int = total_squares(samples@);
    let q = match sum_squares(samples) {
        Some(q) => q,
        None => {
            assert(n * q_int > u128::MAX) by (nonlinear_arith)
                requires
                    n >= 1,
                    q_int > u128::MAX,
            ;
            return None;
        },
    };
    let nq = match n.checked_mul(q) {
        Some(v) => v,
        None => {
            return None;
        },
    };
    let tt = match t.checked_mul(t) {
        Some(v) => v,
        None => {
            return None;
        },
    };
    let spread = nq - tt;
    (factor as u128).checked_mul(spread)
}

/// The coefficient of variation of the samples in units of `1 / scale`,
/// rounded down, where it is defined.
pub fn coefficient_of_variation(samples: &[u64], scale: u32) -> (r: Option<u64>)
    ensures
        match r {
            Some(v) => variation(samples@, scale as int) == Some(v as int),
            None => variation(samples@, scale as int) is None,
        },
{
    let t = sum(samples);
    if t == 0 {
        return None;
    }
    assert(samples@.len() > 0);
    assert(scale * scale <= u64::MAX) by (nonlinear_arith)
        requires
            scale <= u32::MAX,
    ;
    let factor = (scale as u64) * (scale as u64);
    match scaled_spread(samples, factor) {
        None => None,
        Some(v) => {
            let root = integer_sqrt(v);
            let ghost root_int = root as int;
            let ghost t_int = t as int;
            assert(root_int / t_int <= u64::MAX) by (nonlinear_arith)
                requires
                    0 <= root_int <= u64::MAX,
                    t_int >= 1,
            ;
            Some((root as u128 / t) as u64)
        },
    }
}

/// Whether the coefficient of variation of the samples is defined, can be
/// compared in 128 bits, and is at most `num / den`.
pub fn variation_within(samples: &[u64], num: u32, den: u32) -> (r: bool)
    ensures
        r == variation_at_most(samples@, num as int, den as int),
{
    let t = sum(samples);
    if t == 0 {
        return false;
    }
    assert(samples@.len() > 0);
    assert(den * den <= u64::MAX && num * num <= u64::MAX) by (nonlinear_arith)
        requires
            den <= u32::MAX,
            num <= u32::MAX,
    ;
    let lhs = match scaled_spread(samples, (den as u64) * (den as u64)) {
        Some(v) => v,
        None => {
            return false;
        },
    };
    let tt = match t.checked_mul(t) {
        Some(v) => v,
        None => {
            return false;
        },
    };
    match (((num as u64) * (num as u64)) as u128).checked_mul(tt) {
        Some(rhs) => lhs <= rhs,
        None => false,
    }
}

/// Parts per million: the scale of every rate.
pub const PPM: u32 = 1_000_000;

/// The share of `part` in `whole` in units of `1 / scale`, rounded down;
/// zero where `whole` is zero.
pub open spec fn share(part: int, whole: int, scale: int) -> int {
    if whole <= 0 {
        0
    } else {
        part * scale / whole
    }
}

/// The share of `part` in `whole` in units of `1 / scale`.
pub fn share_of(part: u64, whole: u64, scale: u32) -> (r: u64)
    requires
        part <= whole,
    ensures
        r == share(part as int, whole as int, scale as int),
        r <= scale,
{
    if whole == 0 {
        return 0;
    }
    assert(part * scale <= u64::MAX * u32::MAX) by (nonlinear_arith)
        requires
            part <= u64::MAX,
            scale <= u32::MAX,
    ;
    let scaled = (part as u128) * (scale as u128);
    assert(scaled / (whole as u128) <= scale) by (nonlinear_arith)
        requires
            scaled == part * scale,
            part <= whole,
            whole > 0,
    ;
    (scaled / (whole as u128)) as u64
}

/// Every statistic of an empty sample set is zero, and none of them
/// divides by the number of samples.
pub proof fn lemma_empty_statistics(s: Seq<u64>)
    requires
        s.len() == 0,
    ensures
        total(s) == 0,
        mean(s) == 0,
        smallest(s) == 0,
        largest(s) == 0,
        median(s) == 0,
        forall|p: int| percentile(s, p) == 0,
        jitter(s) == 0,
        forall|scale: int| variation(s, scale) is None,
{
    lemma_ascending(s);
}

/// The jitter of a single sample is zero.
pub proof fn lemma_single_sample_jitter(s: Seq<u64>)
    requires
        s.len() == 1,
    ensures
        jitter(s) == 0,
{
}

} // verus!
