//! Latency statistics over a run's frame durations.
//!
//! Durations are microseconds. The aggregator reduces an ordered sequence of
//! per-frame durations to: mean (floored to a microsecond), minimum, maximum,
//! the 50th/95th/99th percentiles read at index `floor(len * q)` of the
//! ascending-sorted sequence — deliberately unclamped, so comparison runs
//! keep the same index arithmetic — the population standard deviation about the
//! integer mean, the share of frames within the 60 fps and 30 fps budgets
//! (in hundredths of a percent), and the jank score: each frame over the
//! 30 fps budget adds the length of the running streak of over-budget
//! frames, so a streak of `k` frames contributes `1 + 2 + ... + k`.

use vstd::prelude::*;
use vstd::relations::sorted_by;
use vstd::seq_lib::lemma_sorted_unique;

verus! {

/// The 60 fps frame budget (16.67 ms) in microseconds.
pub const BUDGET_60FPS_US: u64 = 16_670;

/// The 30 fps frame budget (33.33 ms) in microseconds; also the jank
/// threshold.
pub const BUDGET_30FPS_US: u64 = 33_330;

/// Largest duration the aggregator accepts, about 71 minutes per frame.
pub const MAX_DURATION_US: u64 = 0xFFFF_FFFF;

/// Largest run length the aggregator accepts.
pub const MAX_FRAMES: usize = 65_535;

/// The ascending order the percentiles are read against.
pub open spec fn dur_leq(a: u64, b: u64) -> bool {
    a <= b
}

/// The durations in ascending order.
pub open spec fn spec_sorted(s: Seq<u64>) -> Seq<u64> {
    s.sort_by(|a: u64, b: u64| dur_leq(a, b))
}

/// Sum of a duration sequence.
pub open spec fn spec_sum(s: Seq<u64>) -> int
    decreases s.len(),
{
    if s.len() == 0 {
        0
    } else {
        spec_sum(s.drop_last()) + s.last()
    }
}

/// Smallest duration; zero for an empty sequence.
pub open spec fn spec_min(s: Seq<u64>) -> u64
    decreases s.len(),
{
    if s.len() == 0 {
        0u64
    } else if s.len() == 1 {
        s.last()
    } else {
        let m = spec_min(s.drop_last());
        if s.last() < m {
            s.last()
        } else {
            m
        }
    }
}

/// Largest duration; zero for an empty sequence.
pub open spec fn spec_max(s: Seq<u64>) -> u64
    decreases s.len(),
{
    if s.len() == 0 {
        0u64
    } else {
        let m = spec_max(s.drop_last());
        if s.last() > m {
            s.last()
        } else {
            m
        }
    }
}

/// How many durations stay within `budget`.
pub open spec fn spec_count_le(s: Seq<u64>, budget: u64) -> int
    decreases s.len(),
{
    if s.len() == 0 {
        0
    } else {
        spec_count_le(s.drop_last(), budget) + if s.last() <= budget {
            1int
        } else {
            0int
        }
    }
}

/// Jank accumulator over the first `i` frames: the score so far and the
/// length of the running streak of frames over `budget`.
pub open spec fn spec_jank_state(s: Seq<u64>, budget: u64, i: int) -> (int, int)
    decreases i,
{
    if i <= 0 {
        (0, 0)
    } else {
        let (score, streak) = spec_jank_state(s, budget, i - 1);
        if s[i - 1] > budget {
            (score + streak + 1, streak + 1)
        } else {
            (score, 0)
        }
    }
}

/// The jank score of a whole run: a streak of `k` consecutive frames over
/// `budget` contributes `1 + 2 + ... + k`.
pub open spec fn spec_jank(s: Seq<u64>, budget: u64) -> int {
    spec_jank_state(s, budget, s.len() as int).0
}


/// Law: the smallest duration of a run never exceeds the largest.
pub proof fn lemma_min_le_max(s: Seq<u64>)
    requires
        s.len() >= 1,
    ensures
        spec_min(s) <= spec_max(s),
    decreases s.len(),
{
    if s.len() > 1 {
        lemma_min_le_max(s.drop_last());
    }
}

/// Sum of squared deviations from `mean`.
pub open spec fn spec_sqdev(s: Seq<u64>, mean: int) -> int
    decreases s.len(),
{
    if s.len() == 0 {
        0
    } else {
        spec_sqdev(s.drop_last(), mean) + (s.last() - mean) * (s.last() - mean)
    }
}

/// The summary metrics of one run. Times are microseconds; the budget shares
/// are hundredths of a percent.
#[derive(Clone, Copy)]
pub struct Metrics {
    pub mean_us: u64,
    pub min_us: u64,
    pub max_us: u64,
    pub p50_us: u64,
    pub p95_us: u64,
    pub p99_us: u64,
    pub std_dev_us: u64,
    pub percent60_cpct: u64,
    pub percent30_cpct: u64,
    pub jank_score: u32,
}

/// The index a percentile is read at: `floor(len * pct / 100)`, not clamped.
/// For any `pct` under 100 it stays inside a non-empty array.
pub fn percentile_index(len: usize, pct: usize) -> (idx: usize)
    requires
        len <= MAX_FRAMES,
        pct <= 100,
    ensures
        idx == len as int * pct as int / 100,
        pct < 100 && len > 0 ==> idx < len,
{
    proof {
        vstd::arithmetic::div_mod::lemma_fundamental_div_mod(len as int * pct as int, 100);
        vstd::arithmetic::div_mod::lemma_mod_bound(len as int * pct as int, 100);
        if pct < 100 && len > 0 {
            assert(len as int * pct as int <= len as int * 99) by (nonlinear_arith)
                requires
                    pct as int <= 99,
                    len as int >= 0,
            ;
            assert((len as int * 99) < (100 * len as int)) by (nonlinear_arith)
                requires
                    len as int > 0,
            ;
        }
    }
    len * pct / 100
}

/// Sort the durations ascending (insertion sort): the result is ordered and
/// holds exactly the same durations.
pub fn sort_durations(v: &mut Vec<u64>)
    ensures
        sorted_by(final(v)@, |a: u64, b: u64| dur_leq(a, b)),
        final(v)@.to_multiset() == old(v)@.to_multiset(),
        final(v)@.len() == old(v)@.len(),
{
    broadcast use vstd::seq_lib::to_multiset_update;
    broadcast use vstd::seq_lib::group_to_multiset_ensures;
    broadcast use vstd::multiset::group_multiset_axioms;

    let n = v.len();
    if n <= 1 {
        return ;
    }
    let mut i: usize = 1;
    while i < n
        invariant
            1 <= i <= n,
            n == v@.len(),
            forall|a: int, b: int| 0 <= a < b < i as int ==> (#[trigger] v@[a]) <= (#[trigger] v@[b]),
            v@.to_multiset() == old(v)@.to_multiset(),
        decreases n - i,
    {
        broadcast use vstd::seq_lib::to_multiset_update;
        broadcast use vstd::seq_lib::group_to_multiset_ensures;
        broadcast use vstd::multiset::group_multiset_axioms;

        let mut j: usize = i;
        while j > 0 && v[j - 1] > v[j]
            invariant
                0 <= j <= i < n,
                n == v@.len(),
                v@.to_multiset() == old(v)@.to_multiset(),
                forall|a: int, b: int|
                    0 <= a < b <= i as int && b != j as int ==> (#[trigger] v@[a]) <= (#[trigger] v@[b]),
            decreases j,
        {
            broadcast use vstd::seq_lib::to_multiset_update;
            broadcast use vstd::seq_lib::group_to_multiset_ensures;
            broadcast use vstd::multiset::group_multiset_axioms;

            let lo = v[j - 1];
            let hi = v[j];
            let ghost before = v@;
            v[j - 1] = hi;
            v[j] = lo;
            proof {
                assert(before.contains(lo));
                assert(before.to_multiset().contains(lo));
                assert(v@ == before.update(j as int - 1, hi).update(j as int, lo));
                assert(v@.to_multiset() =~= before.to_multiset());
            }
            j -= 1;
        }
        proof {
            assert forall|a: int, b: int| 0 <= a < b <= i as int implies v@[a] <= v@[b] by {
                if b == j as int && j > 0 {
                    assert(v@[j - 1] <= v@[b]);
                    if a < j - 1 {
                        assert(v@[a] <= v@[j - 1]);
                    }
                }
            }
        }
        i += 1;
    }
    proof {
        assert forall|a: int, b: int|
            0 <= a < b < v@.len() implies dur_leq(v@[a], v@[b]) by {}
        assert(sorted_by(v@, |a: u64, b: u64| dur_leq(a, b)));
    }
}

/// Floor of the square root: the unique `r` with `r^2 <= x < (r+1)^2`.
pub fn isqrt(x: u128) -> (r: u64)
    requires
        x < 0x1_0000_0000_0000_0000_0000,
    ensures
        r as int * r as int <= x as int,
        (x as int) < ((r as int + 1) * (r as int + 1)),
{
    let mut lo: u64 = 0;
    let mut hi: u64 = 0x200_0000_0000;
    proof {
        assert((hi as int * hi as int) > x as int) by (nonlinear_arith)
            requires
                hi as int == 0x200_0000_0000,
                x < 0x1_0000_0000_0000_0000_0000,
        ;
    }
    while hi - lo > 1
        invariant
            lo < hi,
            lo as int * lo as int <= x as int,
            (x as int) < (hi as int * hi as int),
            hi <= 0x200_0000_0000,
        decreases hi - lo,
    {
        let mid = lo + (hi - lo) / 2;
        proof {
            assert((mid as int * mid as int) <= 0x200_0000_0000 * 0x200_0000_0000)
                by (nonlinear_arith)
                requires
                    0 <= mid as int <= 0x200_0000_0000,
            ;
        }
        if (mid as u128) * (mid as u128) <= x {
            lo = mid;
        } else {
            hi = mid;
        }
    }
    lo
}

/// What the summary of a run states, field by field: the mean is the floored
/// average, the percentiles are read from the sorted sequence at
/// `floor(len * q)`, the budget shares count frames within 16.67 ms and
/// 33.33 ms in hundredths of a percent, the standard deviation is the floored
/// root of the population variance about the integer mean, and the jank score
/// penalises streaks of over-budget frames super-linearly.
pub open spec fn metrics_match(d: Seq<u64>, m: Metrics) -> bool {
    &&& m.mean_us == spec_sum(d) / d.len() as int
    &&& m.min_us == spec_min(d)
    &&& m.max_us == spec_max(d)
    &&& m.p50_us == spec_sorted(d)[d.len() as int * 50 / 100]
    &&& m.p95_us == spec_sorted(d)[d.len() as int * 95 / 100]
    &&& m.p99_us == spec_sorted(d)[d.len() as int * 99 / 100]
    &&& m.std_dev_us as int * m.std_dev_us as int <= spec_sqdev(
        d,
        spec_sum(d) / d.len() as int,
    ) / d.len() as int
    &&& (spec_sqdev(d, spec_sum(d) / d.len() as int) / d.len() as int) < ((m.std_dev_us as int
        + 1) * (m.std_dev_us as int + 1))
    &&& m.percent60_cpct == spec_count_le(d, BUDGET_60FPS_US) * 10000 / d.len() as int
    &&& m.percent30_cpct == spec_count_le(d, BUDGET_30FPS_US) * 10000 / d.len() as int
    &&& m.jank_score == spec_jank(d, BUDGET_30FPS_US)
}

/// Field bounds every aggregated summary satisfies; the averaging across
/// repetitions leans on them to stay within machine integers.
pub open spec fn metrics_bounded(m: Metrics) -> bool {
    &&& m.mean_us <= MAX_DURATION_US
    &&& m.min_us <= MAX_DURATION_US
    &&& m.max_us <= MAX_DURATION_US
    &&& m.p50_us <= MAX_DURATION_US
    &&& m.p95_us <= MAX_DURATION_US
    &&& m.p99_us <= MAX_DURATION_US
    &&& m.std_dev_us <= MAX_DURATION_US
    &&& m.percent60_cpct <= 10000
    &&& m.percent30_cpct <= 10000
}

/// Reduce one run's frame durations to its summary metrics; every field is
/// pinned by the input, as `metrics_match` states.
pub fn aggregate(durations: &Vec<u64>) -> (m: Metrics)
    requires
        1 <= durations@.len() <= MAX_FRAMES,
        forall|i: int| 0 <= i < durations@.len() ==> #[trigger] durations@[i] <= MAX_DURATION_US,
    ensures
        metrics_match(durations@, m),
        metrics_bounded(m),
{
    let n = durations.len();
    let ghost ds = durations@;

    let mut sum: u64 = 0;
    let mut min: u64 = durations[0];
    let mut max: u64 = 0;
    let mut count60: u64 = 0;
    let mut count30: u64 = 0;
    let mut jank: u32 = 0;
    let mut streak: u32 = 0;
    let mut i: usize = 0;
    while i < n
        invariant
            i <= n,
            n == ds.len(),
            1 <= n <= MAX_FRAMES,
            durations@ == ds,
            forall|k: int| 0 <= k < ds.len() ==> #[trigger] ds[k] <= MAX_DURATION_US,
            sum == spec_sum(ds.take(i as int)),
            sum <= i as int * MAX_DURATION_US,
            min == if i == 0 {
                ds[0]
            } else {
                spec_min(ds.take(i as int))
            },
            min <= MAX_DURATION_US,
            max <= MAX_DURATION_US,
            max == spec_max(ds.take(i as int)),
            count60 == spec_count_le(ds.take(i as int), BUDGET_60FPS_US),
            count30 == spec_count_le(ds.take(i as int), BUDGET_30FPS_US),
            count60 <= i,
            count30 <= i,
            (jank as int, streak as int) == spec_jank_state(ds, BUDGET_30FPS_US, i as int),
            streak <= i,
            2 * jank as int <= i as int * (i as int + 1),
        decreases n - i,
    {
        proof {
            assert(ds.take(i as int + 1).drop_last() =~= ds.take(i as int));
            assert(i as int * MAX_DURATION_US + MAX_DURATION_US == (i as int + 1)
                * MAX_DURATION_US) by (nonlinear_arith);
        }
        let d = durations[i];
        sum = sum + d;
        if i == 0 || d < min {
            min = d;
        }
        if d > max {
            max = d;
        }
        if d <= BUDGET_60FPS_US {
            count60 = count60 + 1;
        }
        if d <= BUDGET_30FPS_US {
            count30 = count30 + 1;
        }
        if d > BUDGET_30FPS_US {
            proof {
                assert(2 * (jank as int + streak as int + 1) <= (i as int + 1) * (i as int
                    + 2)) by (nonlinear_arith)
                    requires
                        2 * jank as int <= i as int * (i as int + 1),
                        streak as int <= i as int,
                        0 <= i as int,
                ;
                assert((i as int + 1) * (i as int + 2) <= 65535 * 65536) by (nonlinear_arith)
                    requires
                        0 <= i as int <= 65534,
                ;
            }
            streak = streak + 1;
            jank = jank + streak;
        } else {
            streak = 0;
            proof {
                assert(i as int * (i as int + 1) <= (i as int + 1) * (i as int
                    + 2)) by (nonlinear_arith)
                    requires
                        0 <= i as int,
                ;
            }
        }
        i += 1;
    }
    proof {
        assert(ds.take(n as int) =~= ds);
    }

    let mean = sum / (n as u64);
    proof {
        vstd::arithmetic::div_mod::lemma_div_is_ordered(
            spec_sum(ds),
            ds.len() as int * MAX_DURATION_US,
            ds.len() as int,
        );
        vstd::arithmetic::mul::lemma_mul_is_commutative(ds.len() as int, MAX_DURATION_US as int);
        vstd::arithmetic::div_mod::lemma_div_by_multiple(MAX_DURATION_US as int, ds.len() as int);
        vstd::arithmetic::div_mod::lemma_div_pos_is_pos(spec_sum(ds), ds.len() as int);
    }

    let mut sqdev: u128 = 0;
    let mut i: usize = 0;
    while i < n
        invariant
            i <= n,
            n == ds.len(),
            1 <= n <= MAX_FRAMES,
            durations@ == ds,
            forall|k: int| 0 <= k < ds.len() ==> #[trigger] ds[k] <= MAX_DURATION_US,
            mean <= MAX_DURATION_US,
            sqdev == spec_sqdev(ds.take(i as int), mean as int),
            sqdev <= i as int * (MAX_DURATION_US as int * MAX_DURATION_US as int),
        decreases n - i,
    {
        proof {
            assert(ds.take(i as int + 1).drop_last() =~= ds.take(i as int));
        }
        let d = durations[i];
        let dev: u64 = if d >= mean {
            d - mean
        } else {
            mean - d
        };
        proof {
            assert((dev as int * dev as int) <= MAX_DURATION_US as int * MAX_DURATION_US as int)
                by (nonlinear_arith)
                requires
                    0 <= dev as int <= MAX_DURATION_US as int,
            ;
        }
        let sq: u128 = (dev as u128) * (dev as u128);
        proof {
            assert(sq as int == (d as int - mean as int) * (d as int - mean
                as int)) by (nonlinear_arith)
                requires
                    sq as int == dev as int * dev as int,
                    dev as int == if d as int >= mean as int {
                        d as int - mean as int
                    } else {
                        mean as int - d as int
                    },
            ;
            assert(sq as int <= MAX_DURATION_US as int * MAX_DURATION_US
                as int) by (nonlinear_arith)
                requires
                    sq as int == dev as int * dev as int,
                    0 <= dev as int <= MAX_DURATION_US as int,
            ;
            assert(i as int * (MAX_DURATION_US as int * MAX_DURATION_US as int) + (MAX_DURATION_US
                as int * MAX_DURATION_US as int) == (i as int + 1) * (MAX_DURATION_US as int
                * MAX_DURATION_US as int)) by (nonlinear_arith);
        }
        sqdev = sqdev + sq;
        i += 1;
    }
    proof {
        assert(ds.take(n as int) =~= ds);
        vstd::arithmetic::div_mod::lemma_div_is_ordered(
            spec_sqdev(ds, mean as int),
            ds.len() as int * (MAX_DURATION_US as int * MAX_DURATION_US as int),
            ds.len() as int,
        );
        vstd::arithmetic::mul::lemma_mul_is_commutative(
            ds.len() as int,
            MAX_DURATION_US as int * MAX_DURATION_US as int,
        );
        vstd::arithmetic::div_mod::lemma_div_by_multiple(
            MAX_DURATION_US as int * MAX_DURATION_US as int,
            ds.len() as int,
        );
        vstd::arithmetic::div_mod::lemma_div_pos_is_pos(
            spec_sqdev(ds, mean as int),
            ds.len() as int,
        );
    }
    let variance = sqdev / (n as u128);
    let std_dev = isqrt(variance);

    let mut sorted = durations.clone();
    sort_durations(&mut sorted);
    proof {
        vstd::seq_lib::lemma_multiset_commutative(ds, ds);
        ds.lemma_sort_by_ensures(|a: u64, b: u64| dur_leq(a, b));
        broadcast use vstd::seq_lib::group_to_multiset_ensures;

        assert(vstd::relations::total_ordering(|a: u64, b: u64| dur_leq(a, b)));
        lemma_sorted_unique(sorted@, spec_sorted(ds), |a: u64, b: u64| dur_leq(a, b));
        assert(sorted@ =~= spec_sorted(ds));
    }
    let i50 = percentile_index(n, 50);
    let i95 = percentile_index(n, 95);
    let i99 = percentile_index(n, 99);
    proof {
        broadcast use vstd::seq_lib::group_to_multiset_ensures;
        broadcast use vstd::multiset::group_multiset_axioms;

        assert forall|k: int| 0 <= k < sorted@.len() implies sorted@[k] <= MAX_DURATION_US by {
            assert(sorted@.contains(sorted@[k]));
            assert(ds.contains(sorted@[k])) by {
                if !ds.contains(sorted@[k]) {
                    assert(!spec_sorted(ds).contains(sorted@[k]));
                }
            }
        }
        assert(std_dev <= MAX_DURATION_US) by (nonlinear_arith)
            requires
                std_dev as int * std_dev as int <= MAX_DURATION_US as int * MAX_DURATION_US as int,
        ;
        vstd::arithmetic::mul::lemma_mul_inequality(
            spec_count_le(ds, BUDGET_60FPS_US),
            ds.len() as int,
            10000,
        );
        vstd::arithmetic::mul::lemma_mul_inequality(
            spec_count_le(ds, BUDGET_30FPS_US),
            ds.len() as int,
            10000,
        );
        vstd::arithmetic::div_mod::lemma_div_is_ordered(
            spec_count_le(ds, BUDGET_60FPS_US) * 10000,
            ds.len() as int * 10000,
            ds.len() as int,
        );
        vstd::arithmetic::div_mod::lemma_div_is_ordered(
            spec_count_le(ds, BUDGET_30FPS_US) * 10000,
            ds.len() as int * 10000,
            ds.len() as int,
        );
        vstd::arithmetic::mul::lemma_mul_is_commutative(ds.len() as int, 10000);
        vstd::arithmetic::div_mod::lemma_div_by_multiple(10000, ds.len() as int);
        vstd::arithmetic::div_mod::lemma_div_pos_is_pos(
            spec_count_le(ds, BUDGET_60FPS_US) * 10000,
            ds.len() as int,
        );
        vstd::arithmetic::div_mod::lemma_div_pos_is_pos(
            spec_count_le(ds, BUDGET_30FPS_US) * 10000,
            ds.len() as int,
        );
    }

    Metrics {
        mean_us: mean,
        min_us: min,
        max_us: max,
        p50_us: sorted[i50],
        p95_us: sorted[i95],
        p99_us: sorted[i99],
        std_dev_us: std_dev,
        percent60_cpct: (count60 * 10000) / (n as u64),
        percent30_cpct: (count30 * 10000) / (n as u64),
        jank_score: jank,
    }
}

} // verus!
