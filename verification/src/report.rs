//! Averaging one entity count's repeated runs into a report row.
//!
//! Each metric is averaged arithmetically across the repetitions (integer
//! division, flooring), except the maximum, which takes the true maximum
//! across repetitions.

use crate::sim::run_benchmark;
use crate::stats::{MAX_DURATION_US, Metrics, metrics_bounded};
use vstd::prelude::*;

verus! {

/// How often one entity count is rerun before averaging.
pub const REPETITIONS: u32 = 5;

/// Sum of one metric field over a prefix of runs.
pub open spec fn spec_field_sum(s: Seq<Metrics>, f: spec_fn(Metrics) -> int) -> int
    decreases s.len(),
{
    if s.len() == 0 {
        0
    } else {
        spec_field_sum(s.drop_last(), f) + f(s.last())
    }
}

/// Largest value of one metric field over the runs; zero when there are none.
pub open spec fn spec_field_max(s: Seq<Metrics>, f: spec_fn(Metrics) -> int) -> int
    decreases s.len(),
{
    if s.len() == 0 {
        0
    } else {
        let m = spec_field_max(s.drop_last(), f);
        if f(s.last()) > m {
            f(s.last())
        } else {
            m
        }
    }
}

/// The averaged row one entity count reports: every field is the floored
/// arithmetic mean of that field across the runs, except `max_us`, which is
/// the true maximum.
pub open spec fn spec_average(s: Seq<Metrics>, m: Metrics) -> bool {
    let n = s.len() as int;
    &&& m.mean_us == spec_field_sum(s, |r: Metrics| r.mean_us as int) / n
    &&& m.min_us == spec_field_sum(s, |r: Metrics| r.min_us as int) / n
    &&& m.max_us == spec_field_max(s, |r: Metrics| r.max_us as int)
    &&& m.p50_us == spec_field_sum(s, |r: Metrics| r.p50_us as int) / n
    &&& m.p95_us == spec_field_sum(s, |r: Metrics| r.p95_us as int) / n
    &&& m.p99_us == spec_field_sum(s, |r: Metrics| r.p99_us as int) / n
    &&& m.std_dev_us == spec_field_sum(s, |r: Metrics| r.std_dev_us as int) / n
    &&& m.percent60_cpct == spec_field_sum(s, |r: Metrics| r.percent60_cpct as int) / n
    &&& m.percent30_cpct == spec_field_sum(s, |r: Metrics| r.percent30_cpct as int) / n
    &&& m.jank_score == spec_field_sum(s, |r: Metrics| r.jank_score as int) / n
}

/// Average the runs of one entity count into its report row.
pub fn average_runs(runs: &Vec<Metrics>) -> (m: Metrics)
    requires
        1 <= runs@.len() <= 1000,
        forall|i: int| 0 <= i < runs@.len() ==> metrics_bounded(#[trigger] runs@[i]),
    ensures
        spec_average(runs@, m),
        metrics_bounded(m),
{
    let n = runs.len();
    let mut sum_mean: u64 = 0;
    let mut sum_min: u64 = 0;
    let mut max_max: u64 = 0;
    let mut sum_p50: u64 = 0;
    let mut sum_p95: u64 = 0;
    let mut sum_p99: u64 = 0;
    let mut sum_std: u64 = 0;
    let mut sum_p60: u64 = 0;
    let mut sum_p30: u64 = 0;
    let mut sum_jank: u64 = 0;
    let mut i: usize = 0;
    while i < n
        invariant
            i <= n,
            n == runs@.len(),
            1 <= n <= 1000,
            forall|k: int| 0 <= k < runs@.len() ==> metrics_bounded(#[trigger] runs@[k]),
            sum_mean == spec_field_sum(runs@.take(i as int), |r: Metrics| r.mean_us as int),
            sum_min == spec_field_sum(runs@.take(i as int), |r: Metrics| r.min_us as int),
            max_max == spec_field_max(runs@.take(i as int), |r: Metrics| r.max_us as int),
            sum_p50 == spec_field_sum(runs@.take(i as int), |r: Metrics| r.p50_us as int),
            sum_p95 == spec_field_sum(runs@.take(i as int), |r: Metrics| r.p95_us as int),
            sum_p99 == spec_field_sum(runs@.take(i as int), |r: Metrics| r.p99_us as int),
            sum_std == spec_field_sum(runs@.take(i as int), |r: Metrics| r.std_dev_us as int),
            sum_p60 == spec_field_sum(runs@.take(i as int), |r: Metrics| r.percent60_cpct as int),
            sum_p30 == spec_field_sum(runs@.take(i as int), |r: Metrics| r.percent30_cpct as int),
            sum_jank == spec_field_sum(runs@.take(i as int), |r: Metrics| r.jank_score as int),
            sum_mean <= i as int * MAX_DURATION_US,
            sum_min <= i as int * MAX_DURATION_US,
            max_max <= MAX_DURATION_US,
            sum_p50 <= i as int * MAX_DURATION_US,
            sum_p95 <= i as int * MAX_DURATION_US,
            sum_p99 <= i as int * MAX_DURATION_US,
            sum_std <= i as int * MAX_DURATION_US,
            sum_p60 <= i as int * 10000,
            sum_p30 <= i as int * 10000,
            sum_jank <= i as int * (u32::MAX as int),
        decreases n - i,
    {
        proof {
            assert(runs@.take(i as int + 1).drop_last() =~= runs@.take(i as int));
            assert(metrics_bounded(runs@[i as int]));
            assert((i as int + 1) * MAX_DURATION_US == i as int * MAX_DURATION_US
                + MAX_DURATION_US) by (nonlinear_arith);
            assert((i as int + 1) * 10000 == i as int * 10000 + 10000) by (nonlinear_arith);
            assert((i as int + 1) * (u32::MAX as int) == i as int * (u32::MAX as int) + u32::MAX
                as int) by (nonlinear_arith);
        }
        let r = runs[i];
        sum_mean = sum_mean + r.mean_us;
        sum_min = sum_min + r.min_us;
        if r.max_us > max_max {
            max_max = r.max_us;
        }
        sum_p50 = sum_p50 + r.p50_us;
        sum_p95 = sum_p95 + r.p95_us;
        sum_p99 = sum_p99 + r.p99_us;
        sum_std = sum_std + r.std_dev_us;
        sum_p60 = sum_p60 + r.percent60_cpct;
        sum_p30 = sum_p30 + r.percent30_cpct;
        sum_jank = sum_jank + r.jank_score as u64;
        i += 1;
    }
    proof {
        assert(runs@.take(n as int) =~= runs@);
        lemma_avg_bound(sum_mean as int, n as int, MAX_DURATION_US as int);
        lemma_avg_bound(sum_min as int, n as int, MAX_DURATION_US as int);
        lemma_avg_bound(sum_p50 as int, n as int, MAX_DURATION_US as int);
        lemma_avg_bound(sum_p95 as int, n as int, MAX_DURATION_US as int);
        lemma_avg_bound(sum_p99 as int, n as int, MAX_DURATION_US as int);
        lemma_avg_bound(sum_std as int, n as int, MAX_DURATION_US as int);
        lemma_avg_bound(sum_p60 as int, n as int, 10000);
        lemma_avg_bound(sum_p30 as int, n as int, 10000);
        lemma_avg_bound(sum_jank as int, n as int, u32::MAX as int);
    }
    Metrics {
        mean_us: sum_mean / n as u64,
        min_us: sum_min / n as u64,
        max_us: max_max,
        p50_us: sum_p50 / n as u64,
        p95_us: sum_p95 / n as u64,
        p99_us: sum_p99 / n as u64,
        std_dev_us: sum_std / n as u64,
        percent60_cpct: sum_p60 / n as u64,
        percent30_cpct: sum_p30 / n as u64,
        jank_score: (sum_jank / n as u64) as u32,
    }
}

/// The floored average of `n` values bounded by `c` stays within `c`.
proof fn lemma_avg_bound(sum: int, n: int, c: int)
    requires
        n >= 1,
        0 <= c,
        0 <= sum <= n * c,
    ensures
        0 <= sum / n <= c,
{
    vstd::arithmetic::div_mod::lemma_div_is_ordered(sum, n * c, n);
    vstd::arithmetic::mul::lemma_mul_is_commutative(n, c);
    vstd::arithmetic::div_mod::lemma_div_by_multiple(c, n);
    vstd::arithmetic::div_mod::lemma_div_pos_is_pos(sum, n);
}

/// Run one entity count `REPETITIONS` times and average the rows. Each
/// repetition regenerates the same world from the fixed seed, so the runs
/// differ only in their clock readings.
pub fn benchmark_entity_count(entity_count: u32) -> (row: Metrics)
    ensures
        metrics_bounded(row),
        exists|rows: Seq<Metrics>|
            rows.len() == REPETITIONS as int && #[trigger] spec_average(rows, row),
{
    let mut runs: Vec<Metrics> = Vec::new();
    let mut r: u32 = 0;
    while r < REPETITIONS
        invariant
            r <= REPETITIONS,
            runs@.len() == r as int,
            forall|k: int| 0 <= k < runs@.len() ==> metrics_bounded(#[trigger] runs@[k]),
        decreases REPETITIONS - r,
    {
        let m = run_benchmark(entity_count);
        runs.push(m);
        r += 1;
    }
    let row = average_runs(&runs);
    proof {
        assert(runs@.len() == REPETITIONS as int && spec_average(runs@, row));
    }
    row
}

} // verus!
