use simbench::report::{average_runs, benchmark_entity_count};
use simbench::sim::{run_benchmark, Simulation};
use simbench::stats::{aggregate, isqrt, percentile_index, sort_durations, Metrics};

#[test]
fn percentile_indexing_for_sixty_frames() {
    // pinned index arithmetic: floor(60 * q)
    assert_eq!(percentile_index(60, 50), 30);
    assert_eq!(percentile_index(60, 95), 57);
    assert_eq!(percentile_index(60, 99), 59);
}

#[test]
fn percentile_index_is_unclamped_floor() {
    assert_eq!(percentile_index(4, 50), 2);
    assert_eq!(percentile_index(1, 99), 0);
    assert_eq!(percentile_index(100, 99), 99);
    // q = 1.0 indexes one past the end: the index arithmetic never clamps
    assert_eq!(percentile_index(60, 100), 60);
}

#[test]
fn jank_counts_streaks_super_linearly() {
    // 10, 40, 40, 10, 40 ms against the 33.33 ms threshold: 1 + 2 + 0 + 1 = 4
    let d: Vec<u64> = vec![10_000, 40_000, 40_000, 10_000, 40_000];
    let m = aggregate(&d);
    assert_eq!(m.jank_score, 4);
}

#[test]
fn jank_is_zero_without_over_budget_frames() {
    let d: Vec<u64> = vec![10_000, 33_330, 20_000];
    let m = aggregate(&d);
    assert_eq!(m.jank_score, 0);
}

#[test]
fn aggregate_pins_every_summary_field() {
    let d: Vec<u64> = vec![10_000, 20_000, 30_000, 40_000];
    let m = aggregate(&d);
    assert_eq!(m.mean_us, 25_000);
    assert_eq!(m.min_us, 10_000);
    assert_eq!(m.max_us, 40_000);
    assert_eq!(m.p50_us, 30_000); // index 4*50/100 = 2 of the sorted array
    assert_eq!(m.p95_us, 40_000); // index 3
    assert_eq!(m.p99_us, 40_000); // index 3
    assert_eq!(m.std_dev_us, 11_180); // floor sqrt of 125_000_000
    assert_eq!(m.percent60_cpct, 2_500); // 1 of 4 within 16.67 ms
    assert_eq!(m.percent30_cpct, 7_500); // 3 of 4 within 33.33 ms
    assert_eq!(m.jank_score, 1);
}

#[test]
fn sort_orders_and_keeps_every_duration() {
    let mut d: Vec<u64> = vec![5, 3, 9, 3, 1, 7];
    sort_durations(&mut d);
    assert_eq!(d, vec![1, 3, 3, 5, 7, 9]);
}

#[test]
fn isqrt_is_the_floored_root() {
    assert_eq!(isqrt(0), 0);
    assert_eq!(isqrt(1), 1);
    assert_eq!(isqrt(3), 1);
    assert_eq!(isqrt(4), 2);
    assert_eq!(isqrt(125_000_000), 11_180);
}

#[test]
fn average_runs_means_fields_and_takes_the_true_maximum() {
    let a = Metrics {
        mean_us: 100,
        min_us: 10,
        max_us: 500,
        p50_us: 100,
        p95_us: 300,
        p99_us: 400,
        std_dev_us: 50,
        percent60_cpct: 10_000,
        percent30_cpct: 10_000,
        jank_score: 4,
    };
    let b = Metrics {
        mean_us: 201,
        min_us: 20,
        max_us: 300,
        p50_us: 200,
        p95_us: 500,
        p99_us: 600,
        std_dev_us: 70,
        percent60_cpct: 5_000,
        percent30_cpct: 7_000,
        jank_score: 7,
    };
    let row = average_runs(&vec![a, b]);
    assert_eq!(row.mean_us, 150); // floored
    assert_eq!(row.min_us, 15);
    assert_eq!(row.max_us, 500); // the true maximum, not an average
    assert_eq!(row.p50_us, 150);
    assert_eq!(row.p95_us, 400);
    assert_eq!(row.p99_us, 500);
    assert_eq!(row.std_dev_us, 60);
    assert_eq!(row.percent60_cpct, 7_500);
    assert_eq!(row.percent30_cpct, 8_500);
    assert_eq!(row.jank_score, 5); // integer average, as the row reports it
}

#[test]
fn empty_population_run_terminates_with_defined_metrics() {
    // the edge case: zero entities still step the full frame range
    let mut sim = Simulation::new(0, 12345);
    let durations = sim.run();
    assert_eq!(durations.len(), 60);
    assert!(sim.is_complete());
    assert_eq!(sim.entities.len(), 0);
    let m = run_benchmark(0);
    assert!(m.min_us <= m.max_us);
    assert!(m.percent60_cpct <= 10_000);
    assert!(m.percent30_cpct <= 10_000);
    assert!(m.p50_us <= m.max_us);
}

#[test]
fn simulation_runs_reproduce_the_same_final_population() {
    let mut a = Simulation::new(120, 12345);
    let mut b = Simulation::new(120, 12345);
    a.run();
    b.run();
    assert_eq!(a.entities.len(), b.entities.len());
    for (x, y) in a.entities.iter().zip(b.entities.iter()) {
        assert_eq!(x.id, y.id);
        assert_eq!(x.transform.x, y.transform.x);
        assert_eq!(x.transform.y, y.transform.y);
        assert_eq!(x.velocity.vx, y.velocity.vx);
        assert_eq!(x.velocity.vy, y.velocity.vy);
        assert_eq!(x.health.current, y.health.current);
    }
}

#[test]
fn benchmark_row_has_bounded_shares() {
    let row = benchmark_entity_count(50);
    assert!(row.percent60_cpct <= 10_000);
    assert!(row.percent30_cpct <= 10_000);
    assert!(row.min_us <= row.max_us || row.max_us == 0);
}
