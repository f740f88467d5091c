use oxiphysics::analytics::{
    push_bounded, PyAggregateMetrics, PyBenchmark, PyCollisionStats, PyConstraintStats, PyDataExporter,
    PyEnergyTracker, PyMomentumTracker, PyPerformanceTracker, PyPhysicsAnalytics, PySimulationReport,
    PySleepStats, PySnapshot,
};

fn b(x: f64) -> u64 {
    x.to_bits()
}

// --- PySnapshot ---

#[test]
fn test_snapshot_default() {
    let s = PySnapshot::default();
    assert_eq!(s.time, b(0.0));
    assert_eq!(s.kinetic_energy, b(0.0));
}

// --- PyPhysicsAnalytics ---

#[test]
fn test_analytics_snapshot() {
    let mut a = PyPhysicsAnalytics::new(10);
    for i in 0..5 {
        let s = PySnapshot { time: b(i as f64), kinetic_energy: b(i as f64), ..Default::default() };
        a.snapshot(s);
    }
    assert_eq!(a.snapshots.len(), 5);
}

#[test]
fn test_analytics_evicts_old() {
    let mut a = PyPhysicsAnalytics::new(3);
    for i in 0..5 {
        let s = PySnapshot { kinetic_energy: b(i as f64), ..Default::default() };
        a.snapshot(s);
    }
    assert_eq!(a.snapshots.len(), 3);
}

#[test]
fn test_analytics_is_empty() {
    let a = PyPhysicsAnalytics::new(10);
    assert!(a.is_empty());
}

#[test]
fn analytics_keeps_newest_and_counts_steps() {
    let mut a = PyPhysicsAnalytics::new(2);
    assert!(a.latest().is_none());
    for i in 0..4 {
        a.snapshot(PySnapshot { time: b(i as f64), ..Default::default() });
    }
    assert_eq!(a.step, 4);
    assert_eq!(a.snapshots[0].time, b(2.0));
    assert_eq!(a.latest().unwrap().time, b(3.0));
    a.step();
    assert_eq!(a.step, 5);
}

#[test]
fn bounded_history_law_on_values() {
    let mut h: Vec<u32> = vec![1, 2, 3];
    push_bounded(&mut h, 3, 4);
    assert_eq!(h, vec![2, 3, 4]);
    push_bounded(&mut h, 0, 5);
    assert_eq!(h, vec![2, 3, 4, 5]);
    push_bounded(&mut h, 10, 6);
    assert_eq!(h, vec![2, 3, 4, 5, 6]);
}

#[test]
fn aggregate_metrics_default_zero() {
    let m = PyAggregateMetrics::default();
    assert_eq!(m.sample_count, 0);
    assert_eq!(m.max_ke, b(0.0));
}

// --- PyEnergyTracker / PyMomentumTracker ---

#[test]
fn energy_tracker_anomaly_flag() {
    let mut t = PyEnergyTracker::new(100, b(0.5));
    assert!(!t.has_anomalies());
    t.anomalies.push((1, b(990.0)));
    assert!(t.has_anomalies());
}

#[test]
fn momentum_tracker_fixes_initial_momenta() {
    let mut t = PyMomentumTracker::new(b(0.01));
    t.record(b(0.0), b(5.0), b(2.0));
    t.record(b(0.1), b(6.0), b(3.0));
    assert_eq!(t.initial_linear, b(5.0));
    assert_eq!(t.initial_angular, b(2.0));
    assert_eq!(t.history.len(), 2);
    assert_eq!(t.history[1], (b(0.1), b(6.0), b(3.0)));
}

// --- PyCollisionStats ---

#[test]
fn collision_stats_pair_counting_either_order() {
    let mut s = PyCollisionStats::new(10, b(100.0));
    s.count_pair(0, 1);
    s.count_pair(1, 0);
    s.count_pair(2, 3);
    assert_eq!(s.total_collisions, 3);
    assert_eq!(s.pair_counts, vec![(0, 1, 2), (2, 3, 1)]);
    let pair = s.most_collided_pair().unwrap();
    assert_eq!(pair.2, 2);
}

#[test]
fn collision_stats_most_collided_ties_take_last() {
    let mut s = PyCollisionStats::new(4, b(10.0));
    assert!(s.most_collided_pair().is_none());
    s.count_pair(0, 1);
    s.count_pair(2, 3);
    assert_eq!(s.most_collided_pair(), Some((2, 3, 1)));
}

#[test]
fn collision_stats_impulse_bins_and_reset() {
    let mut s = PyCollisionStats::new(4, b(100.0));
    s.count_impulse_bin(1);
    s.count_impulse_bin(9);
    assert_eq!(s.impulse_histogram, vec![0, 1, 0, 1]);
    s.count_pair(0, 1);
    s.reset();
    assert_eq!(s.total_collisions, 0);
    assert!(s.pair_counts.is_empty());
    assert_eq!(s.impulse_histogram, vec![0; 4]);
    assert_eq!(s.depth_count, 0);
    assert_eq!(s.max_impulse, b(100.0));
}

// --- Sleep, constraint, performance ---

#[test]
fn sleep_constraint_perf_new() {
    let s = PySleepStats::new(100);
    assert_eq!(s.total_wake_events, 0);
    assert_eq!(s.capacity, 100);
    let c = PyConstraintStats::new();
    assert_eq!(c.sample_count, 0);
    assert_eq!(c.mean_iterations, b(0.0));
    let p = PyPerformanceTracker::new(10);
    assert!(p.history.is_empty());
    assert_eq!(p.capacity, 10);
}

// --- PySimulationReport ---

#[test]
fn report_new_and_energy_message() {
    let mut r = PySimulationReport::new();
    assert_eq!(r.energy.capacity, 1000);
    assert_eq!(r.collision.impulse_histogram.len(), 32);
    r.check_energy();
    assert!(r.anomaly_list.is_empty());
    r.energy.anomalies.push((1, b(990.0)));
    r.energy.anomalies.push((4, b(20.0)));
    r.check_energy();
    assert_eq!(r.anomaly_list, vec!["Energy anomalies detected: 2 jumps".to_string()]);
    r.flag_anomaly("manual");
    assert_eq!(r.anomaly_list.len(), 2);
    assert_eq!(r.anomaly_list[1], "manual");
}

// --- PyBenchmark ---

#[test]
fn benchmark_new_zero() {
    let bm = PyBenchmark::new(100, 50);
    assert_eq!(bm.steps_run, 0);
    assert_eq!(bm.body_count, 100);
    assert_eq!(bm.constraint_count, 50);
    assert_eq!(bm.steps_per_second(), b(0.0));
}

// --- PyDataExporter ---

#[test]
fn test_exporter_row_count() {
    let mut e = PyDataExporter::new();
    for i in 0..5 {
        e.record(b(i as f64), i as u32, [b(0.0); 3], [b(0.0); 3], b(0.0));
    }
    assert_eq!(e.row_count(), 5);
}

#[test]
fn test_exporter_clear() {
    let mut e = PyDataExporter::new();
    e.record(b(0.0), 0, [b(0.0); 3], [b(0.0); 3], b(0.0));
    e.clear();
    assert_eq!(e.row_count(), 0);
}

#[test]
fn exporter_row_layout() {
    let mut e = PyDataExporter::new();
    e.record(b(0.5), 3, [b(1.0), b(2.0), b(3.0)], [b(4.0), b(5.0), b(6.0)], b(7.0));
    assert_eq!(e.rows[0], (b(0.5), 3, b(1.0), b(2.0), b(3.0), b(4.0), b(5.0), b(6.0), b(7.0)));
}
