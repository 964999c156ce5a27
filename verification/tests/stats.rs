use container_viz::stats::{calc_cpu_percent, cpu_sample, network_totals, StatsSnapshot};

fn snap(cpu: u64, sys: u64, cpus: u32) -> StatsSnapshot {
    StatsSnapshot { cpu_total: cpu, system_cpu: sys, online_cpus: cpus }
}

fn percent(hundredths: u128) -> f64 {
    hundredths as f64 / 100.0
}

#[test]
fn stats_cpu_percent_basic() {
    assert!((percent(calc_cpu_percent(snap(0, 0, 1), snap(25, 100, 1))) - 25.0).abs() < 1e-9);
}

#[test]
fn stats_cpu_percent_scales_with_cpus() {
    assert!((percent(calc_cpu_percent(snap(0, 0, 4), snap(25, 100, 4))) - 100.0).abs() < 1e-9);
}

#[test]
fn stats_cpu_percent_zero_when_no_delta() {
    let s = snap(10, 100, 2);
    assert_eq!(percent(calc_cpu_percent(s, s)), 0.0);
}

#[test]
fn stats_cpu_percent_handles_counter_reset() {
    assert_eq!(percent(calc_cpu_percent(snap(100, 1_000, 1), snap(50, 500, 1))), 0.0);
}

#[test]
fn docker_cpu_percent_basic() {
    let prev = snap(0, 0, 1);
    let curr = snap(25, 100, 1);
    assert!((percent(calc_cpu_percent(prev, curr)) - 25.0).abs() < 1e-9);
}

#[test]
fn docker_cpu_percent_scales_with_cpus() {
    let prev = snap(0, 0, 4);
    let curr = snap(25, 100, 4);
    assert!((percent(calc_cpu_percent(prev, curr)) - 100.0).abs() < 1e-9);
}

#[test]
fn docker_cpu_percent_zero_when_no_delta() {
    let s = snap(10, 100, 2);
    assert_eq!(percent(calc_cpu_percent(s, s)), 0.0);
}

#[test]
fn docker_cpu_percent_handles_counter_reset() {
    let prev = snap(100, 1_000, 1);
    let curr = snap(50, 500, 1);
    assert_eq!(percent(calc_cpu_percent(prev, curr)), 0.0);
}

#[test]
fn cpu_percent_rounds_down_to_hundredths() {
    // 1/3 of one CPU is 33.333...%, kept as 3333 hundredths.
    assert_eq!(calc_cpu_percent(snap(0, 0, 1), snap(1, 3, 1)), 3333);
}

#[test]
fn cpu_percent_zero_when_only_system_advances() {
    assert_eq!(calc_cpu_percent(snap(5, 0, 1), snap(5, 100, 1)), 0);
}

#[test]
fn snapshot_defaults_missing_fields() {
    let s = StatsSnapshot::from_raw(None, None, None);
    assert_eq!(s, snap(0, 0, 1));
    let s = StatsSnapshot::from_raw(Some(7), Some(9), Some(0));
    assert_eq!(s, snap(7, 9, 1));
    let s = StatsSnapshot::from_raw(Some(7), Some(9), Some(8));
    assert_eq!(s, snap(7, 9, 8));
}

#[test]
fn first_sample_reads_zero() {
    assert_eq!(cpu_sample(None, snap(25, 100, 1)), 0);
    assert_eq!(cpu_sample(Some(snap(0, 0, 1)), snap(25, 100, 1)), 2500);
}

#[test]
fn cpu_sample_clamped_to_cpu_count() {
    assert_eq!(cpu_sample(Some(snap(0, 0, u32::MAX)), snap(u64::MAX, 1, u32::MAX)), u32::MAX as u64 * 10000);
}

#[test]
fn network_totals_sum_interfaces() {
    let rx = vec![Some(10), None, Some(5)];
    let tx = vec![Some(1), Some(2), None];
    assert_eq!(network_totals(&rx, &tx), Some((15, 3)));
    assert_eq!(network_totals(&vec![], &vec![]), Some((0, 0)));
}

#[test]
fn network_totals_overflow_is_none() {
    let rx = vec![Some(u64::MAX), Some(1)];
    let tx = vec![Some(0), Some(0)];
    assert_eq!(network_totals(&rx, &tx), None);
}

#[test]
fn cpu_percent_capped_per_cpu() {
    // The container's counter ran ahead of the system's: 500% is cut to 100% of one CPU.
    assert_eq!(calc_cpu_percent(snap(0, 0, 1), snap(50, 10, 1)), 10000);
    assert_eq!(calc_cpu_percent(snap(0, 0, 2), snap(50, 10, 2)), 20000);
}
