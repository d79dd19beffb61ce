use balancebeam::checker::ProbeOutcome;
use balancebeam::checker::evaluate_probe;
use balancebeam::checker::record_probe;
use balancebeam::checker::record_sweep;
use balancebeam::health::HealthRegistry;
use balancebeam::select::healthy_indices;
use balancebeam::select::select_upstream;

#[test]
fn fresh_registry_considers_every_upstream_healthy() {
    let reg = HealthRegistry::new(3);
    assert_eq!(reg.len(), 3);
    assert_eq!(reg.healthy_count(), 3);
    assert!(reg.is_healthy(0));
    assert!(reg.is_healthy(1));
    assert!(reg.is_healthy(2));
}

#[test]
fn connect_failures_exhaust_all_upstreams() {
    // Once every index has failed a connect attempt, selection keeps
    // reporting all upstreams down until a probe marks one healthy again.
    let mut reg = HealthRegistry::new(3);
    reg.mark_unhealthy(1);
    reg.mark_unhealthy(0);
    reg.mark_unhealthy(1);
    reg.mark_unhealthy(2);
    assert_eq!(reg.healthy_count(), 0);
    assert_eq!(select_upstream(&reg), None);
    reg.mark_unhealthy(0);
    assert_eq!(select_upstream(&reg), None);
    record_probe(&mut reg, 1, &ProbeOutcome::Status(200));
    assert_eq!(select_upstream(&reg), Some(1));
}

#[test]
fn probe_success_overrides_connect_failure() {
    let mut reg = HealthRegistry::new(2);
    reg.mark_unhealthy(0);
    assert!(!reg.is_healthy(0));
    record_probe(&mut reg, 0, &ProbeOutcome::Status(200));
    assert!(reg.is_healthy(0));
    assert!(reg.is_healthy(1));
}

#[test]
fn sweep_observing_failure_status_marks_all_down() {
    // A single upstream whose health-check path answers 503: after one
    // sweep no upstream is healthy, so selection must fail.
    let mut reg = HealthRegistry::new(1);
    let outcomes = vec![ProbeOutcome::Status(503)];
    record_sweep(&mut reg, &outcomes);
    assert_eq!(reg.healthy_count(), 0);
    assert_eq!(select_upstream(&reg), None);
}

#[test]
fn selector_always_avoids_the_refused_upstream() {
    // Two upstreams, one marked down by connect failures: every selection
    // must return the other index.
    let mut reg = HealthRegistry::new(2);
    reg.mark_unhealthy(0);
    for _ in 0..50 {
        assert_eq!(select_upstream(&reg), Some(1));
    }
}

#[test]
fn healthy_indices_lists_exactly_the_live_indices() {
    let mut reg = HealthRegistry::new(4);
    reg.mark_unhealthy(1);
    reg.mark_unhealthy(3);
    assert_eq!(healthy_indices(&reg), vec![0, 2]);
    assert_eq!(reg.healthy_count(), 2);
}

#[test]
fn registry_without_upstreams_selects_nothing() {
    let reg = HealthRegistry::new(0);
    assert_eq!(reg.healthy_count(), 0);
    assert_eq!(select_upstream(&reg), None);
}

#[test]
fn probe_policy_accepts_exactly_status_200() {
    assert!(evaluate_probe(&ProbeOutcome::Status(200)));
    assert!(!evaluate_probe(&ProbeOutcome::Status(301)));
    assert!(!evaluate_probe(&ProbeOutcome::Status(503)));
    assert!(!evaluate_probe(&ProbeOutcome::Unreachable));
}

#[test]
fn sweep_overwrites_every_index_with_its_own_outcome() {
    let mut reg = HealthRegistry::new(3);
    reg.mark_unhealthy(2);
    let outcomes = vec![
        ProbeOutcome::Status(503),
        ProbeOutcome::Unreachable,
        ProbeOutcome::Status(200),
    ];
    record_sweep(&mut reg, &outcomes);
    assert!(!reg.is_healthy(0));
    assert!(!reg.is_healthy(1));
    assert!(reg.is_healthy(2));
    assert_eq!(reg.healthy_count(), 1);
}
