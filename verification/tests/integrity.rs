use opinions::integrity::{ratio_ppm, sweep_checks, verdict, SweepThresholds, Verdict, VoteStats};

fn thresholds() -> SweepThresholds {
    SweepThresholds {
        burst_multiplier_ppm: 2_000_000,
        young_account_share_max_ppm: 500_000,
        subnet_share_max_ppm: 600_000,
        device_share_max_ppm: 600_000,
        min_votes_for_ratios: 4,
        min_metadata_coverage_ppm: 500_000,
    }
}

fn clean() -> VoteStats {
    VoteStats {
        total: 10,
        last_window: 2,
        prior_windows_total: 8,
        prior_horizon_windows: 4,
        young_accounts: 5,
        subnet_observed: 10,
        top_subnet_count: 6,
        device_observed: 10,
        top_device_count: 6,
    }
}

#[test]
fn boundaries_pass_and_strict_excess_flags() {
    let checks = sweep_checks(&clean(), &thresholds());
    assert!(checks.iter().all(|check| !check.flagged));
    let mut breached = clean();
    breached.last_window = 5;
    breached.young_accounts = 6;
    breached.top_subnet_count = 7;
    breached.top_device_count = 7;
    let checks = sweep_checks(&breached, &thresholds());
    assert!(checks.iter().all(|check| check.flagged));
    assert_eq!(verdict(&checks), Verdict::Flag);
}

#[test]
fn one_signal_is_pass_with_note() {
    let mut stats = clean();
    stats.young_accounts = 6;
    let checks = sweep_checks(&stats, &thresholds());
    assert_eq!(checks.iter().filter(|check| check.flagged).count(), 1);
    assert_eq!(verdict(&checks), Verdict::Pass);
}

#[test]
fn zero_baseline_rule_is_strict() {
    let mut stats = clean();
    stats.prior_windows_total = 0;
    stats.last_window = 4;
    assert!(!sweep_checks(&stats, &thresholds())[0].flagged);
    stats.last_window = 5;
    assert!(sweep_checks(&stats, &thresholds())[0].flagged);
}

#[test]
fn sparse_metadata_and_low_votes_skip_checks() {
    let mut stats = clean();
    stats.subnet_observed = 4;
    stats.device_observed = 0;
    let checks = sweep_checks(&stats, &thresholds());
    assert!(!checks[2].flagged);
    assert_eq!(checks[2].coverage_ppm, 400_000);
    assert!(!checks[3].flagged);
    assert_eq!(checks[3].coverage_ppm, 0);

    stats.total = 3;
    let checks = sweep_checks(&stats, &thresholds());
    assert!(checks.iter().all(|check| !check.flagged));
    assert!(checks.iter().all(|check| check.value_ppm == 0));
}

#[test]
fn empty_results_pass_and_ratio_zero_is_safe() {
    assert_eq!(verdict(&[]), Verdict::Pass);
    assert_eq!(ratio_ppm(1, 0), 0);
}
