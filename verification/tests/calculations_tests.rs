use theta_vault_rust::calculations::{
    calculate_held_duration, critical_positions, dte_bucket, dte_fits, dte_violations, format_held_duration,
    get_streak_analysis, held_bucket, open_strategy_counts, playbook_strategy_fits, rolling_win_counts,
    rolling_window_start, sorted_pairs, MILLIS_PER_MINUTE,
};
use theta_vault_rust::models::StrategyType;

const DAY: i64 = 86_400_000;
const HOUR: i64 = 3_600_000;

#[test]
fn streaks_of_wins_and_losses() {
    assert_eq!(get_streak_analysis(&[]), (0, 0, 0));
    assert_eq!(get_streak_analysis(&[true, true, false, true, true, true]), (3, 3, 1));
    assert_eq!(get_streak_analysis(&[true, false, false, false]), (-3, 1, 3));
    assert_eq!(get_streak_analysis(&[false]), (-1, 0, 1));
}

#[test]
fn streak_bounds_law_example() {
    let wins = [true, false, true, true, false, false, true];
    let (cur, w, l) = get_streak_analysis(&wins);
    assert!(w <= wins.len() && l <= wins.len());
    assert!(cur.unsigned_abs() as usize <= w.max(l));
}

#[test]
fn held_duration_parts() {
    let entry = 1_700_000_000_000i64;
    assert_eq!(calculate_held_duration(entry, entry + 2 * DAY + 3 * HOUR + 5 * MILLIS_PER_MINUTE), (2, 3, 5));
    assert_eq!(calculate_held_duration(entry, entry - DAY), (0, 0, 0));
    assert_eq!(calculate_held_duration(entry, entry + 59_999), (0, 0, 0));
}

#[test]
fn held_duration_recomposes() {
    let entry = 0i64;
    let exit = 3 * DAY + 23 * HOUR + 59 * MILLIS_PER_MINUTE + 1234;
    let (d, h, m) = calculate_held_duration(entry, exit);
    assert_eq!(d * 1440 + h * 60 + m, (exit - entry) / MILLIS_PER_MINUTE);
    assert!(h < 24 && m < 60);
}

#[test]
fn held_duration_text() {
    assert_eq!(format_held_duration(0, 2 * DAY + 5 * HOUR), "2d");
    assert_eq!(format_held_duration(0, 5 * HOUR + 7 * MILLIS_PER_MINUTE), "5h 7m");
    assert_eq!(format_held_duration(0, 42 * MILLIS_PER_MINUTE), "42m");
    assert_eq!(format_held_duration(10, 0), "0m");
}

#[test]
fn pairs_sorted_and_deduplicated() {
    let v = vec![(3, 1), (-1, 7), (3, 0), (-1, 7), (0, 5)];
    assert_eq!(sorted_pairs(&v), vec![(-1, 7), (0, 5), (3, 0), (3, 1)]);
    assert!(sorted_pairs(&[]).is_empty());
}

#[test]
fn critical_positions_sorted_by_days_left() {
    let dtes = vec![30, 5, 21, 22, 5, 0, -3];
    assert_eq!(critical_positions(&dtes), vec![6, 5, 1, 4, 2]);
    assert!(critical_positions(&[40, 50]).is_empty());
}

#[test]
fn strategy_mix_counts_and_orders() {
    let badges: Vec<String> = ["IC", "SPV", "IC", "CSP", "SPV", "IC", "CC"].iter().map(|s| s.to_string()).collect();
    let counts = open_strategy_counts(&badges);
    let got: Vec<(String, usize)> = counts.iter().map(|c| (c.badge.clone(), c.count)).collect();
    assert_eq!(
        got,
        vec![
            ("IC".to_string(), 3),
            ("SPV".to_string(), 2),
            ("CSP".to_string(), 1),
            ("CC".to_string(), 1),
        ]
    );
    assert!(open_strategy_counts(&[]).is_empty());
}

#[test]
fn dte_buckets() {
    assert_eq!(dte_bucket(0), 0);
    assert_eq!(dte_bucket(6), 0);
    assert_eq!(dte_bucket(7), 1);
    assert_eq!(dte_bucket(20), 2);
    assert_eq!(dte_bucket(21), 3);
    assert_eq!(dte_bucket(30), 4);
    assert_eq!(dte_bucket(i32::MAX), 4);
    assert_eq!(dte_bucket(-1), 4);
}

#[test]
fn held_buckets() {
    assert_eq!(held_bucket(0), Some(0));
    assert_eq!(held_bucket(13), Some(1));
    assert_eq!(held_bucket(14), Some(2));
    assert_eq!(held_bucket(29), Some(3));
    assert_eq!(held_bucket(400), Some(4));
    assert_eq!(held_bucket(i64::MAX), None);
    assert_eq!(held_bucket(-2), None);
}

#[test]
fn rolling_windows() {
    assert_eq!(rolling_window_start(10, 3), 8);
    assert_eq!(rolling_window_start(1, 3), 0);
    assert_eq!(rolling_window_start(5, 0), 5);
    let wins = [true, false, true, true, false];
    assert_eq!(rolling_win_counts(&wins, 3), vec![(1, 1), (1, 2), (2, 3), (2, 3), (2, 3)]);
    assert_eq!(rolling_win_counts(&wins, 1), vec![(1, 1), (0, 1), (1, 1), (1, 1), (0, 1)]);
    assert!(rolling_win_counts(&[], 30).is_empty());
}

#[test]
fn dte_compliance_violations() {
    let v = dte_violations(Some(7), Some(10), Some(45));
    assert_eq!(v.len(), 1);
    assert_eq!(v[0].field, "DTE");
    assert_eq!(v[0].rule, "≥ 10");
    assert_eq!(v[0].actual, "7");
    let w = dte_violations(Some(60), Some(10), Some(45));
    assert_eq!(w.len(), 1);
    assert_eq!(w[0].rule, "≤ 45");
    assert_eq!(w[0].actual, "60");
    let both = dte_violations(Some(-5), Some(0), Some(-10));
    assert_eq!(both.len(), 2);
    assert_eq!(both[0].rule, "≥ 0");
    assert_eq!(both[0].actual, "-5");
    assert_eq!(both[1].rule, "≤ -10");
    assert!(dte_violations(None, Some(10), Some(45)).is_empty());
    assert!(dte_violations(Some(20), None, None).is_empty());
}

#[test]
fn dte_fit_matches_no_violation() {
    for dte in [None, Some(5), Some(10), Some(45), Some(46)] {
        let fits = dte_fits(dte, Some(10), Some(45));
        assert_eq!(fits, dte_violations(dte, Some(10), Some(45)).is_empty());
    }
    assert!(!dte_fits(Some(5), Some(10), None));
}

#[test]
fn playbook_strategy_matching() {
    assert!(playbook_strategy_fits(&StrategyType::IronCondor, None));
    assert!(playbook_strategy_fits(&StrategyType::IronCondor, Some("iron_condor")));
    assert!(!playbook_strategy_fits(&StrategyType::IronCondor, Some("strangle")));
    assert!(playbook_strategy_fits(&StrategyType::Custom, Some("not_a_strategy")));
    assert!(playbook_strategy_fits(&StrategyType::LongPutVertical, Some("long_put")));
}

#[test]
fn streaks_are_longest_runs() {
    let wins = [true, true, false, true, true, true, false];
    assert_eq!(get_streak_analysis(&wins), (-1, 3, 1));
    let losses = [false, false, true, false, false, false, false];
    assert_eq!(get_streak_analysis(&losses), (-4, 1, 4));
}
