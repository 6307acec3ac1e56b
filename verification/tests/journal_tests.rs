use theta_vault_rust::app::FilterStatus;
use theta_vault_rust::journal::{
    distinct_months, filter_trades, group_by_month, journal_rows, key_is_less, month_members, rebuild_visual_rows,
    sort_positions, status_matches, JournalRow, TradeStamp,
};

const DAY: i64 = 86_400_000;

fn stamp(ticker: &str, open: bool, reason: Option<&str>) -> TradeStamp {
    TradeStamp {
        ticker: ticker.to_string(),
        trade_ms: 0,
        expiration_ms: 30 * DAY,
        exit_ms: if open { None } else { Some(10 * DAY) },
        has_pnl: !open,
        entry_dte: Some(30),
        exit_reason: reason.map(|r| r.to_string()),
    }
}

#[test]
fn open_and_zero_dte_trades() {
    let mut t = stamp("SPY", true, None);
    assert!(t.is_open());
    assert!(!t.is_0dte());
    t.entry_dte = Some(0);
    assert!(t.is_0dte());
    t.entry_dte = None;
    t.expiration_ms = DAY - 1;
    assert!(t.is_0dte());
    t.has_pnl = true;
    assert!(!t.is_open());
}

#[test]
fn status_filters() {
    let open = stamp("SPY", true, None);
    let closed = stamp("QQQ", false, Some("profit_target"));
    let expired = stamp("IWM", false, Some("expired"));
    assert!(status_matches(FilterStatus::All, &expired));
    assert!(status_matches(FilterStatus::Open, &open));
    assert!(!status_matches(FilterStatus::Open, &closed));
    assert!(status_matches(FilterStatus::Closed, &closed));
    assert!(!status_matches(FilterStatus::Closed, &expired));
    assert!(status_matches(FilterStatus::Expired, &expired));
    assert!(!status_matches(FilterStatus::Expired, &open));
}

#[test]
fn filtering_by_status_and_ticker() {
    let trades = vec![
        stamp("SPY", true, None),
        stamp("spxw", false, Some("expired")),
        stamp("QQQ", false, None),
        stamp("SPY", false, Some("closed")),
    ];
    assert_eq!(filter_trades(&trades, FilterStatus::All, ""), vec![0, 1, 2, 3]);
    assert_eq!(filter_trades(&trades, FilterStatus::All, "sp"), vec![0, 1, 3]);
    assert_eq!(filter_trades(&trades, FilterStatus::Closed, "SP"), vec![3]);
    assert_eq!(filter_trades(&trades, FilterStatus::Expired, ""), vec![1]);
    assert!(filter_trades(&trades, FilterStatus::Open, "QQQ").is_empty());
}

#[test]
fn months_sorted_once_each() {
    let present = vec![(2024, 3), (2023, 12), (2024, 3), (2024, 1)];
    assert_eq!(distinct_months(&present), vec![(2023, 12), (2024, 1), (2024, 3)]);
    assert!(distinct_months(&[]).is_empty());
}

#[test]
fn members_keep_order() {
    let keys = vec![(2024, 1), (2024, 2), (2024, 1), (2024, 1)];
    assert_eq!(month_members(&[3, 1, 0], &keys, (2024, 1)), vec![3, 0]);
}

#[test]
fn grouping_by_month() {
    let keys = vec![(2024, 2), (2023, 11), (2024, 2), (2024, 1)];
    let order = vec![2, 0, 1, 3];
    let groups = group_by_month(&order, &keys);
    let summary: Vec<(i32, u32, Vec<usize>)> = groups.iter().map(|g| (g.year, g.month, g.members.clone())).collect();
    assert_eq!(summary, vec![(2023, 11, vec![1]), (2024, 1, vec![3]), (2024, 2, vec![2, 0])]);
}

#[test]
fn visual_rows_newest_first_with_headers() {
    let keys = vec![(2024, 2), (2023, 11), (2024, 2), (2024, 1)];
    let order = vec![2, 0, 1, 3];
    let rows = rebuild_visual_rows(&order, &keys, &[], &[]);
    assert_eq!(
        rows,
        vec![
            JournalRow::YearHeader { year: 2024 },
            JournalRow::MonthHeader { year: 2024, month: 2 },
            JournalRow::Trade(2),
            JournalRow::Trade(0),
            JournalRow::MonthHeader { year: 2024, month: 1 },
            JournalRow::Trade(3),
            JournalRow::YearHeader { year: 2023 },
            JournalRow::MonthHeader { year: 2023, month: 11 },
            JournalRow::Trade(1),
        ]
    );
}

#[test]
fn visual_rows_with_collapsed_groups() {
    let keys = vec![(2024, 2), (2023, 11), (2024, 2), (2024, 1)];
    let order = vec![2, 0, 1, 3];
    let rows = rebuild_visual_rows(&order, &keys, &[2023], &[(2024, 2)]);
    assert_eq!(
        rows,
        vec![
            JournalRow::YearHeader { year: 2024 },
            JournalRow::MonthHeader { year: 2024, month: 2 },
            JournalRow::MonthHeader { year: 2024, month: 1 },
            JournalRow::Trade(3),
            JournalRow::YearHeader { year: 2023 },
        ]
    );
}

#[test]
fn every_trade_shown_once_when_nothing_collapsed() {
    let keys = vec![(2022, 5), (2024, 7), (2022, 5), (2023, 1), (2024, 7), (2024, 6)];
    let order = vec![5, 4, 3, 2, 1, 0];
    let groups = group_by_month(&order, &keys);
    let rows = journal_rows(&groups, &[], &[]);
    let mut shown: Vec<usize> = rows
        .iter()
        .filter_map(|r| match r {
            JournalRow::Trade(t) => Some(*t),
            _ => None,
        })
        .collect();
    shown.sort();
    assert_eq!(shown, vec![0, 1, 2, 3, 4, 5]);
    assert!(rebuild_visual_rows(&[], &keys, &[], &[]).is_empty());
}

#[test]
fn keys_compare_like_slices() {
    assert!(key_is_less(&[1, 5], &[2]));
    assert!(key_is_less(&[1], &[1, 0]));
    assert!(!key_is_less(&[1, 0], &[1]));
    assert!(!key_is_less(&[3, 4], &[3, 4]));
    assert!(key_is_less(&[], &[0]));
    let a: Vec<i64> = "SPY".chars().map(|c| i64::from(u32::from(c))).collect();
    let b: Vec<i64> = "SPYX".chars().map(|c| i64::from(u32::from(c))).collect();
    let c: Vec<i64> = "QQQ".chars().map(|c| i64::from(u32::from(c))).collect();
    assert_eq!(key_is_less(&a, &b), "SPY" < "SPYX");
    assert_eq!(key_is_less(&c, &a), "QQQ" < "SPY");
}

#[test]
fn sorting_positions_is_stable_both_ways() {
    let keys: Vec<Vec<i64>> = vec![vec![5], vec![3], vec![5], vec![1], vec![3]];
    assert_eq!(sort_positions(&[0, 1, 2, 3, 4], &keys, false), vec![3, 1, 4, 0, 2]);
    assert_eq!(sort_positions(&[0, 1, 2, 3, 4], &keys, true), vec![0, 2, 1, 4, 3]);
    assert_eq!(sort_positions(&[4, 2, 0], &keys, false), vec![4, 0, 2]);
    assert_eq!(sort_positions(&[], &keys, true), Vec::<usize>::new());
}

#[test]
fn sorting_by_ticker_matches_string_order() {
    let tickers = ["SPY", "AAPL", "QQQ", "AAPL", "IWM"];
    let keys: Vec<Vec<i64>> = tickers.iter().map(|t| t.chars().map(|c| i64::from(u32::from(c))).collect()).collect();
    let mut expected: Vec<usize> = (0..tickers.len()).collect();
    expected.sort_by(|&a, &b| tickers[a].cmp(tickers[b]));
    assert_eq!(sort_positions(&[0, 1, 2, 3, 4], &keys, false), expected);
    let mut stable_desc: Vec<usize> = (0..tickers.len()).collect();
    stable_desc.sort_by(|&a, &b| tickers[a].cmp(tickers[b]).reverse());
    assert_eq!(sort_positions(&[0, 1, 2, 3, 4], &keys, true), stable_desc);
}

#[test]
fn filtered_positions_increase() {
    let trades = vec![stamp("SPY", true, None), stamp("QQQ", false, None), stamp("SPY", false, None)];
    let r = filter_trades(&trades, FilterStatus::All, "");
    assert!(r.windows(2).all(|w| w[0] < w[1]));
}
