use theta_vault_rust::actions::{
    alert_kinds_in_order, build_action_rows, get_sector, is_short_premium, order_alerts, plan_trade_alerts,
    sorts_before, ActionRow, AlertCase, AlertKind, AlertSeverity, PlannedAlert, TradeAlert, TradeAlertFacts,
};
use theta_vault_rust::models::StrategyType;

fn alert(id: i32, ticker: &str, kind: AlertKind, severity: AlertSeverity) -> TradeAlert {
    TradeAlert {
        trade_id: id,
        ticker: ticker.to_string(),
        strategy_badge: "IC".to_string(),
        kind,
        severity,
        headline: format!("alert {}", id),
        detail: None,
    }
}

fn quiet_facts(ticker: &str, strategy: StrategyType) -> TradeAlertFacts {
    TradeAlertFacts {
        ticker: ticker.to_string(),
        strategy,
        tested: false,
        dte: 40,
        credit_positive: true,
        has_legs: true,
        beyond_max_loss: Some(false),
        gamma_elevated: Some(false),
        days_to_earnings: None,
        at_profit_target: false,
        iv_stall_candidate: false,
        days_held: 1,
        ticker_oversized: false,
        roll_count: 0,
    }
}

fn cases(planned: &[PlannedAlert]) -> Vec<(usize, AlertCase)> {
    planned.iter().map(|p| (p.trade, p.case)).collect()
}

#[test]
fn severity_ranks_in_order() {
    assert_eq!(AlertSeverity::Critical.rank(), 0);
    assert_eq!(AlertSeverity::High.rank(), 1);
    assert_eq!(AlertSeverity::Info.rank(), 4);
    assert_eq!(AlertSeverity::AllClear.rank(), 5);
}

#[test]
fn kind_badges_and_order() {
    assert_eq!(AlertKind::Defense.badge(), "DEFENSE");
    assert_eq!(AlertKind::Roll.badge(), "ROLL   ");
    assert_eq!(AlertKind::AllClear.badge(), "OK     ");
    let kinds = alert_kinds_in_order();
    assert_eq!(kinds.len(), 13);
    for (i, k) in kinds.iter().enumerate() {
        assert_eq!(k.order() as usize, i);
    }
}

#[test]
fn action_rows_group_by_kind_in_canonical_order() {
    let alerts = vec![
        alert(1, "SPY", AlertKind::Roll, AlertSeverity::Info),
        alert(2, "QQQ", AlertKind::Defense, AlertSeverity::Critical),
        alert(3, "IWM", AlertKind::Roll, AlertSeverity::Info),
    ];
    let rows = build_action_rows(&alerts, &[]);
    assert_eq!(rows.len(), 5);
    match &rows[0] {
        ActionRow::GroupHeader { kind, count } => {
            assert_eq!(*kind, AlertKind::Defense);
            assert_eq!(*count, 1);
        }
        _ => panic!("expected a header"),
    }
    match &rows[1] {
        ActionRow::Alert(a) => assert_eq!(a.trade_id, 2),
        _ => panic!("expected an alert"),
    }
    match &rows[2] {
        ActionRow::GroupHeader { kind, count } => {
            assert_eq!(*kind, AlertKind::Roll);
            assert_eq!(*count, 2);
        }
        _ => panic!("expected a header"),
    }
    match (&rows[3], &rows[4]) {
        (ActionRow::Alert(a), ActionRow::Alert(b)) => {
            assert_eq!(a.trade_id, 1);
            assert_eq!(b.trade_id, 3);
        }
        _ => panic!("expected alerts"),
    }
}

#[test]
fn action_rows_collapsed_group_shows_only_header() {
    let alerts = vec![
        alert(1, "SPY", AlertKind::Roll, AlertSeverity::Info),
        alert(3, "IWM", AlertKind::Roll, AlertSeverity::Info),
    ];
    let rows = build_action_rows(&alerts, &[AlertKind::Roll]);
    assert_eq!(rows.len(), 1);
    match &rows[0] {
        ActionRow::GroupHeader { kind, count } => {
            assert_eq!(*kind, AlertKind::Roll);
            assert_eq!(*count, 2);
        }
        _ => panic!("expected a header"),
    }
}

#[test]
fn action_rows_every_alert_shown_when_open() {
    let alerts = vec![
        alert(1, "A", AlertKind::Sizing, AlertSeverity::Info),
        alert(2, "B", AlertKind::Close, AlertSeverity::Low),
        alert(3, "C", AlertKind::MaxLoss, AlertSeverity::High),
        alert(4, "D", AlertKind::Close, AlertSeverity::Low),
    ];
    let rows = build_action_rows(&alerts, &[]);
    let shown: Vec<i32> = rows
        .iter()
        .filter_map(|r| match r {
            ActionRow::Alert(a) => Some(a.trade_id),
            _ => None,
        })
        .collect();
    let mut sorted = shown.clone();
    sorted.sort();
    assert_eq!(sorted, vec![1, 2, 3, 4]);
    assert_eq!(shown, vec![3, 2, 4, 1]);
}

#[test]
fn order_alerts_sorts_by_severity_then_ticker() {
    let alerts = vec![
        alert(1, "SPY", AlertKind::Roll, AlertSeverity::Info),
        alert(2, "QQQ", AlertKind::Defense, AlertSeverity::Critical),
        alert(3, "AAPL", AlertKind::Roll, AlertSeverity::Info),
        alert(4, "IWM", AlertKind::Defense, AlertSeverity::Critical),
    ];
    let ordered = order_alerts(alerts, None);
    let ids: Vec<i32> = ordered.iter().map(|a| a.trade_id).collect();
    assert_eq!(ids, vec![4, 2, 3, 1]);
}

#[test]
fn order_alerts_is_stable_for_equal_keys() {
    let alerts = vec![
        alert(1, "SPY", AlertKind::Roll, AlertSeverity::Info),
        alert(2, "SPY", AlertKind::Manage, AlertSeverity::Info),
    ];
    let ordered = order_alerts(alerts, None);
    let ids: Vec<i32> = ordered.iter().map(|a| a.trade_id).collect();
    assert_eq!(ids, vec![1, 2]);
}

#[test]
fn order_alerts_puts_advisory_first() {
    let alerts = vec![alert(1, "SPY", AlertKind::Defense, AlertSeverity::Critical)];
    let advisory = alert(-1, "VIX", AlertKind::Warning, AlertSeverity::Info);
    let ordered = order_alerts(alerts, Some(advisory));
    assert_eq!(ordered.len(), 2);
    assert_eq!(ordered[0].ticker, "VIX");
    assert_eq!(ordered[1].trade_id, 1);
}

#[test]
fn order_alerts_all_clear_when_nothing() {
    let ordered = order_alerts(Vec::new(), None);
    assert_eq!(ordered.len(), 1);
    let a = &ordered[0];
    assert_eq!(a.trade_id, -1);
    assert_eq!(a.ticker, "—");
    assert_eq!(a.strategy_badge, "—");
    assert_eq!(a.kind, AlertKind::AllClear);
    assert_eq!(a.severity, AlertSeverity::AllClear);
    assert_eq!(a.headline, "All clear — no actions required today.");
    assert!(a.detail.is_none());
}

#[test]
fn sorts_before_compares_severity_then_ticker() {
    let a = alert(1, "AAPL", AlertKind::Roll, AlertSeverity::Info);
    let b = alert(2, "MSFT", AlertKind::Roll, AlertSeverity::Info);
    let c = alert(3, "ZZZ", AlertKind::Defense, AlertSeverity::Critical);
    assert!(sorts_before(&a, &b));
    assert!(!sorts_before(&b, &a));
    assert!(sorts_before(&c, &a));
    assert!(!sorts_before(&a, &a));
}

#[test]
fn tested_position_raises_only_defense() {
    let mut f = quiet_facts("SPY", StrategyType::IronCondor);
    f.tested = true;
    f.dte = 0;
    f.roll_count = 5;
    let planned = plan_trade_alerts(&[f]);
    assert_eq!(cases(&planned), vec![(0, AlertCase::TestedDefense)]);
    assert_eq!(AlertCase::TestedDefense.kind(), AlertKind::Defense);
    assert_eq!(AlertCase::TestedDefense.severity(), AlertSeverity::Critical);
}

#[test]
fn expiry_today_raises_defense() {
    let mut f = quiet_facts("SPY", StrategyType::LongCallVertical);
    f.dte = 0;
    let planned = plan_trade_alerts(&[f]);
    assert_eq!(cases(&planned), vec![(0, AlertCase::ExpiresToday)]);
}

#[test]
fn max_loss_needs_short_premium_credit_and_legs() {
    let mut f = quiet_facts("SPY", StrategyType::ShortPutVertical);
    f.beyond_max_loss = Some(true);
    assert_eq!(cases(&plan_trade_alerts(&[f.clone()])), vec![(0, AlertCase::MaxLoss)]);
    f.has_legs = false;
    assert_eq!(cases(&plan_trade_alerts(&[f])), vec![]);
}

#[test]
fn final_week_gamma_alerts() {
    let mut f = quiet_facts("SPY", StrategyType::Strangle);
    f.dte = 5;
    f.gamma_elevated = Some(true);
    assert_eq!(cases(&plan_trade_alerts(&[f.clone()])), vec![(0, AlertCase::GammaSpike)]);
    f.gamma_elevated = None;
    assert_eq!(cases(&plan_trade_alerts(&[f.clone()])), vec![(0, AlertCase::FinalWeek)]);
    f.gamma_elevated = Some(false);
    assert_eq!(cases(&plan_trade_alerts(&[f])), vec![(0, AlertCase::RollWindow)]);
}

#[test]
fn earnings_alerts() {
    let mut f = quiet_facts("AAPL", StrategyType::CashSecuredPut);
    f.days_to_earnings = Some(1);
    assert_eq!(cases(&plan_trade_alerts(&[f.clone()])), vec![(0, AlertCase::EarningsImminent)]);
    f.days_to_earnings = Some(4);
    f.at_profit_target = true;
    assert_eq!(
        cases(&plan_trade_alerts(&[f.clone()])),
        vec![(0, AlertCase::EarningsSoon), (0, AlertCase::ProfitTarget)]
    );
    f.strategy = StrategyType::LongCallVertical;
    f.at_profit_target = false;
    assert_eq!(cases(&plan_trade_alerts(&[f])), vec![]);
}

#[test]
fn iv_stall_and_windows() {
    let mut f = quiet_facts("SPY", StrategyType::IronCondor);
    f.iv_stall_candidate = true;
    f.days_held = 14;
    assert_eq!(cases(&plan_trade_alerts(&[f.clone()])), vec![(0, AlertCase::IvCrushStall)]);
    f.iv_stall_candidate = false;
    f.dte = 21;
    assert_eq!(cases(&plan_trade_alerts(&[f.clone()])), vec![(0, AlertCase::RollWindow)]);
    f.credit_positive = false;
    assert_eq!(cases(&plan_trade_alerts(&[f])), vec![(0, AlertCase::ManageWindow)]);
}

#[test]
fn sizing_reported_once_per_ticker() {
    let mut a = quiet_facts("NVDA", StrategyType::ShortPutVertical);
    a.ticker_oversized = true;
    let mut b = a.clone();
    b.roll_count = 3;
    let c = quiet_facts("AMD", StrategyType::ShortPutVertical);
    let planned = plan_trade_alerts(&[a, b, c]);
    assert_eq!(
        cases(&planned),
        vec![(0, AlertCase::Oversized), (1, AlertCase::LongRollChain)]
    );
    assert_eq!(AlertCase::Oversized.kind(), AlertKind::Sizing);
    assert_eq!(AlertCase::LongRollChain.severity(), AlertSeverity::Medium);
}

#[test]
fn short_premium_strategies() {
    assert!(is_short_premium(&StrategyType::IronCondor));
    assert!(is_short_premium(&StrategyType::ShortDiagonalSpread));
    assert!(!is_short_premium(&StrategyType::Pmcc));
    assert!(!is_short_premium(&StrategyType::LongPutVertical));
    assert!(!is_short_premium(&StrategyType::Custom));
}

#[test]
fn sectors_of_tickers() {
    assert_eq!(get_sector("NVDA"), "Semis");
    assert_eq!(get_sector("AAPL"), "Tech");
    assert_eq!(get_sector("TSLA"), "Consumer Disc");
    assert_eq!(get_sector("JPM"), "Financials");
    assert_eq!(get_sector("XOM"), "Energy");
    assert_eq!(get_sector("SPY"), "Index ETF");
    assert_eq!(get_sector("GLD"), "Commodities");
    assert_eq!(get_sector("ZZZZ"), "Other");
    assert_eq!(get_sector("nvda"), "Other");
}

#[test]
fn folding_more_kinds_only_hides_alert_rows() {
    let alerts = vec![
        alert(1, "A", AlertKind::Roll, AlertSeverity::Info),
        alert(2, "B", AlertKind::Close, AlertSeverity::Low),
        alert(3, "C", AlertKind::Roll, AlertSeverity::Info),
        alert(4, "D", AlertKind::MaxLoss, AlertSeverity::High),
    ];
    let describe = |rows: &[ActionRow]| -> (Vec<(AlertKind, usize)>, Vec<i32>) {
        let mut headers = Vec::new();
        let mut shown = Vec::new();
        for r in rows {
            match r {
                ActionRow::GroupHeader { kind, count } => headers.push((*kind, *count)),
                ActionRow::Alert(a) => shown.push(a.trade_id),
            }
        }
        (headers, shown)
    };
    let (h1, s1) = describe(&build_action_rows(&alerts, &[AlertKind::Close]));
    let (h2, s2) = describe(&build_action_rows(&alerts, &[AlertKind::Close, AlertKind::Roll]));
    assert_eq!(h1, h2);
    assert_eq!(s1, vec![4, 1, 3]);
    assert_eq!(s2, vec![4]);
    let r1 = build_action_rows(&alerts, &[AlertKind::Close]);
    let r2 = build_action_rows(&alerts, &[AlertKind::Close, AlertKind::Roll]);
    // Two Roll alerts are newly folded.
    assert_eq!(r1.len() - r2.len(), 2);
}
