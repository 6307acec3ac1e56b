use vstd::prelude::*;
use crate::models::StrategyType;

verus! {

// ─────────────────────────────── severity and kind ───────────────────────────────

/// Urgency of an alert; earlier variants are more urgent and sort first.
#[derive(Debug, Clone, Copy, PartialEq, Eq, PartialOrd, Ord, Hash, Structural)]
pub enum AlertSeverity {
    Critical,
    High,
    Medium,
    Low,
    Info,
    AllClear,
}

/// Sort rank of a severity: 0 for `Critical` up to 5 for `AllClear`.
pub open spec fn severity_rank(s: AlertSeverity) -> nat {
    match s {
        AlertSeverity::Critical => 0,
        AlertSeverity::High => 1,
        AlertSeverity::Medium => 2,
        AlertSeverity::Low => 3,
        AlertSeverity::Info => 4,
        AlertSeverity::AllClear => 5,
    }
}

impl AlertSeverity {
    /// Sort rank: 0 for `Critical` up to 5 for `AllClear`.
    pub fn rank(&self) -> (r: u8)
        ensures
            r as nat == severity_rank(*self),
    {
        match self {
            AlertSeverity::Critical => 0,
            AlertSeverity::High => 1,
            AlertSeverity::Medium => 2,
            AlertSeverity::Low => 3,
            AlertSeverity::Info => 4,
            AlertSeverity::AllClear => 5,
        }
    }
}

/// The action category shown to the user.
#[derive(Debug, Clone, Copy, PartialEq, Eq, Hash, Structural)]
pub enum AlertKind {
    Defense,
    MaxLoss,
    GammaRisk,
    Warning,
    DeltaExtreme,
    UndefinedDrift,
    Drawdown,
    RollChain,
    Manage,
    Close,
    Roll,
    Sizing,
    AllClear,
}

/// Fixed-width badge of an alert kind.
pub open spec fn kind_badge(k: AlertKind) -> Seq<char> {
    match k {
        AlertKind::Defense => "DEFENSE"@,
        AlertKind::MaxLoss => "MAXLOSS"@,
        AlertKind::GammaRisk => "GAMMA  "@,
        AlertKind::Warning => "WARNING"@,
        AlertKind::DeltaExtreme => "ΔEXTREM"@,
        AlertKind::UndefinedDrift => "DRIFT  "@,
        AlertKind::Drawdown => "DRAWDWN"@,
        AlertKind::RollChain => "ROLLS  "@,
        AlertKind::Manage => "MANAGE "@,
        AlertKind::Close => "CLOSE  "@,
        AlertKind::Roll => "ROLL   "@,
        AlertKind::Sizing => "SIZING "@,
        AlertKind::AllClear => "OK     "@,
    }
}

/// Position of a kind in the canonical display order.
pub open spec fn kind_order(k: AlertKind) -> nat {
    match k {
        AlertKind::Defense => 0,
        AlertKind::MaxLoss => 1,
        AlertKind::GammaRisk => 2,
        AlertKind::Warning => 3,
        AlertKind::DeltaExtreme => 4,
        AlertKind::UndefinedDrift => 5,
        AlertKind::Drawdown => 6,
        AlertKind::RollChain => 7,
        AlertKind::Manage => 8,
        AlertKind::Close => 9,
        AlertKind::Roll => 10,
        AlertKind::Sizing => 11,
        AlertKind::AllClear => 12,
    }
}

/// Every kind, in canonical display order.
pub open spec fn kinds_in_order() -> Seq<AlertKind> {
    seq![
        AlertKind::Defense,
        AlertKind::MaxLoss,
        AlertKind::GammaRisk,
        AlertKind::Warning,
        AlertKind::DeltaExtreme,
        AlertKind::UndefinedDrift,
        AlertKind::Drawdown,
        AlertKind::RollChain,
        AlertKind::Manage,
        AlertKind::Close,
        AlertKind::Roll,
        AlertKind::Sizing,
        AlertKind::AllClear,
    ]
}

impl AlertKind {
    /// Fixed-width badge shown in the alert list.
    pub fn badge(&self) -> (r: &'static str)
        ensures
            r@ == kind_badge(*self),
    {
        match self {
            AlertKind::Defense => "DEFENSE",
            AlertKind::MaxLoss => "MAXLOSS",
            AlertKind::GammaRisk => "GAMMA  ",
            AlertKind::Warning => "WARNING",
            AlertKind::DeltaExtreme => "ΔEXTREM",
            AlertKind::UndefinedDrift => "DRIFT  ",
            AlertKind::Drawdown => "DRAWDWN",
            AlertKind::RollChain => "ROLLS  ",
            AlertKind::Manage => "MANAGE ",
            AlertKind::Close => "CLOSE  ",
            AlertKind::Roll => "ROLL   ",
            AlertKind::Sizing => "SIZING ",
            AlertKind::AllClear => "OK     ",
        }
    }

    /// Canonical display order for grouping.
    pub fn order(&self) -> (r: u8)
        ensures
            r as nat == kind_order(*self),
    {
        match self {
            AlertKind::Defense => 0,
            AlertKind::MaxLoss => 1,
            AlertKind::GammaRisk => 2,
            AlertKind::Warning => 3,
            AlertKind::DeltaExtreme => 4,
            AlertKind::UndefinedDrift => 5,
            AlertKind::Drawdown => 6,
            AlertKind::RollChain => 7,
            AlertKind::Manage => 8,
            AlertKind::Close => 9,
            AlertKind::Roll => 10,
            AlertKind::Sizing => 11,
            AlertKind::AllClear => 12,
        }
    }
}

/// The kinds in canonical display order.
pub fn alert_kinds_in_order() -> (v: Vec<AlertKind>)
    ensures
        v@ == kinds_in_order(),
{
    vec![
        AlertKind::Defense,
        AlertKind::MaxLoss,
        AlertKind::GammaRisk,
        AlertKind::Warning,
        AlertKind::DeltaExtreme,
        AlertKind::UndefinedDrift,
        AlertKind::Drawdown,
        AlertKind::RollChain,
        AlertKind::Manage,
        AlertKind::Close,
        AlertKind::Roll,
        AlertKind::Sizing,
        AlertKind::AllClear,
    ]
}

// ─────────────────────────────── alerts and rows ───────────────────────────────

/// One actionable alert for a trade or for the whole portfolio
/// (`trade_id` is -1 for portfolio-level alerts).
#[derive(Debug, Clone)]
pub struct TradeAlert {
    pub trade_id: i32,
    pub ticker: String,
    pub strategy_badge: String,
    pub kind: AlertKind,
    pub severity: AlertSeverity,
    pub headline: String,
    pub detail: Option<String>,
}

/// A row in the collapsible Actions list: a group header or an alert.
#[derive(Debug, Clone)]
pub enum ActionRow {
    GroupHeader { kind: AlertKind, count: usize },
    Alert(TradeAlert),
}

/// An exact copy of an alert.
pub fn copy_alert(a: &TradeAlert) -> (r: TradeAlert)
    ensures
        r == *a,
{
    let detail = match &a.detail {
        Some(d) => Some(d.clone()),
        None => None,
    };
    TradeAlert {
        trade_id: a.trade_id,
        ticker: a.ticker.clone(),
        strategy_badge: a.strategy_badge.clone(),
        kind: a.kind,
        severity: a.severity,
        headline: a.headline.clone(),
        detail,
    }
}

/// The alerts of kind `k`, in the order given.
pub open spec fn alerts_of_kind(alerts: Seq<TradeAlert>, k: AlertKind) -> Seq<TradeAlert>
    decreases alerts.len(),
{
    if alerts.len() == 0 {
        Seq::empty()
    } else {
        let prev = alerts_of_kind(alerts.drop_last(), k);
        if alerts.last().kind == k { prev.push(alerts.last()) } else { prev }
    }
}

/// The rows of one group: nothing when no alert has the kind; otherwise a
/// header with the group's size, followed by its alerts unless collapsed.
pub open spec fn group_rows(alerts: Seq<TradeAlert>, k: AlertKind, collapsed: bool) -> Seq<ActionRow> {
    let g = alerts_of_kind(alerts, k);
    if g.len() == 0 {
        Seq::empty()
    } else {
        seq![ActionRow::GroupHeader { kind: k, count: g.len() as usize }] + (if collapsed {
            Seq::empty()
        } else {
            g.map_values(|a: TradeAlert| ActionRow::Alert(a))
        })
    }
}

/// The rows of the groups for `kinds`, in that order.
pub open spec fn rows_for_kinds(
    alerts: Seq<TradeAlert>,
    collapsed: Seq<AlertKind>,
    kinds: Seq<AlertKind>,
) -> Seq<ActionRow>
    decreases kinds.len(),
{
    if kinds.len() == 0 {
        Seq::empty()
    } else {
        rows_for_kinds(alerts, collapsed, kinds.drop_last())
            + group_rows(alerts, kinds.last(), collapsed.contains(kinds.last()))
    }
}

fn kind_in(kinds: &[AlertKind], k: AlertKind) -> (r: bool)
    ensures
        r == kinds@.contains(k),
{
    let mut i: usize = 0;
    while i < kinds.len()
        invariant
            i <= kinds@.len(),
            forall|j: int| 0 <= j < i ==> kinds@[j] != k,
        decreases kinds@.len() - i,
    {
        if kinds[i] == k {
            assert(kinds@[i as int] == k);
            return true;
        }
        i = i + 1;
    }
    false
}

fn collect_kind(alerts: &[TradeAlert], k: AlertKind) -> (g: Vec<TradeAlert>)
    ensures
        g@ == alerts_of_kind(alerts@, k),
{
    let mut g: Vec<TradeAlert> = Vec::new();
    let mut i: usize = 0;
    while i < alerts.len()
        invariant
            i <= alerts@.len(),
            g@ == alerts_of_kind(alerts@.take(i as int), k),
        decreases alerts@.len() - i,
    {
        proof {
            let t = alerts@.take(i + 1);
            assert(t.drop_last() =~= alerts@.take(i as int));
            assert(t.last() == alerts@[i as int]);
        }
        if alerts[i].kind == k {
            g.push(copy_alert(&alerts[i]));
        }
        i = i + 1;
    }
    proof {
        assert(alerts@.take(i as int) =~= alerts@);
    }
    g
}

/// Builds the visible rows of the Actions list: groups in canonical kind
/// order, each with a header counting its alerts, and the alerts themselves
/// unless the group is collapsed; kinds without alerts show nothing.
pub fn build_action_rows(alerts: &[TradeAlert], collapsed: &[AlertKind]) -> (rows: Vec<ActionRow>)
    ensures
        rows@ == rows_for_kinds(alerts@, collapsed@, kinds_in_order()),
{
    let order = alert_kinds_in_order();
    let mut rows: Vec<ActionRow> = Vec::new();
    let mut k: usize = 0;
    while k < order.len()
        invariant
            order@ == kinds_in_order(),
            k <= order@.len(),
            rows@ == rows_for_kinds(alerts@, collapsed@, order@.take(k as int)),
        decreases order@.len() - k,
    {
        let kind = order[k];
        let group = collect_kind(alerts, kind);
        let ghost before = rows@;
        let ghost is_collapsed = collapsed@.contains(kind);
        if group.len() > 0 {
            rows.push(ActionRow::GroupHeader { kind, count: group.len() });
            if !kind_in(collapsed, kind) {
                let mut j: usize = 0;
                while j < group.len()
                    invariant
                        j <= group@.len(),
                        rows@ == before + seq![ActionRow::GroupHeader { kind, count: group@.len() as usize }]
                            + group@.take(j as int).map_values(|a: TradeAlert| ActionRow::Alert(a)),
                    decreases group@.len() - j,
                {
                    rows.push(ActionRow::Alert(copy_alert(&group[j])));
                    proof {
                        assert(group@.take(j + 1).map_values(|a: TradeAlert| ActionRow::Alert(a))
                            =~= group@.take(j as int).map_values(|a: TradeAlert| ActionRow::Alert(a)).push(
                            ActionRow::Alert(group@[j as int])));
                    }
                    j = j + 1;
                }
                proof {
                    assert(group@.take(j as int) =~= group@);
                }
            }
        }
        proof {
            let tk1 = order@.take(k + 1);
            assert(tk1.drop_last() =~= order@.take(k as int));
            assert(tk1.last() == kind);
            let gr = group_rows(alerts@, kind, is_collapsed);
            assert(rows@ =~= before + gr);
        }
        k = k + 1;
    }
    proof {
        assert(order@.take(k as int) =~= order@);
    }
    rows
}


// ─────────────────────────────── per-trade alert rules ───────────────────────────────

/// What the alert rules read about one open trade. The price-based facts are
/// measured by the caller: `beyond_max_loss` is `None` without a live price,
/// `gamma_elevated` is `None` when no gamma was recorded.
#[derive(Debug, Clone)]
pub struct TradeAlertFacts {
    pub ticker: String,
    pub strategy: StrategyType,
    /// Stored "tested" flag, or the live price is beyond a short strike.
    pub tested: bool,
    /// Whole calendar days left to expiration, clamped at 0.
    pub dte: i64,
    pub credit_positive: bool,
    pub has_legs: bool,
    /// At the live price the expiry payoff is below a loss of twice the credit.
    pub beyond_max_loss: Option<bool>,
    /// The recorded gamma's magnitude exceeds 0.02.
    pub gamma_elevated: Option<bool>,
    /// Days from today to the next earnings date, if one is known.
    pub days_to_earnings: Option<i64>,
    /// The estimated share of max profit has reached the profit target.
    pub at_profit_target: bool,
    /// Entered at IV rank 25 or more and still under 25% of max profit.
    pub iv_stall_candidate: bool,
    /// Whole days since the trade date, clamped at 0.
    pub days_held: i64,
    /// The ticker's total open BPR exceeds 10% of the account.
    pub ticker_oversized: bool,
    pub roll_count: i32,
}

/// The reason behind one per-trade alert.
#[derive(Debug, Clone, Copy, PartialEq, Eq, Structural)]
pub enum AlertCase {
    /// Live price beyond a short strike, or the position is flagged tested.
    TestedDefense,
    /// Expires today.
    ExpiresToday,
    /// Down more than twice the credit received.
    MaxLoss,
    /// Final week with a large recorded gamma.
    GammaSpike,
    /// Final week with no gamma recorded.
    FinalWeek,
    /// Earnings within two days while short premium.
    EarningsImminent,
    /// Earnings three to five days out while short premium.
    EarningsSoon,
    /// Estimated profit has reached the target.
    ProfitTarget,
    /// High-IV entry that has stalled for two weeks.
    IvCrushStall,
    /// 21 DTE window on a credit position: roll.
    RollWindow,
    /// 21 DTE window on a debit position: manage.
    ManageWindow,
    /// First open position of an oversized ticker.
    Oversized,
    /// Rolled three or more times.
    LongRollChain,
}

/// The alert kind a case is filed under.
pub open spec fn case_kind(c: AlertCase) -> AlertKind {
    match c {
        AlertCase::TestedDefense => AlertKind::Defense,
        AlertCase::ExpiresToday => AlertKind::Defense,
        AlertCase::MaxLoss => AlertKind::MaxLoss,
        AlertCase::GammaSpike => AlertKind::GammaRisk,
        AlertCase::FinalWeek => AlertKind::GammaRisk,
        AlertCase::EarningsImminent => AlertKind::Warning,
        AlertCase::EarningsSoon => AlertKind::Warning,
        AlertCase::ProfitTarget => AlertKind::Close,
        AlertCase::IvCrushStall => AlertKind::Manage,
        AlertCase::RollWindow => AlertKind::Roll,
        AlertCase::ManageWindow => AlertKind::Manage,
        AlertCase::Oversized => AlertKind::Sizing,
        AlertCase::LongRollChain => AlertKind::RollChain,
    }
}

/// The severity a case is raised with.
pub open spec fn case_severity(c: AlertCase) -> AlertSeverity {
    match c {
        AlertCase::TestedDefense => AlertSeverity::Critical,
        AlertCase::ExpiresToday => AlertSeverity::Critical,
        AlertCase::MaxLoss => AlertSeverity::High,
        AlertCase::GammaSpike => AlertSeverity::High,
        AlertCase::FinalWeek => AlertSeverity::High,
        AlertCase::EarningsImminent => AlertSeverity::High,
        AlertCase::EarningsSoon => AlertSeverity::High,
        AlertCase::ProfitTarget => AlertSeverity::Low,
        AlertCase::IvCrushStall => AlertSeverity::Medium,
        AlertCase::RollWindow => AlertSeverity::Info,
        AlertCase::ManageWindow => AlertSeverity::Medium,
        AlertCase::Oversized => AlertSeverity::Info,
        AlertCase::LongRollChain => AlertSeverity::Medium,
    }
}

impl AlertCase {
    /// The alert kind this case is filed under.
    pub fn kind(&self) -> (r: AlertKind)
        ensures
            r == case_kind(*self),
    {
        match self {
            AlertCase::TestedDefense => AlertKind::Defense,
            AlertCase::ExpiresToday => AlertKind::Defense,
            AlertCase::MaxLoss => AlertKind::MaxLoss,
            AlertCase::GammaSpike => AlertKind::GammaRisk,
            AlertCase::FinalWeek => AlertKind::GammaRisk,
            AlertCase::EarningsImminent => AlertKind::Warning,
            AlertCase::EarningsSoon => AlertKind::Warning,
            AlertCase::ProfitTarget => AlertKind::Close,
            AlertCase::IvCrushStall => AlertKind::Manage,
            AlertCase::RollWindow => AlertKind::Roll,
            AlertCase::ManageWindow => AlertKind::Manage,
            AlertCase::Oversized => AlertKind::Sizing,
            AlertCase::LongRollChain => AlertKind::RollChain,
        }
    }

    /// The severity this case is raised with.
    pub fn severity(&self) -> (r: AlertSeverity)
        ensures
            r == case_severity(*self),
    {
        match self {
            AlertCase::TestedDefense => AlertSeverity::Critical,
            AlertCase::ExpiresToday => AlertSeverity::Critical,
            AlertCase::MaxLoss => AlertSeverity::High,
            AlertCase::GammaSpike => AlertSeverity::High,
            AlertCase::FinalWeek => AlertSeverity::High,
            AlertCase::EarningsImminent => AlertSeverity::High,
            AlertCase::EarningsSoon => AlertSeverity::High,
            AlertCase::ProfitTarget => AlertSeverity::Low,
            AlertCase::IvCrushStall => AlertSeverity::Medium,
            AlertCase::RollWindow => AlertSeverity::Info,
            AlertCase::ManageWindow => AlertSeverity::Medium,
            AlertCase::Oversized => AlertSeverity::Info,
            AlertCase::LongRollChain => AlertSeverity::Medium,
        }
    }
}

/// The alerts a trade raises once none of the exclusive ones applied:
/// profit target, IV-crush stall and the 21 DTE window are exclusive in that
/// order; otherwise an oversized ticker and a long roll chain may both fire.
pub open spec fn later_cases(f: TradeAlertFacts, sizing_due: bool) -> Seq<AlertCase> {
    let sp = short_premium(f.strategy);
    if f.at_profit_target && sp && f.credit_positive {
        seq![AlertCase::ProfitTarget]
    } else if f.iv_stall_candidate && f.days_held >= 14 && sp {
        seq![AlertCase::IvCrushStall]
    } else if 0 < f.dte <= 21 {
        if f.credit_positive { seq![AlertCase::RollWindow] } else { seq![AlertCase::ManageWindow] }
    } else {
        (if sizing_due { seq![AlertCase::Oversized] } else { Seq::empty() })
            + (if f.roll_count >= 3 { seq![AlertCase::LongRollChain] } else { Seq::empty() })
    }
}

/// The alerts one open trade raises, in the order of the rules. A tested
/// position, expiry today, a blown max loss, final-week gamma and imminent
/// earnings each raise one alert that excludes every later rule.
/// `sizing_due` says the ticker is oversized and not yet reported.
pub open spec fn trade_cases(f: TradeAlertFacts, sizing_due: bool) -> Seq<AlertCase> {
    let sp = short_premium(f.strategy);
    if f.tested {
        seq![AlertCase::TestedDefense]
    } else if f.dte == 0 {
        seq![AlertCase::ExpiresToday]
    } else if sp && f.credit_positive && f.has_legs && f.beyond_max_loss == Some(true) {
        seq![AlertCase::MaxLoss]
    } else if 0 < f.dte <= 7 && sp && f.gamma_elevated != Some(false) {
        if f.gamma_elevated == Some(true) { seq![AlertCase::GammaSpike] } else { seq![AlertCase::FinalWeek] }
    } else if sp && (f.days_to_earnings matches Some(d) && 0 <= d <= 2) {
        seq![AlertCase::EarningsImminent]
    } else {
        (if sp && (f.days_to_earnings matches Some(d) && 3 <= d <= 5) {
            seq![AlertCase::EarningsSoon]
        } else {
            Seq::empty()
        }) + later_cases(f, sizing_due)
    }
}

/// One planned per-trade alert: the index of the trade and why it fires.
#[derive(Debug, Clone, Copy, PartialEq, Eq, Structural)]
pub struct PlannedAlert {
    pub trade: usize,
    pub case: AlertCase,
}

/// Alerts planned for the trades `facts`, in trade order, with the tickers
/// already reported as oversized. A ticker's sizing alert goes with its first
/// trade that reaches the sizing rule.
pub open spec fn plan_alerts(facts: Seq<TradeAlertFacts>) -> (Seq<PlannedAlert>, Seq<Seq<char>>)
    decreases facts.len(),
{
    if facts.len() == 0 {
        (Seq::empty(), Seq::empty())
    } else {
        let (prev, reported) = plan_alerts(facts.drop_last());
        let f = facts.last();
        let i = (facts.len() - 1) as usize;
        let cases = trade_cases(f, f.ticker_oversized && !reported.contains(f.ticker@));
        let planned = prev + cases.map_values(|c: AlertCase| PlannedAlert { trade: i, case: c });
        let reported2 = if cases.contains(AlertCase::Oversized) { reported.push(f.ticker@) } else { reported };
        (planned, reported2)
    }
}

fn ticker_reported(reported: &Vec<String>, t: &String) -> (r: bool)
    ensures
        r == reported@.map_values(|s: String| s@).contains(t@),
{
    let ghost views = reported@.map_values(|s: String| s@);
    let mut i: usize = 0;
    while i < reported.len()
        invariant
            views == reported@.map_values(|s: String| s@),
            i <= reported@.len(),
            forall|j: int| 0 <= j < i ==> views[j] != t@,
        decreases reported@.len() - i,
    {
        if reported[i] == *t {
            assert(views[i as int] == t@);
            return true;
        }
        i = i + 1;
    }
    false
}

fn trade_cases_exec(f: &TradeAlertFacts, sizing_due: bool) -> (v: Vec<AlertCase>)
    ensures
        v@ == trade_cases(*f, sizing_due),
{
    let sp = is_short_premium(&f.strategy);
    if f.tested {
        return vec![AlertCase::TestedDefense];
    }
    if f.dte == 0 {
        return vec![AlertCase::ExpiresToday];
    }
    if sp && f.credit_positive && f.has_legs && f.beyond_max_loss == Some(true) {
        return vec![AlertCase::MaxLoss];
    }
    if 0 < f.dte && f.dte <= 7 && sp && f.gamma_elevated != Some(false) {
        if f.gamma_elevated == Some(true) {
            return vec![AlertCase::GammaSpike];
        }
        return vec![AlertCase::FinalWeek];
    }
    let mut v: Vec<AlertCase> = Vec::new();
    if sp {
        if let Some(d) = f.days_to_earnings {
            if 0 <= d && d <= 2 {
                return vec![AlertCase::EarningsImminent];
            }
            if 3 <= d && d <= 5 {
                v.push(AlertCase::EarningsSoon);
            }
        }
    }
    let ghost first = v@;
    if f.at_profit_target && sp && f.credit_positive {
        v.push(AlertCase::ProfitTarget);
    } else if f.iv_stall_candidate && f.days_held >= 14 && sp {
        v.push(AlertCase::IvCrushStall);
    } else if 0 < f.dte && f.dte <= 21 {
        if f.credit_positive {
            v.push(AlertCase::RollWindow);
        } else {
            v.push(AlertCase::ManageWindow);
        }
    } else {
        if sizing_due {
            v.push(AlertCase::Oversized);
        }
        if f.roll_count >= 3 {
            v.push(AlertCase::LongRollChain);
        }
    }
    proof {
        assert(v@ =~= first + later_cases(*f, sizing_due));
    }
    v
}

/// Plans the per-trade alerts for the open trades described by `facts`,
/// applying the rules to each trade in order and reporting each oversized
/// ticker once.
pub fn plan_trade_alerts(facts: &[TradeAlertFacts]) -> (planned: Vec<PlannedAlert>)
    ensures
        planned@ == plan_alerts(facts@).0,
        sizing_once_per_ticker(facts@, planned@),
{
    let mut planned: Vec<PlannedAlert> = Vec::new();
    let mut reported: Vec<String> = Vec::new();
    let mut i: usize = 0;
    while i < facts.len()
        invariant
            i <= facts@.len(),
            planned@ == plan_alerts(facts@.take(i as int)).0,
            reported@.map_values(|s: String| s@) == plan_alerts(facts@.take(i as int)).1,
        decreases facts@.len() - i,
    {
        let f = &facts[i];
        let sizing_due = f.ticker_oversized && !ticker_reported(&reported, &f.ticker);
        let cases = trade_cases_exec(f, sizing_due);
        let ghost before = planned@;
        let ghost reported_before = reported@.map_values(|s: String| s@);
        let mut oversized = false;
        let mut j: usize = 0;
        while j < cases.len()
            invariant
                j <= cases@.len(),
                planned@ == before + cases@.take(j as int).map_values(|c: AlertCase| PlannedAlert { trade: i, case: c }),
                oversized == cases@.take(j as int).contains(AlertCase::Oversized),
            decreases cases@.len() - j,
        {
            let c = cases[j];
            planned.push(PlannedAlert { trade: i, case: c });
            proof {
                let tj1 = cases@.take(j + 1);
                assert(tj1 =~= cases@.take(j as int).push(c));
                assert(tj1.map_values(|c: AlertCase| PlannedAlert { trade: i, case: c })
                    =~= cases@.take(j as int).map_values(|c: AlertCase| PlannedAlert { trade: i, case: c })
                    .push(PlannedAlert { trade: i, case: c }));
                if c == AlertCase::Oversized {
                    assert(tj1[j as int] == c);
                }
                if cases@.take(j as int).contains(AlertCase::Oversized) {
                    let w = choose|w: int| 0 <= w < j && #[trigger] cases@.take(j as int)[w] == AlertCase::Oversized;
                    assert(tj1[w] == AlertCase::Oversized);
                }
                if tj1.contains(AlertCase::Oversized) {
                    let w = choose|w: int| 0 <= w < j + 1 && #[trigger] tj1[w] == AlertCase::Oversized;
                    if w < j {
                        assert(cases@.take(j as int)[w] == AlertCase::Oversized);
                    }
                }
            }
            if c == AlertCase::Oversized {
                oversized = true;
            }
            j = j + 1;
        }
        proof {
            assert(cases@.take(j as int) =~= cases@);
        }
        if oversized {
            reported.push(f.ticker.clone());
            proof {
                assert(reported@.map_values(|s: String| s@) =~= reported_before.push(f.ticker@));
            }
        }
        proof {
            let t1 = facts@.take(i + 1);
            assert(t1.drop_last() =~= facts@.take(i as int));
            assert(t1.last() == facts@[i as int]);
        }
        i = i + 1;
    }
    proof {
        assert(facts@.take(i as int) =~= facts@);
        lemma_sizing_alert_once_per_ticker(facts@);
    }
    planned
}

/// Whether no two sizing alerts of `planned` go to trades of the same ticker.
pub open spec fn sizing_once_per_ticker(facts: Seq<TradeAlertFacts>, planned: Seq<PlannedAlert>) -> bool {
    forall|a: int, b: int|
        #![trigger planned[a], planned[b]]
        0 <= a < b < planned.len() && planned[a].case == AlertCase::Oversized && planned[b].case == AlertCase::Oversized
            ==> facts[planned[a].trade as int].ticker@ != facts[planned[b].trade as int].ticker@
}

proof fn lemma_sizing_case_needs_due(f: TradeAlertFacts, sizing_due: bool)
    ensures
        forall|k: int| 0 <= k < trade_cases(f, sizing_due).len() && #[trigger] trade_cases(f, sizing_due)[k] == AlertCase::Oversized
            ==> sizing_due,
        forall|a: int, b: int| #![trigger trade_cases(f, sizing_due)[a], trade_cases(f, sizing_due)[b]]
            0 <= a < b < trade_cases(f, sizing_due).len()
            ==> !(trade_cases(f, sizing_due)[a] == AlertCase::Oversized && trade_cases(f, sizing_due)[b] == AlertCase::Oversized),
{
    let sp = short_premium(f.strategy);
    let early: Seq<AlertCase> = if sp && (f.days_to_earnings matches Some(d) && 3 <= d <= 5) {
        seq![AlertCase::EarningsSoon]
    } else {
        Seq::empty()
    };
    let sizing: Seq<AlertCase> = if sizing_due { seq![AlertCase::Oversized] } else { Seq::empty() };
    let rolls: Seq<AlertCase> = if f.roll_count >= 3 { seq![AlertCase::LongRollChain] } else { Seq::empty() };
    let later = later_cases(f, sizing_due);
    let cases = trade_cases(f, sizing_due);
    if cases.len() > 1 {
        assert(cases == early + later);
        if !(f.at_profit_target && sp && f.credit_positive) && !(f.iv_stall_candidate && f.days_held >= 14 && sp)
            && !(0 < f.dte <= 21)
        {
            assert(later == sizing + rolls);
            assert forall|k: int| 0 <= k < cases.len() && #[trigger] cases[k] == AlertCase::Oversized implies sizing_due by {
                if k < early.len() {
                    assert(cases[k] == early[k]);
                } else if k < early.len() + sizing.len() {
                    assert(cases[k] == sizing[k - early.len()]);
                } else {
                    assert(cases[k] == rolls[k - early.len() - sizing.len()]);
                }
            }
            assert forall|a: int, b: int| #![trigger cases[a], cases[b]] 0 <= a < b < cases.len()
                implies !(cases[a] == AlertCase::Oversized && cases[b] == AlertCase::Oversized) by {
                if cases[a] == AlertCase::Oversized && cases[b] == AlertCase::Oversized {
                    assert(cases[a] == (early + sizing + rolls)[a]);
                    assert(cases[b] == (early + sizing + rolls)[b]);
                    assert(a >= early.len() && a < early.len() + sizing.len());
                    assert(b >= early.len() && b < early.len() + sizing.len());
                }
            }
        } else {
            assert(later.len() == 1 && later[0] != AlertCase::Oversized);
            assert forall|k: int| 0 <= k < cases.len() implies #[trigger] cases[k] != AlertCase::Oversized by {
                if k < early.len() {
                    assert(cases[k] == early[k]);
                } else {
                    assert(cases[k] == later[k - early.len()]);
                }
            }
        }
    } else if cases.len() == 1 {
        if cases[0] == AlertCase::Oversized {
            assert(cases == early + later);
            assert(early.len() == 0);
            assert(later == sizing + rolls);
        }
    }
}

proof fn lemma_plan_reports(facts: Seq<TradeAlertFacts>)
    requires
        facts.len() <= usize::MAX,
    ensures
        forall|k: int| 0 <= k < plan_alerts(facts).0.len() ==> (#[trigger] plan_alerts(facts).0[k]).trade < facts.len(),
        forall|k: int| 0 <= k < plan_alerts(facts).0.len() && (#[trigger] plan_alerts(facts).0[k]).case == AlertCase::Oversized
            ==> plan_alerts(facts).1.contains(facts[plan_alerts(facts).0[k].trade as int].ticker@),
        sizing_once_per_ticker(facts, plan_alerts(facts).0),
    decreases facts.len(),
{
    if facts.len() > 0 {
        let pf = facts.drop_last();
        lemma_plan_reports(pf);
        let (p0, r0) = plan_alerts(pf);
        let f = facts.last();
        let i = (facts.len() - 1) as usize;
        let sizing_due = f.ticker_oversized && !r0.contains(f.ticker@);
        let cases = trade_cases(f, sizing_due);
        let added = cases.map_values(|c: AlertCase| PlannedAlert { trade: i, case: c });
        let (p, r) = plan_alerts(facts);
        assert(p == p0 + added);
        assert(r == (if cases.contains(AlertCase::Oversized) { r0.push(f.ticker@) } else { r0 }));
        lemma_sizing_case_needs_due(f, sizing_due);
        assert(i as int == pf.len());
        assert forall|k: int| 0 <= k < p.len() implies (#[trigger] p[k]).trade < facts.len() by {
            if k < p0.len() {
                assert(p[k] == p0[k]);
            } else {
                assert(p[k] == added[k - p0.len()]);
            }
        }
        assert forall|k: int| 0 <= k < p.len() && (#[trigger] p[k]).case == AlertCase::Oversized
            implies r.contains(facts[p[k].trade as int].ticker@) by {
            if k < p0.len() {
                assert(p[k] == p0[k]);
                assert(facts[p0[k].trade as int] == pf[p0[k].trade as int]);
                assert(r0.contains(pf[p0[k].trade as int].ticker@));
                if cases.contains(AlertCase::Oversized) {
                    let w = choose|w: int| 0 <= w < r0.len() && r0[w] == pf[p0[k].trade as int].ticker@;
                    assert(r[w] == r0[w]);
                }
            } else {
                let c = k - p0.len();
                assert(p[k] == added[c]);
                assert(cases[c] == AlertCase::Oversized);
                assert(cases.contains(AlertCase::Oversized));
                assert(facts[i as int] == f);
                assert(r[r0.len() as int] == f.ticker@);
            }
        }
        assert forall|a: int, b: int| #![trigger p[a], p[b]]
            0 <= a < b < p.len() && p[a].case == AlertCase::Oversized && p[b].case == AlertCase::Oversized
            implies facts[p[a].trade as int].ticker@ != facts[p[b].trade as int].ticker@ by {
            if b < p0.len() {
                assert(p[a] == p0[a] && p[b] == p0[b]);
                assert(facts[p0[a].trade as int] == pf[p0[a].trade as int]);
                assert(facts[p0[b].trade as int] == pf[p0[b].trade as int]);
            } else if a < p0.len() {
                assert(p[a] == p0[a]);
                assert(facts[p0[a].trade as int] == pf[p0[a].trade as int]);
                assert(r0.contains(pf[p0[a].trade as int].ticker@));
                let c = b - p0.len();
                assert(p[b] == added[c]);
                assert(cases[c] == AlertCase::Oversized);
                assert(sizing_due);
                assert(facts[i as int] == f);
            } else {
                assert(p[a] == added[a - p0.len()] && p[b] == added[b - p0.len()]);
                assert(cases[a - p0.len()] == AlertCase::Oversized && cases[b - p0.len()] == AlertCase::Oversized);
            }
        }
    }
}

/// Each ticker gets at most one sizing alert, however many of its trades
/// are open: the second sizing alert of a ticker is never planned.
pub proof fn lemma_sizing_alert_once_per_ticker(facts: Seq<TradeAlertFacts>)
    requires
        facts.len() <= usize::MAX,
    ensures
        sizing_once_per_ticker(facts, plan_alerts(facts).0),
{
    lemma_plan_reports(facts);
}

/// A tested position, an expiry today, a blown max loss, final-week gamma
/// and imminent earnings each raise exactly one alert for the trade.
pub proof fn lemma_exclusive_alerts(f: TradeAlertFacts, sizing_due: bool)
    ensures
        trade_cases(f, sizing_due).len() >= 1 && (
            trade_cases(f, sizing_due)[0] is TestedDefense
            || trade_cases(f, sizing_due)[0] is ExpiresToday
            || trade_cases(f, sizing_due)[0] is MaxLoss
            || trade_cases(f, sizing_due)[0] is GammaSpike
            || trade_cases(f, sizing_due)[0] is FinalWeek
            || trade_cases(f, sizing_due)[0] is EarningsImminent)
            ==> trade_cases(f, sizing_due).len() == 1,
        f.tested ==> trade_cases(f, sizing_due) == seq![AlertCase::TestedDefense],
        trade_cases(f, sizing_due).len() <= 3,
{
}


/// Whether none of the rules that raise a trade's only alert applies: the
/// trade is not tested, does not expire today, has not blown its max loss,
/// is not in its final week with gamma risk, and has no earnings within two
/// days.
pub open spec fn no_exclusive_alert(f: TradeAlertFacts) -> bool {
    let sp = short_premium(f.strategy);
    &&& !f.tested
    &&& f.dte != 0
    &&& !(sp && f.credit_positive && f.has_legs && f.beyond_max_loss == Some(true))
    &&& !(0 < f.dte <= 7 && sp && f.gamma_elevated != Some(false))
    &&& !(sp && (f.days_to_earnings matches Some(d) && 0 <= d <= 2))
}

/// Whether the trade qualifies for the profit-target alert: short premium,
/// a credit, and the profit target reached.
pub open spec fn profit_target_due(f: TradeAlertFacts) -> bool {
    short_premium(f.strategy) && f.credit_positive && f.at_profit_target
}

/// Whether the trade qualifies for the IV-crush stall alert.
pub open spec fn iv_stall_due(f: TradeAlertFacts) -> bool {
    short_premium(f.strategy) && f.iv_stall_candidate && f.days_held >= 14
}

/// The rules that raise a trade's only alert, in their order: a tested
/// position is defended; otherwise a trade expiring today is defended;
/// otherwise a short-premium credit trade with legs past its max loss gets
/// the max-loss alert; otherwise a short-premium trade in its last seven
/// days gets a gamma alert unless its gamma is known to be low (a spike
/// where it is known high); otherwise a short-premium trade with earnings
/// within two days gets the earnings alert.
pub proof fn lemma_exclusive_rules_in_order(f: TradeAlertFacts, sizing_due: bool)
    ensures
        f.tested ==> trade_cases(f, sizing_due) == seq![AlertCase::TestedDefense],
        !f.tested && f.dte == 0 ==> trade_cases(f, sizing_due) == seq![AlertCase::ExpiresToday],
        !f.tested && f.dte != 0 && short_premium(f.strategy) && f.credit_positive && f.has_legs
            && f.beyond_max_loss == Some(true) ==> trade_cases(f, sizing_due) == seq![AlertCase::MaxLoss],
        !f.tested && 0 < f.dte <= 7 && short_premium(f.strategy)
            && !(f.credit_positive && f.has_legs && f.beyond_max_loss == Some(true))
            && f.gamma_elevated == Some(true) ==> trade_cases(f, sizing_due) == seq![AlertCase::GammaSpike],
        !f.tested && 0 < f.dte <= 7 && short_premium(f.strategy)
            && !(f.credit_positive && f.has_legs && f.beyond_max_loss == Some(true))
            && f.gamma_elevated is None ==> trade_cases(f, sizing_due) == seq![AlertCase::FinalWeek],
        no_exclusive_alert(f) ==> !trade_cases(f, sizing_due).contains(AlertCase::TestedDefense)
            && !trade_cases(f, sizing_due).contains(AlertCase::ExpiresToday)
            && !trade_cases(f, sizing_due).contains(AlertCase::MaxLoss)
            && !trade_cases(f, sizing_due).contains(AlertCase::GammaSpike)
            && !trade_cases(f, sizing_due).contains(AlertCase::FinalWeek)
            && !trade_cases(f, sizing_due).contains(AlertCase::EarningsImminent),
        !f.tested && f.dte > 7 && short_premium(f.strategy)
            && !(f.credit_positive && f.has_legs && f.beyond_max_loss == Some(true))
            && (f.days_to_earnings matches Some(d) && 0 <= d <= 2)
            ==> trade_cases(f, sizing_due) == seq![AlertCase::EarningsImminent],
{
    lemma_case_tail(f, sizing_due);
    if no_exclusive_alert(f) {
        let later = later_cases(f, sizing_due);
        assert forall|c: AlertCase| #[trigger] later.contains(c) implies (c == AlertCase::ProfitTarget
            || c == AlertCase::IvCrushStall || c == AlertCase::RollWindow || c == AlertCase::ManageWindow
            || c == AlertCase::Oversized || c == AlertCase::LongRollChain) by {
            let i = choose|i: int| 0 <= i < later.len() && later[i] == c;
            let sizing: Seq<AlertCase> = if sizing_due { seq![AlertCase::Oversized] } else { Seq::empty() };
            let rolls: Seq<AlertCase> = if f.roll_count >= 3 { seq![AlertCase::LongRollChain] } else { Seq::empty() };
            if !profit_target_due(f) && !iv_stall_due(f) && !(0 < f.dte <= 21) {
                assert(later == sizing + rolls);
                if i < sizing.len() {
                    assert(later[i] == sizing[i]);
                } else {
                    assert(later[i] == rolls[i - sizing.len()]);
                }
            }
        }
    }
}

/// A short-premium trade with a credit that has reached its profit target,
/// and that no exclusive earlier rule catches, is told to close: its alerts
/// end with the profit target and hold no roll, manage, stall, sizing or
/// roll-chain alert, whatever its DTE.
pub proof fn lemma_profit_target_closes(f: TradeAlertFacts, sizing_due: bool)
    requires
        no_exclusive_alert(f),
        profit_target_due(f),
    ensures
        trade_cases(f, sizing_due).len() >= 1,
        trade_cases(f, sizing_due).last() == AlertCase::ProfitTarget,
        !trade_cases(f, sizing_due).contains(AlertCase::RollWindow),
        !trade_cases(f, sizing_due).contains(AlertCase::ManageWindow),
        !trade_cases(f, sizing_due).contains(AlertCase::IvCrushStall),
        !trade_cases(f, sizing_due).contains(AlertCase::Oversized),
        !trade_cases(f, sizing_due).contains(AlertCase::LongRollChain),
{
    lemma_case_tail(f, sizing_due);
}

/// Below the profit target, an IV-crush stall (short premium, held two
/// weeks or more) is reported in place of the 21 DTE window, with no roll,
/// manage, profit, sizing or roll-chain alert.
pub proof fn lemma_iv_stall_before_window(f: TradeAlertFacts, sizing_due: bool)
    requires
        no_exclusive_alert(f),
        !profit_target_due(f),
        iv_stall_due(f),
    ensures
        trade_cases(f, sizing_due).len() >= 1,
        trade_cases(f, sizing_due).last() == AlertCase::IvCrushStall,
        !trade_cases(f, sizing_due).contains(AlertCase::RollWindow),
        !trade_cases(f, sizing_due).contains(AlertCase::ManageWindow),
        !trade_cases(f, sizing_due).contains(AlertCase::ProfitTarget),
        !trade_cases(f, sizing_due).contains(AlertCase::Oversized),
        !trade_cases(f, sizing_due).contains(AlertCase::LongRollChain),
{
    lemma_case_tail(f, sizing_due);
}

/// Within 21 days of expiry, a trade that neither reached its profit target
/// nor stalls is told to roll when it was opened for a credit and to manage
/// it otherwise, and gets no other late alert.
pub proof fn lemma_window_rolls_or_manages(f: TradeAlertFacts, sizing_due: bool)
    requires
        no_exclusive_alert(f),
        !profit_target_due(f),
        !iv_stall_due(f),
        0 < f.dte <= 21,
    ensures
        trade_cases(f, sizing_due).len() >= 1,
        trade_cases(f, sizing_due).last() == (if f.credit_positive { AlertCase::RollWindow } else { AlertCase::ManageWindow }),
        !trade_cases(f, sizing_due).contains(AlertCase::ProfitTarget),
        !trade_cases(f, sizing_due).contains(AlertCase::IvCrushStall),
        !trade_cases(f, sizing_due).contains(AlertCase::Oversized),
        !trade_cases(f, sizing_due).contains(AlertCase::LongRollChain),
{
    lemma_case_tail(f, sizing_due);
}

/// Past the 21 DTE window, with no profit target and no stall, a trade gets
/// a sizing alert exactly when one is due and a roll-chain alert exactly
/// when it was rolled three times or more, and no close, roll or manage
/// alert.
pub proof fn lemma_late_alerts_when_nothing_else(f: TradeAlertFacts, sizing_due: bool)
    requires
        no_exclusive_alert(f),
        !profit_target_due(f),
        !iv_stall_due(f),
        !(0 < f.dte <= 21),
    ensures
        trade_cases(f, sizing_due).contains(AlertCase::Oversized) == sizing_due,
        trade_cases(f, sizing_due).contains(AlertCase::LongRollChain) == (f.roll_count >= 3),
        !trade_cases(f, sizing_due).contains(AlertCase::ProfitTarget),
        !trade_cases(f, sizing_due).contains(AlertCase::IvCrushStall),
        !trade_cases(f, sizing_due).contains(AlertCase::RollWindow),
        !trade_cases(f, sizing_due).contains(AlertCase::ManageWindow),
{
    lemma_case_tail(f, sizing_due);
    let sizing: Seq<AlertCase> = if sizing_due { seq![AlertCase::Oversized] } else { Seq::empty() };
    let rolls: Seq<AlertCase> = if f.roll_count >= 3 { seq![AlertCase::LongRollChain] } else { Seq::empty() };
    let later = later_cases(f, sizing_due);
    assert(later == sizing + rolls);
    if sizing_due {
        assert(later[0] == AlertCase::Oversized);
        assert(later.contains(AlertCase::Oversized));
    }
    if f.roll_count >= 3 {
        assert(later[sizing.len() as int] == AlertCase::LongRollChain);
        assert(later.contains(AlertCase::LongRollChain));
    }
    assert forall|c: AlertCase| #[trigger] later.contains(c) implies
        (c == AlertCase::Oversized && sizing_due) || (c == AlertCase::LongRollChain && f.roll_count >= 3) by {
        let i = choose|i: int| 0 <= i < later.len() && later[i] == c;
        if i < sizing.len() {
            assert(later[i] == sizing[i]);
        } else {
            assert(later[i] == rolls[i - sizing.len()]);
        }
    }
}

/// When no exclusive rule applies, earnings three to five days out on a
/// short-premium trade put a warning first, and nothing else does; a
/// long-premium trade never gets the profit-target or stall alert.
pub proof fn lemma_earnings_soon_first(f: TradeAlertFacts, sizing_due: bool)
    requires
        no_exclusive_alert(f),
    ensures
        trade_cases(f, sizing_due).contains(AlertCase::EarningsSoon)
            == (short_premium(f.strategy) && (f.days_to_earnings matches Some(d) && 3 <= d <= 5)),
        trade_cases(f, sizing_due).contains(AlertCase::EarningsSoon) ==> trade_cases(f, sizing_due)[0] == AlertCase::EarningsSoon,
        !short_premium(f.strategy) ==> !trade_cases(f, sizing_due).contains(AlertCase::ProfitTarget)
            && !trade_cases(f, sizing_due).contains(AlertCase::IvCrushStall),
{
    lemma_case_tail(f, sizing_due);
}

/// The alerts of a trade no exclusive rule catches: the early earnings
/// warning, if any, followed by the later cases.
proof fn lemma_case_tail(f: TradeAlertFacts, sizing_due: bool)
    ensures
        no_exclusive_alert(f) ==> trade_cases(f, sizing_due) == (if short_premium(f.strategy)
            && (f.days_to_earnings matches Some(d) && 3 <= d <= 5) {
            seq![AlertCase::EarningsSoon]
        } else {
            Seq::<AlertCase>::empty()
        }) + later_cases(f, sizing_due),
        forall|c: AlertCase| #[trigger] trade_cases(f, sizing_due).contains(c) && no_exclusive_alert(f) ==> (c == AlertCase::EarningsSoon
            || later_cases(f, sizing_due).contains(c)),
        forall|c: AlertCase| #[trigger] later_cases(f, sizing_due).contains(c) && no_exclusive_alert(f) ==> trade_cases(f, sizing_due).contains(c),
{
    if no_exclusive_alert(f) {
        let sp = short_premium(f.strategy);
        let early: Seq<AlertCase> = if sp && (f.days_to_earnings matches Some(d) && 3 <= d <= 5) {
            seq![AlertCase::EarningsSoon]
        } else {
            Seq::empty()
        };
        let later = later_cases(f, sizing_due);
        let cases = trade_cases(f, sizing_due);
        assert(cases == early + later);
        assert forall|c: AlertCase| #[trigger] cases.contains(c) implies (c == AlertCase::EarningsSoon || later.contains(c)) by {
            let i = choose|i: int| 0 <= i < cases.len() && cases[i] == c;
            if i >= early.len() {
                assert(later[i - early.len()] == c);
            }
        }
        assert forall|c: AlertCase| #[trigger] later.contains(c) implies cases.contains(c) by {
            let i = choose|i: int| 0 <= i < later.len() && later[i] == c;
            assert(cases[i + early.len()] == c);
        }
    }
}

// ─────────────────────────────── alert ordering ───────────────────────────────

/// Character-by-character order of two strings (by Unicode scalar value),
/// a proper prefix coming first.
pub open spec fn chars_less(a: Seq<char>, b: Seq<char>) -> bool
    decreases a.len(),
{
    if a.len() == 0 {
        b.len() > 0
    } else if b.len() == 0 {
        false
    } else if a[0] != b[0] {
        a[0] < b[0]
    } else {
        chars_less(a.drop_first(), b.drop_first())
    }
}

/// Whether alert `a` sorts strictly before `b`: more urgent first, then by ticker.
pub open spec fn alert_before(a: TradeAlert, b: TradeAlert) -> bool {
    severity_rank(a.severity) < severity_rank(b.severity)
        || (severity_rank(a.severity) == severity_rank(b.severity) && chars_less(a.ticker@, b.ticker@))
}

/// `a` placed into `s` after every alert that does not sort after it.
pub open spec fn insert_alert(s: Seq<TradeAlert>, a: TradeAlert) -> Seq<TradeAlert>
    decreases s.len(),
{
    if s.len() == 0 {
        seq![a]
    } else if alert_before(a, s.last()) {
        insert_alert(s.drop_last(), a).push(s.last())
    } else {
        s.push(a)
    }
}

/// Stable sort of alerts by severity, then ticker.
pub open spec fn sort_alerts(s: Seq<TradeAlert>) -> Seq<TradeAlert>
    decreases s.len(),
{
    if s.len() == 0 {
        Seq::empty()
    } else {
        insert_alert(sort_alerts(s.drop_last()), s.last())
    }
}

fn chars_less_exec(a: &[char], b: &[char]) -> (r: bool)
    ensures
        r == chars_less(a@, b@),
{
    let mut i: usize = 0;
    proof {
        assert(a@.skip(0) =~= a@);
        assert(b@.skip(0) =~= b@);
    }
    while i < a.len() && i < b.len()
        invariant
            i <= a@.len(),
            i <= b@.len(),
            a@.take(i as int) == b@.take(i as int),
            chars_less(a@, b@) == chars_less(a@.skip(i as int), b@.skip(i as int)),
        decreases a@.len() - i,
    {
        let x = a[i];
        let y = b[i];
        if x != y {
            proof {
                assert(a@.skip(i as int)[0] == x);
                assert(b@.skip(i as int)[0] == y);
            }
            return x < y;
        }
        proof {
            assert(a@.skip(i as int).drop_first() =~= a@.skip(i + 1));
            assert(b@.skip(i as int).drop_first() =~= b@.skip(i + 1));
            assert(a@.take(i + 1) =~= a@.take(i as int).push(x));
            assert(b@.take(i + 1) =~= b@.take(i as int).push(y));
        }
        i = i + 1;
    }
    i == a.len() && i < b.len()
}

/// Whether `a` sorts strictly before `b`: more urgent first, then by ticker.
pub fn sorts_before(a: &TradeAlert, b: &TradeAlert) -> (r: bool)
    ensures
        r == alert_before(*a, *b),
{
    let ra = a.severity.rank();
    let rb = b.severity.rank();
    if ra != rb {
        return ra < rb;
    }
    let ta = crate::text::chars_of(a.ticker.as_str());
    let tb = crate::text::chars_of(b.ticker.as_str());
    chars_less_exec(ta.as_slice(), tb.as_slice())
}

proof fn lemma_insert_alert_at(s: Seq<TradeAlert>, a: TradeAlert, j: int)
    requires
        0 <= j <= s.len(),
        forall|k: int| j <= k < s.len() ==> alert_before(a, #[trigger] s[k]),
        j > 0 ==> !alert_before(a, s[j - 1]),
    ensures
        insert_alert(s, a) == s.take(j) + seq![a] + s.skip(j),
    decreases s.len(),
{
    if s.len() == 0 {
        assert(s.take(j) + seq![a] + s.skip(j) =~= seq![a]);
    } else if j == s.len() {
        assert(s.take(j) + seq![a] + s.skip(j) =~= s.push(a));
    } else {
        let p = s.drop_last();
        lemma_insert_alert_at(p, a, j);
        assert(s.take(j) + seq![a] + s.skip(j) =~= (p.take(j) + seq![a] + p.skip(j)).push(s.last()));
    }
}


proof fn lemma_chars_less_asym(a: Seq<char>, b: Seq<char>)
    ensures
        chars_less(a, b) ==> !chars_less(b, a),
    decreases a.len(),
{
    if a.len() > 0 && b.len() > 0 && a[0] == b[0] {
        lemma_chars_less_asym(a.drop_first(), b.drop_first());
    }
}

proof fn lemma_chars_less_trans(a: Seq<char>, b: Seq<char>, c: Seq<char>)
    ensures
        chars_less(a, b) && chars_less(b, c) ==> chars_less(a, c),
    decreases a.len(),
{
    if a.len() > 0 && b.len() > 0 && c.len() > 0 {
        lemma_chars_less_trans(a.drop_first(), b.drop_first(), c.drop_first());
    }
}

proof fn lemma_chars_less_total(a: Seq<char>, b: Seq<char>)
    ensures
        a != b ==> chars_less(a, b) || chars_less(b, a),
    decreases a.len(),
{
    if a.len() > 0 && b.len() > 0 {
        if a[0] == b[0] {
            lemma_chars_less_total(a.drop_first(), b.drop_first());
            if a.drop_first() == b.drop_first() {
                assert(a =~= seq![a[0]] + a.drop_first());
                assert(b =~= seq![b[0]] + b.drop_first());
            }
        }
    } else if a.len() == 0 && b.len() == 0 {
        assert(a =~= b);
    }
}

/// "Does not sort after" is transitive.
proof fn lemma_not_before_trans(x: TradeAlert, y: TradeAlert, z: TradeAlert)
    ensures
        !alert_before(y, x) && !alert_before(z, y) ==> !alert_before(z, x),
{
    lemma_chars_less_trans(z.ticker@, y.ticker@, x.ticker@);
    lemma_chars_less_total(x.ticker@, y.ticker@);
    lemma_chars_less_total(y.ticker@, z.ticker@);
    lemma_chars_less_asym(x.ticker@, y.ticker@);
    lemma_chars_less_asym(y.ticker@, z.ticker@);
    lemma_chars_less_trans(x.ticker@, y.ticker@, z.ticker@);
    lemma_chars_less_asym(x.ticker@, z.ticker@);
    lemma_chars_less_total(x.ticker@, z.ticker@);
}

/// No alert of `s` sorts before an alert that precedes it.
pub open spec fn alerts_sorted(s: Seq<TradeAlert>) -> bool {
    forall|i: int, j: int| 0 <= i < j < s.len() ==> !alert_before(#[trigger] s[j], #[trigger] s[i])
}

proof fn lemma_insert_alert_len(s: Seq<TradeAlert>, a: TradeAlert)
    ensures
        insert_alert(s, a).len() == s.len() + 1,
    decreases s.len(),
{
    if s.len() > 0 && alert_before(a, s.last()) {
        lemma_insert_alert_len(s.drop_last(), a);
    }
}

proof fn lemma_insert_alert_multiset(s: Seq<TradeAlert>, a: TradeAlert)
    ensures
        insert_alert(s, a).to_multiset() =~= s.to_multiset().insert(a),
    decreases s.len(),
{
    broadcast use vstd::seq_lib::group_to_multiset_ensures;
    if s.len() == 0 {
        assert(seq![a] =~= Seq::<TradeAlert>::empty().push(a));
    } else if alert_before(a, s.last()) {
        let p = s.drop_last();
        lemma_insert_alert_multiset(p, a);
        assert(s =~= p.push(s.last()));
    }
}

proof fn lemma_insert_alert_sorted(s: Seq<TradeAlert>, a: TradeAlert)
    requires
        alerts_sorted(s),
    ensures
        alerts_sorted(insert_alert(s, a)),
    decreases s.len(),
{
    broadcast use vstd::seq_lib::group_to_multiset_ensures;
    if s.len() == 0 {
    } else if alert_before(a, s.last()) {
        let p = s.drop_last();
        let last = s.last();
        assert(alerts_sorted(p)) by {
            assert forall|i: int, j: int| 0 <= i < j < p.len() implies !alert_before(#[trigger] p[j], #[trigger] p[i]) by {
                assert(p[i] == s[i] && p[j] == s[j]);
            }
        }
        lemma_insert_alert_sorted(p, a);
        lemma_insert_alert_multiset(p, a);
        let q = insert_alert(p, a);
        let r = q.push(last);
        assert forall|i: int, j: int| 0 <= i < j < r.len() implies !alert_before(#[trigger] r[j], #[trigger] r[i]) by {
            if j == r.len() - 1 {
                assert(r[j] == last);
                assert(q.contains(r[i])) by {
                    assert(q[i] == r[i]);
                }
                assert(q.to_multiset().count(r[i]) > 0);
                if r[i] == a {
                    lemma_chars_less_asym(a.ticker@, last.ticker@);
                } else {
                    assert(p.to_multiset().count(r[i]) > 0);
                    assert(p.contains(r[i]));
                    let k = choose|k: int| 0 <= k < p.len() && #[trigger] p[k] == r[i];
                    assert(s[k] == p[k]);
                    assert(s[s.len() - 1] == last);
                }
            } else {
                assert(r[i] == q[i] && r[j] == q[j]);
            }
        }
    } else {
        let r = s.push(a);
        assert forall|i: int, j: int| 0 <= i < j < r.len() implies !alert_before(#[trigger] r[j], #[trigger] r[i]) by {
            if j == r.len() - 1 {
                if i < s.len() - 1 {
                    assert(!alert_before(s[s.len() - 1], s[i]));
                    lemma_not_before_trans(s[i], s[s.len() - 1], a);
                }
            } else {
                assert(r[i] == s[i] && r[j] == s[j]);
            }
        }
    }
}

/// The display order keeps every alert (the same multiset) and is sorted:
/// no alert sorts before an alert shown ahead of it.
pub proof fn lemma_sort_alerts_sorted_permutation(s: Seq<TradeAlert>)
    ensures
        sort_alerts(s).to_multiset() =~= s.to_multiset(),
        sort_alerts(s).len() == s.len(),
        alerts_sorted(sort_alerts(s)),
    decreases s.len(),
{
    broadcast use vstd::seq_lib::group_to_multiset_ensures;
    if s.len() > 0 {
        let p = s.drop_last();
        lemma_sort_alerts_sorted_permutation(p);
        lemma_insert_alert_multiset(sort_alerts(p), s.last());
        lemma_insert_alert_len(sort_alerts(p), s.last());
        lemma_insert_alert_sorted(sort_alerts(p), s.last());
        assert(s =~= p.push(s.last()));
    }
}

/// Orders alerts for display: stably by severity then ticker, with the
/// market-wide volatility advisory (if any) in front; when nothing remains,
/// the single all-clear alert.
pub fn order_alerts(alerts: Vec<TradeAlert>, advisory: Option<TradeAlert>) -> (r: Vec<TradeAlert>)
    ensures
        ({
            let sorted = sort_alerts(alerts@);
            let shown = match advisory {
                Some(a) => seq![a] + sorted,
                None => sorted,
            };
            if shown.len() > 0 {
                r@ == shown
            } else {
                &&& r@.len() == 1
                &&& r@[0].trade_id == -1
                &&& r@[0].ticker@ == "—"@
                &&& r@[0].strategy_badge@ == "—"@
                &&& r@[0].kind == AlertKind::AllClear
                &&& r@[0].severity == AlertSeverity::AllClear
                &&& r@[0].headline@ == "All clear — no actions required today."@
                &&& r@[0].detail is None
            }
        }),
{
    let mut sorted: Vec<TradeAlert> = Vec::new();
    let mut i: usize = 0;
    while i < alerts.len()
        invariant
            i <= alerts@.len(),
            sorted@ == sort_alerts(alerts@.take(i as int)),
        decreases alerts@.len() - i,
    {
        let a = copy_alert(&alerts[i]);
        let mut j: usize = sorted.len();
        while j > 0 && sorts_before(&a, &sorted[j - 1])
            invariant
                j <= sorted@.len(),
                forall|k: int| j <= k < sorted@.len() ==> alert_before(a, #[trigger] sorted@[k]),
            decreases j,
        {
            j = j - 1;
        }
        proof {
            lemma_insert_alert_at(sorted@, a, j as int);
            let t1 = alerts@.take(i + 1);
            assert(t1.drop_last() =~= alerts@.take(i as int));
            assert(t1.last() == alerts@[i as int]);
        }
        sorted.insert(j, a);
        proof {
            assert(sorted@ =~= sort_alerts(alerts@.take(i + 1)));
        }
        i = i + 1;
    }
    proof {
        assert(alerts@.take(i as int) =~= alerts@);
    }
    let mut shown: Vec<TradeAlert> = Vec::new();
    match advisory {
        Some(a) => {
            shown.push(a);
            shown.append(&mut sorted);
        },
        None => {
            shown = sorted;
        },
    }
    if shown.len() == 0 {
        shown.push(TradeAlert {
            trade_id: -1,
            ticker: "—".to_string(),
            strategy_badge: "—".to_string(),
            kind: AlertKind::AllClear,
            severity: AlertSeverity::AllClear,
            headline: "All clear — no actions required today.".to_string(),
            detail: None,
        });
    }
    shown
}


/// Number of alert rows (not headers) in `rows`.
pub open spec fn alert_row_count(rows: Seq<ActionRow>) -> nat
    decreases rows.len(),
{
    if rows.len() == 0 {
        0
    } else {
        alert_row_count(rows.drop_last()) + (if rows.last() is Alert { 1nat } else { 0nat })
    }
}

proof fn lemma_alert_row_count_concat(a: Seq<ActionRow>, b: Seq<ActionRow>)
    ensures
        alert_row_count(a + b) == alert_row_count(a) + alert_row_count(b),
    decreases b.len(),
{
    if b.len() > 0 {
        lemma_alert_row_count_concat(a, b.drop_last());
        assert((a + b).drop_last() =~= a + b.drop_last());
    } else {
        assert(a + b =~= a);
    }
}

proof fn lemma_alert_rows_of_group(g: Seq<TradeAlert>)
    ensures
        alert_row_count(g.map_values(|a: TradeAlert| ActionRow::Alert(a))) == g.len(),
    decreases g.len(),
{
    if g.len() > 0 {
        lemma_alert_rows_of_group(g.drop_last());
        assert(g.map_values(|a: TradeAlert| ActionRow::Alert(a)).drop_last()
            =~= g.drop_last().map_values(|a: TradeAlert| ActionRow::Alert(a)));
    }
}

/// How many alerts the groups for `kinds` hold between them.
pub open spec fn kinds_total(alerts: Seq<TradeAlert>, kinds: Seq<AlertKind>) -> nat
    decreases kinds.len(),
{
    if kinds.len() == 0 {
        0
    } else {
        kinds_total(alerts, kinds.drop_last()) + alerts_of_kind(alerts, kinds.last()).len()
    }
}

/// How often `k` occurs in `kinds`.
pub open spec fn kind_occurrences(kinds: Seq<AlertKind>, k: AlertKind) -> nat
    decreases kinds.len(),
{
    if kinds.len() == 0 {
        0
    } else {
        kind_occurrences(kinds.drop_last(), k) + (if kinds.last() == k { 1nat } else { 0nat })
    }
}

proof fn lemma_rows_count_open(alerts: Seq<TradeAlert>, kinds: Seq<AlertKind>)
    ensures
        alert_row_count(rows_for_kinds(alerts, Seq::empty(), kinds)) == kinds_total(alerts, kinds),
    decreases kinds.len(),
{
    if kinds.len() > 0 {
        let k = kinds.last();
        lemma_rows_count_open(alerts, kinds.drop_last());
        let g = alerts_of_kind(alerts, k);
        let gr = group_rows(alerts, k, Seq::<AlertKind>::empty().contains(k));
        lemma_alert_row_count_concat(rows_for_kinds(alerts, Seq::empty(), kinds.drop_last()), gr);
        if g.len() > 0 {
            let hdr = seq![ActionRow::GroupHeader { kind: k, count: g.len() as usize }];
            let body = g.map_values(|a: TradeAlert| ActionRow::Alert(a));
            lemma_alert_row_count_concat(hdr, body);
            lemma_alert_rows_of_group(g);
            assert(alert_row_count(hdr) == 0) by {
                assert(hdr.drop_last() =~= Seq::<ActionRow>::empty());
                assert(alert_row_count(Seq::<ActionRow>::empty()) == 0);
                assert(!(hdr.last() is Alert));
            }
            assert(gr =~= hdr + body);
        } else {
            assert(gr =~= Seq::<ActionRow>::empty());
        }
    }
}

proof fn lemma_kinds_total_push(alerts: Seq<TradeAlert>, a: TradeAlert, kinds: Seq<AlertKind>)
    ensures
        kinds_total(alerts.push(a), kinds) == kinds_total(alerts, kinds) + kind_occurrences(kinds, a.kind),
    decreases kinds.len(),
{
    if kinds.len() > 0 {
        lemma_kinds_total_push(alerts, a, kinds.drop_last());
        let k = kinds.last();
        assert(alerts.push(a).drop_last() =~= alerts);
    }
}

proof fn lemma_each_kind_once(k: AlertKind)
    ensures
        kind_occurrences(kinds_in_order(), k) == 1,
{
    reveal_with_fuel(kind_occurrences, 14);
}

proof fn lemma_kinds_total_all(alerts: Seq<TradeAlert>)
    ensures
        kinds_total(alerts, kinds_in_order()) == alerts.len(),
    decreases alerts.len(),
{
    if alerts.len() == 0 {
        reveal_with_fuel(kinds_total, 14);
    } else {
        let p = alerts.drop_last();
        lemma_kinds_total_all(p);
        lemma_kinds_total_push(p, alerts.last(), kinds_in_order());
        lemma_each_kind_once(alerts.last().kind);
        assert(p.push(alerts.last()) =~= alerts);
    }
}

/// With no group collapsed, the Actions list shows every alert exactly as
/// many times as it was raised: its alert rows number the alerts.
pub proof fn lemma_open_rows_show_every_alert(alerts: Seq<TradeAlert>)
    ensures
        alert_row_count(rows_for_kinds(alerts, Seq::empty(), kinds_in_order())) == alerts.len(),
{
    lemma_rows_count_open(alerts, kinds_in_order());
    lemma_kinds_total_all(alerts);
}

// ─────────────────────────────── folding more groups ───────────────────────────────

/// The group header rows of `rows`, in order.
pub open spec fn group_headers(rows: Seq<ActionRow>) -> Seq<ActionRow>
    decreases rows.len(),
{
    if rows.len() == 0 {
        Seq::empty()
    } else {
        let prev = group_headers(rows.drop_last());
        if rows.last() is GroupHeader { prev.push(rows.last()) } else { prev }
    }
}

/// The alerts shown in the alert rows of `rows`, in order.
pub open spec fn shown_alerts(rows: Seq<ActionRow>) -> Seq<TradeAlert>
    decreases rows.len(),
{
    if rows.len() == 0 {
        Seq::empty()
    } else {
        let prev = shown_alerts(rows.drop_last());
        match rows.last() {
            ActionRow::Alert(a) => prev.push(a),
            _ => prev,
        }
    }
}

/// The alerts of `s` whose kind is not in `kinds`, in order.
pub open spec fn without_kinds(s: Seq<TradeAlert>, kinds: Seq<AlertKind>) -> Seq<TradeAlert>
    decreases s.len(),
{
    if s.len() == 0 {
        Seq::empty()
    } else {
        let prev = without_kinds(s.drop_last(), kinds);
        if kinds.contains(s.last().kind) { prev } else { prev.push(s.last()) }
    }
}

proof fn lemma_row_parts_concat(a: Seq<ActionRow>, b: Seq<ActionRow>)
    ensures
        group_headers(a + b) == group_headers(a) + group_headers(b),
        shown_alerts(a + b) == shown_alerts(a) + shown_alerts(b),
    decreases b.len(),
{
    if b.len() == 0 {
        assert(a + b =~= a);
        assert(group_headers(a) + group_headers(b) =~= group_headers(a));
        assert(shown_alerts(a) + shown_alerts(b) =~= shown_alerts(a));
    } else {
        lemma_row_parts_concat(a, b.drop_last());
        assert((a + b).drop_last() =~= a + b.drop_last());
        assert((a + b).last() == b.last());
        assert(group_headers(a) + group_headers(b.drop_last()).push(b.last())
            =~= (group_headers(a) + group_headers(b.drop_last())).push(b.last()));
        if let ActionRow::Alert(x) = b.last() {
            assert(shown_alerts(a) + shown_alerts(b.drop_last()).push(x)
                =~= (shown_alerts(a) + shown_alerts(b.drop_last())).push(x));
        }
    }
}

proof fn lemma_without_kinds_concat(a: Seq<TradeAlert>, b: Seq<TradeAlert>, kinds: Seq<AlertKind>)
    ensures
        without_kinds(a + b, kinds) == without_kinds(a, kinds) + without_kinds(b, kinds),
    decreases b.len(),
{
    if b.len() == 0 {
        assert(a + b =~= a);
        assert(without_kinds(a, kinds) + without_kinds(b, kinds) =~= without_kinds(a, kinds));
    } else {
        lemma_without_kinds_concat(a, b.drop_last(), kinds);
        assert((a + b).drop_last() =~= a + b.drop_last());
        assert((a + b).last() == b.last());
        assert(without_kinds(a, kinds) + without_kinds(b.drop_last(), kinds).push(b.last())
            =~= (without_kinds(a, kinds) + without_kinds(b.drop_last(), kinds)).push(b.last()));
    }
}

proof fn lemma_alert_rows_parts(g: Seq<TradeAlert>)
    ensures
        group_headers(g.map_values(|a: TradeAlert| ActionRow::Alert(a))) == Seq::<ActionRow>::empty(),
        shown_alerts(g.map_values(|a: TradeAlert| ActionRow::Alert(a))) == g,
    decreases g.len(),
{
    if g.len() > 0 {
        lemma_alert_rows_parts(g.drop_last());
        assert(g.map_values(|a: TradeAlert| ActionRow::Alert(a)).drop_last()
            =~= g.drop_last().map_values(|a: TradeAlert| ActionRow::Alert(a)));
        assert(g.drop_last().push(g.last()) =~= g);
    } else {
        assert(g.map_values(|a: TradeAlert| ActionRow::Alert(a)) =~= Seq::<ActionRow>::empty());
    }
}

proof fn lemma_alerts_of_kind_uniform(alerts: Seq<TradeAlert>, k: AlertKind, kinds: Seq<AlertKind>)
    ensures
        without_kinds(alerts_of_kind(alerts, k), kinds)
            == (if kinds.contains(k) { Seq::<TradeAlert>::empty() } else { alerts_of_kind(alerts, k) }),
    decreases alerts.len(),
{
    if alerts.len() > 0 {
        lemma_alerts_of_kind_uniform(alerts.drop_last(), k, kinds);
        let prev = alerts_of_kind(alerts.drop_last(), k);
        if alerts.last().kind == k {
            assert(alerts_of_kind(alerts, k).drop_last() =~= prev);
        }
    }
}

proof fn lemma_group_rows_parts(alerts: Seq<TradeAlert>, k: AlertKind, collapsed: bool)
    ensures
        group_headers(group_rows(alerts, k, collapsed)) == group_headers(group_rows(alerts, k, false)),
        shown_alerts(group_rows(alerts, k, collapsed))
            == (if collapsed { Seq::<TradeAlert>::empty() } else { alerts_of_kind(alerts, k) }),
{
    let g = alerts_of_kind(alerts, k);
    if g.len() > 0 {
        let h = seq![ActionRow::GroupHeader { kind: k, count: g.len() as usize }];
        let rows = g.map_values(|a: TradeAlert| ActionRow::Alert(a));
        lemma_alert_rows_parts(g);
        lemma_row_parts_concat(h, rows);
        lemma_row_parts_concat(h, Seq::<ActionRow>::empty());
        assert(h + Seq::<ActionRow>::empty() =~= h);
        assert(h.drop_last() =~= Seq::<ActionRow>::empty());
        assert(group_headers(Seq::<ActionRow>::empty()) =~= Seq::<ActionRow>::empty());
        assert(shown_alerts(Seq::<ActionRow>::empty()) =~= Seq::<TradeAlert>::empty());
        assert(group_headers(h) =~= h);
        assert(shown_alerts(h) =~= Seq::<TradeAlert>::empty());
        assert(group_headers(h) + Seq::<ActionRow>::empty() =~= group_headers(h));
        assert(shown_alerts(h) + g =~= g);
    } else {
        assert(group_headers(Seq::<ActionRow>::empty()) =~= Seq::<ActionRow>::empty());
        assert(shown_alerts(Seq::<ActionRow>::empty()) =~= Seq::<TradeAlert>::empty());
        assert(g =~= Seq::<TradeAlert>::empty());
    }
}

proof fn lemma_fold_more_kinds(
    alerts: Seq<TradeAlert>,
    c1: Seq<AlertKind>,
    c2: Seq<AlertKind>,
    kinds: Seq<AlertKind>,
)
    requires
        forall|k: AlertKind| c1.contains(k) ==> c2.contains(k),
    ensures
        group_headers(rows_for_kinds(alerts, c2, kinds)) == group_headers(rows_for_kinds(alerts, c1, kinds)),
        shown_alerts(rows_for_kinds(alerts, c2, kinds)) == without_kinds(shown_alerts(rows_for_kinds(alerts, c1, kinds)), c2),
    decreases kinds.len(),
{
    if kinds.len() == 0 {
        assert(group_headers(Seq::<ActionRow>::empty()) =~= Seq::<ActionRow>::empty());
        assert(shown_alerts(Seq::<ActionRow>::empty()) =~= Seq::<TradeAlert>::empty());
        assert(without_kinds(Seq::<TradeAlert>::empty(), c2) =~= Seq::<TradeAlert>::empty());
    } else {
        let p = kinds.drop_last();
        let k = kinds.last();
        lemma_fold_more_kinds(alerts, c1, c2, p);
        let b1 = c1.contains(k);
        let b2 = c2.contains(k);
        lemma_row_parts_concat(rows_for_kinds(alerts, c1, p), group_rows(alerts, k, b1));
        lemma_row_parts_concat(rows_for_kinds(alerts, c2, p), group_rows(alerts, k, b2));
        lemma_group_rows_parts(alerts, k, b1);
        lemma_group_rows_parts(alerts, k, b2);
        lemma_without_kinds_concat(shown_alerts(rows_for_kinds(alerts, c1, p)), shown_alerts(group_rows(alerts, k, b1)), c2);
        lemma_alerts_of_kind_uniform(alerts, k, c2);
        assert(without_kinds(Seq::<TradeAlert>::empty(), c2) =~= Seq::<TradeAlert>::empty());
        if b1 {
            assert(b2);
        }
        assert(shown_alerts(group_rows(alerts, k, b2)) == without_kinds(shown_alerts(group_rows(alerts, k, b1)), c2));
    }
}

/// Folding more alert kinds in the Actions list only hides rows: with
/// every kind of `c1` also in `c2`, the group headers stay the same and the
/// alert rows shown are those shown before, less the alerts of kinds in
/// `c2`.
pub proof fn lemma_folding_more_kinds_only_hides(alerts: Seq<TradeAlert>, c1: Seq<AlertKind>, c2: Seq<AlertKind>)
    requires
        forall|k: AlertKind| c1.contains(k) ==> c2.contains(k),
    ensures
        group_headers(rows_for_kinds(alerts, c2, kinds_in_order()))
            == group_headers(rows_for_kinds(alerts, c1, kinds_in_order())),
        shown_alerts(rows_for_kinds(alerts, c2, kinds_in_order()))
            == without_kinds(shown_alerts(rows_for_kinds(alerts, c1, kinds_in_order())), c2),
{
    lemma_fold_more_kinds(alerts, c1, c2, kinds_in_order());
}

/// Whether `f` picks the rows of `small` out of `big` in order: `small[i]`
/// is `big[f(i)]`, and the positions increase.
pub open spec fn picks_rows(f: spec_fn(int) -> int, small: Seq<ActionRow>, big: Seq<ActionRow>) -> bool {
    &&& forall|i: int, j: int| #![trigger f(i), f(j)] 0 <= i < j < small.len() ==> f(i) < f(j)
    &&& forall|i: int| 0 <= i < small.len() ==> 0 <= #[trigger] f(i) < big.len() && small[i] == big[f(i)]
}

/// Whether `small` is a subsequence of `big`.
pub open spec fn subsequence_of(small: Seq<ActionRow>, big: Seq<ActionRow>) -> bool {
    exists|f: spec_fn(int) -> int| #[trigger] picks_rows(f, small, big)
}

/// How many alerts of the kinds in `kinds` that `c2` folds and `c1` does
/// not there are.
pub open spec fn newly_folded_count(alerts: Seq<TradeAlert>, c1: Seq<AlertKind>, c2: Seq<AlertKind>, kinds: Seq<AlertKind>) -> nat
    decreases kinds.len(),
{
    if kinds.len() == 0 {
        0
    } else {
        let k = kinds.last();
        newly_folded_count(alerts, c1, c2, kinds.drop_last())
            + (if c2.contains(k) && !c1.contains(k) { alerts_of_kind(alerts, k).len() } else { 0 })
    }
}

proof fn lemma_prefix_picks(small: Seq<ActionRow>, big: Seq<ActionRow>)
    requires
        small.len() <= big.len(),
        small == big.take(small.len() as int),
    ensures
        picks_rows(|i: int| i, small, big),
{
    assert forall|i: int| 0 <= i < small.len() implies 0 <= (|i: int| i)(i) < big.len() && small[i] == big[(|i: int| i)(i)] by {
        assert(big.take(small.len() as int)[i] == big[i]);
    }
}

proof fn lemma_concat_picks(
    f1: spec_fn(int) -> int,
    s1: Seq<ActionRow>,
    b1: Seq<ActionRow>,
    f2: spec_fn(int) -> int,
    s2: Seq<ActionRow>,
    b2: Seq<ActionRow>,
)
    requires
        picks_rows(f1, s1, b1),
        picks_rows(f2, s2, b2),
    ensures
        picks_rows(|i: int| if i < s1.len() { f1(i) } else { b1.len() + f2(i - s1.len()) }, s1 + s2, b1 + b2),
{
    let g = |i: int| if i < s1.len() { f1(i) } else { b1.len() + f2(i - s1.len()) };
    let s = s1 + s2;
    let b = b1 + b2;
    assert forall|i: int, j: int| #![trigger g(i), g(j)] 0 <= i < j < s.len() implies g(i) < g(j) by {
        if j < s1.len() {
            assert(f1(i) < f1(j));
        } else if i < s1.len() {
            assert(0 <= f1(i) < b1.len());
            assert(0 <= f2(j - s1.len()));
        } else {
            assert(f2(i - s1.len()) < f2(j - s1.len()));
        }
    }
    assert forall|i: int| 0 <= i < s.len() implies 0 <= #[trigger] g(i) < b.len() && s[i] == b[g(i)] by {
        if i < s1.len() {
            assert(0 <= f1(i) < b1.len() && s1[i] == b1[f1(i)]);
        } else {
            let t = i - s1.len();
            assert(0 <= f2(t) < b2.len() && s2[t] == b2[f2(t)]);
        }
    }
}

proof fn lemma_fold_group_rows(alerts: Seq<TradeAlert>, k: AlertKind, b1: bool, b2: bool)
    requires
        b1 ==> b2,
    ensures
        group_rows(alerts, k, b2) == group_rows(alerts, k, b1).take(group_rows(alerts, k, b2).len() as int),
        group_rows(alerts, k, b1).len() == group_rows(alerts, k, b2).len()
            + (if b2 && !b1 { alerts_of_kind(alerts, k).len() } else { 0 }),
{
    let g = alerts_of_kind(alerts, k);
    if g.len() > 0 {
        let h = seq![ActionRow::GroupHeader { kind: k, count: g.len() as usize }];
        let rows = g.map_values(|a: TradeAlert| ActionRow::Alert(a));
        assert(h + Seq::<ActionRow>::empty() =~= h);
        assert((h + rows).take(1) =~= h);
        assert((h + rows).take((h + rows).len() as int) =~= h + rows);
    } else {
        assert(Seq::<ActionRow>::empty().take(0) =~= Seq::<ActionRow>::empty());
    }
}

proof fn lemma_fold_rows_pick(alerts: Seq<TradeAlert>, c1: Seq<AlertKind>, c2: Seq<AlertKind>, kinds: Seq<AlertKind>)
    requires
        forall|k: AlertKind| c1.contains(k) ==> c2.contains(k),
    ensures
        subsequence_of(rows_for_kinds(alerts, c2, kinds), rows_for_kinds(alerts, c1, kinds)),
        rows_for_kinds(alerts, c1, kinds).len()
            == rows_for_kinds(alerts, c2, kinds).len() + newly_folded_count(alerts, c1, c2, kinds),
    decreases kinds.len(),
{
    if kinds.len() == 0 {
        assert(Seq::<ActionRow>::empty().take(0) =~= Seq::<ActionRow>::empty());
        lemma_prefix_picks(Seq::<ActionRow>::empty(), Seq::<ActionRow>::empty());
        assert(picks_rows(|i: int| i, rows_for_kinds(alerts, c2, kinds), rows_for_kinds(alerts, c1, kinds)));
    } else {
        let p = kinds.drop_last();
        let k = kinds.last();
        lemma_fold_rows_pick(alerts, c1, c2, p);
        let b1 = c1.contains(k);
        let b2 = c2.contains(k);
        lemma_fold_group_rows(alerts, k, b1, b2);
        let small1 = rows_for_kinds(alerts, c2, p);
        let big1 = rows_for_kinds(alerts, c1, p);
        let small2 = group_rows(alerts, k, b2);
        let big2 = group_rows(alerts, k, b1);
        let f1 = choose|f: spec_fn(int) -> int| #[trigger] picks_rows(f, small1, big1);
        lemma_prefix_picks(small2, big2);
        lemma_concat_picks(f1, small1, big1, |i: int| i, small2, big2);
        let g = |i: int| if i < small1.len() { f1(i) } else { big1.len() + (|i: int| i)(i - small1.len()) };
        assert(picks_rows(g, small1 + small2, big1 + big2));
        assert(rows_for_kinds(alerts, c2, kinds) == small1 + small2);
        assert(rows_for_kinds(alerts, c1, kinds) == big1 + big2);
    }
}

/// How many of `alerts` have a kind that `c2` folds and `c1` does not.
pub open spec fn newly_folded_alerts(alerts: Seq<TradeAlert>, c1: Seq<AlertKind>, c2: Seq<AlertKind>) -> nat
    decreases alerts.len(),
{
    if alerts.len() == 0 {
        0
    } else {
        let k = alerts.last().kind;
        newly_folded_alerts(alerts.drop_last(), c1, c2) + (if c2.contains(k) && !c1.contains(k) { 1nat } else { 0nat })
    }
}

spec fn newly_folded_among(alerts: Seq<TradeAlert>, c1: Seq<AlertKind>, c2: Seq<AlertKind>, kinds: Seq<AlertKind>) -> nat
    decreases alerts.len(),
{
    if alerts.len() == 0 {
        0
    } else {
        let k = alerts.last().kind;
        newly_folded_among(alerts.drop_last(), c1, c2, kinds)
            + (if kinds.contains(k) && c2.contains(k) && !c1.contains(k) { 1nat } else { 0nat })
    }
}

proof fn lemma_among_none(alerts: Seq<TradeAlert>, c1: Seq<AlertKind>, c2: Seq<AlertKind>)
    ensures
        newly_folded_among(alerts, c1, c2, Seq::empty()) == 0,
    decreases alerts.len(),
{
    if alerts.len() > 0 {
        lemma_among_none(alerts.drop_last(), c1, c2);
    }
}

proof fn lemma_among_push(alerts: Seq<TradeAlert>, c1: Seq<AlertKind>, c2: Seq<AlertKind>, kinds: Seq<AlertKind>, k: AlertKind)
    requires
        !kinds.contains(k),
    ensures
        newly_folded_among(alerts, c1, c2, kinds.push(k)) == newly_folded_among(alerts, c1, c2, kinds)
            + (if c2.contains(k) && !c1.contains(k) { alerts_of_kind(alerts, k).len() } else { 0 }),
    decreases alerts.len(),
{
    if alerts.len() > 0 {
        lemma_among_push(alerts.drop_last(), c1, c2, kinds, k);
        let x = alerts.last().kind;
        assert(kinds.push(k).contains(x) <==> (kinds.contains(x) || x == k)) by {
            if kinds.push(k).contains(x) {
                let i = choose|i: int| 0 <= i < kinds.push(k).len() && kinds.push(k)[i] == x;
                if i < kinds.len() {
                    assert(kinds[i] == x);
                }
            }
            if kinds.contains(x) {
                let i = choose|i: int| 0 <= i < kinds.len() && kinds[i] == x;
                assert(kinds.push(k)[i] == x);
            }
            if x == k {
                assert(kinds.push(k)[kinds.len() as int] == x);
            }
        }
    }
}

proof fn lemma_count_by_kinds(alerts: Seq<TradeAlert>, c1: Seq<AlertKind>, c2: Seq<AlertKind>, kinds: Seq<AlertKind>)
    requires
        kinds.no_duplicates(),
    ensures
        newly_folded_count(alerts, c1, c2, kinds) == newly_folded_among(alerts, c1, c2, kinds),
    decreases kinds.len(),
{
    if kinds.len() == 0 {
        lemma_among_none(alerts, c1, c2);
        assert(kinds =~= Seq::<AlertKind>::empty());
    } else {
        let p = kinds.drop_last();
        let k = kinds.last();
        assert(p.no_duplicates());
        assert(!p.contains(k)) by {
            if p.contains(k) {
                let i = choose|i: int| 0 <= i < p.len() && p[i] == k;
                assert(kinds[i] == kinds[kinds.len() - 1]);
            }
        }
        lemma_count_by_kinds(alerts, c1, c2, p);
        lemma_among_push(alerts, c1, c2, p, k);
        assert(p.push(k) =~= kinds);
    }
}

proof fn lemma_among_every_kind(alerts: Seq<TradeAlert>, c1: Seq<AlertKind>, c2: Seq<AlertKind>)
    ensures
        newly_folded_among(alerts, c1, c2, kinds_in_order()) == newly_folded_alerts(alerts, c1, c2),
    decreases alerts.len(),
{
    if alerts.len() > 0 {
        lemma_among_every_kind(alerts.drop_last(), c1, c2);
        let x = alerts.last().kind;
        let ks = kinds_in_order();
        assert(ks.contains(x)) by {
            match x {
                AlertKind::Defense => assert(ks[0] == x),
                AlertKind::MaxLoss => assert(ks[1] == x),
                AlertKind::GammaRisk => assert(ks[2] == x),
                AlertKind::Warning => assert(ks[3] == x),
                AlertKind::DeltaExtreme => assert(ks[4] == x),
                AlertKind::UndefinedDrift => assert(ks[5] == x),
                AlertKind::Drawdown => assert(ks[6] == x),
                AlertKind::RollChain => assert(ks[7] == x),
                AlertKind::Manage => assert(ks[8] == x),
                AlertKind::Close => assert(ks[9] == x),
                AlertKind::Roll => assert(ks[10] == x),
                AlertKind::Sizing => assert(ks[11] == x),
                AlertKind::AllClear => assert(ks[12] == x),
            }
        }
    }
}

/// Folding more alert kinds only hides the alert rows of the kinds newly
/// folded: with every kind of `c1` also in `c2`, the rows for `c2` are a
/// subsequence of the rows for `c1`, and there are fewer of them by exactly
/// the number of alerts whose kind `c2` folds and `c1` does not.
pub proof fn lemma_folding_more_kinds_hides_their_rows(alerts: Seq<TradeAlert>, c1: Seq<AlertKind>, c2: Seq<AlertKind>)
    requires
        forall|k: AlertKind| c1.contains(k) ==> c2.contains(k),
    ensures
        subsequence_of(rows_for_kinds(alerts, c2, kinds_in_order()), rows_for_kinds(alerts, c1, kinds_in_order())),
        rows_for_kinds(alerts, c1, kinds_in_order()).len()
            == rows_for_kinds(alerts, c2, kinds_in_order()).len() + newly_folded_alerts(alerts, c1, c2),
{
    lemma_fold_rows_pick(alerts, c1, c2, kinds_in_order());
    let ks = kinds_in_order();
    assert(ks.no_duplicates()) by {
        assert forall|i: int, j: int| 0 <= i < ks.len() && 0 <= j < ks.len() && i != j implies ks[i] != ks[j] by {
        }
    }
    lemma_count_by_kinds(alerts, c1, c2, ks);
    lemma_among_every_kind(alerts, c1, c2);
}

// ─────────────────────────────── strategy helpers ───────────────────────────────

/// Strategies that collect premium by selling options.
pub open spec fn short_premium(s: StrategyType) -> bool {
    s is ShortPutVertical || s is ShortCallVertical || s is IronCondor || s is IronButterfly
        || s is Strangle || s is Straddle || s is CashSecuredPut || s is CoveredCall
        || s is ShortDiagonalSpread
}

/// Whether a strategy is short premium (sold options dominate).
pub fn is_short_premium(strategy: &StrategyType) -> (r: bool)
    ensures
        r == short_premium(*strategy),
{
    matches!(strategy,
        StrategyType::ShortPutVertical
        | StrategyType::ShortCallVertical
        | StrategyType::IronCondor
        | StrategyType::IronButterfly
        | StrategyType::Strangle
        | StrategyType::Straddle
        | StrategyType::CashSecuredPut
        | StrategyType::CoveredCall
        | StrategyType::ShortDiagonalSpread
    )
}

// ─────────────────────────────── sectors ───────────────────────────────

/// Tickers grouped under "Semis".
pub open spec fn semis_tickers() -> Seq<Seq<char>> {
    seq!["NVDA"@, "AMD"@, "SMCI"@, "INTC"@, "MU"@, "AVGO"@, "QCOM"@, "TXN"@, "AMAT"@, "LRCX"@, "KLAC"@, "MRVL"@, "ADI"@, "TSM"@]
}

fn semis_list() -> (v: Vec<&'static str>)
    ensures
        v@.map_values(|t: &str| t@) == semis_tickers(),
{
    let v = vec!["NVDA", "AMD", "SMCI", "INTC", "MU", "AVGO", "QCOM", "TXN", "AMAT", "LRCX", "KLAC", "MRVL", "ADI", "TSM"];
    proof {
        assert(v@.map_values(|t: &str| t@) =~= semis_tickers());
    }
    v
}

/// Tickers grouped under "Tech".
pub open spec fn tech_tickers() -> Seq<Seq<char>> {
    seq!["AAPL"@, "MSFT"@, "GOOG"@, "GOOGL"@, "META"@, "CRM"@, "ORCL"@, "IBM"@, "SNOW"@, "PLTR"@, "SYM"@, "DELL"@, "HPQ"@]
}

fn tech_list() -> (v: Vec<&'static str>)
    ensures
        v@.map_values(|t: &str| t@) == tech_tickers(),
{
    let v = vec!["AAPL", "MSFT", "GOOG", "GOOGL", "META", "CRM", "ORCL", "IBM", "SNOW", "PLTR", "SYM", "DELL", "HPQ"];
    proof {
        assert(v@.map_values(|t: &str| t@) =~= tech_tickers());
    }
    v
}

/// Tickers grouped under "Consumer Disc".
pub open spec fn consumer_disc_tickers() -> Seq<Seq<char>> {
    seq!["AMZN"@, "TSLA"@, "TGT"@, "HD"@, "LOW"@, "NKE"@, "SBUX"@, "MCD"@, "CMG"@, "BKNG"@, "MAR"@, "HLT"@, "YUM"@, "DPZ"@]
}

fn consumer_disc_list() -> (v: Vec<&'static str>)
    ensures
        v@.map_values(|t: &str| t@) == consumer_disc_tickers(),
{
    let v = vec!["AMZN", "TSLA", "TGT", "HD", "LOW", "NKE", "SBUX", "MCD", "CMG", "BKNG", "MAR", "HLT", "YUM", "DPZ"];
    proof {
        assert(v@.map_values(|t: &str| t@) =~= consumer_disc_tickers());
    }
    v
}

/// Tickers grouped under "Financials".
pub open spec fn financials_tickers() -> Seq<Seq<char>> {
    seq!["XLF"@, "GS"@, "JPM"@, "BAC"@, "MS"@, "WFC"@, "C"@, "BRK"@, "V"@, "MA"@, "AXP"@, "BLK"@, "SCHW"@, "COF"@]
}

fn financials_list() -> (v: Vec<&'static str>)
    ensures
        v@.map_values(|t: &str| t@) == financials_tickers(),
{
    let v = vec!["XLF", "GS", "JPM", "BAC", "MS", "WFC", "C", "BRK", "V", "MA", "AXP", "BLK", "SCHW", "COF"];
    proof {
        assert(v@.map_values(|t: &str| t@) =~= financials_tickers());
    }
    v
}

/// Tickers grouped under "Energy".
pub open spec fn energy_tickers() -> Seq<Seq<char>> {
    seq!["OXY"@, "CVX"@, "XOM"@, "XLE"@, "SLB"@, "COP"@, "HAL"@, "MPC"@, "PSX"@, "VLO"@, "DVN"@]
}

fn energy_list() -> (v: Vec<&'static str>)
    ensures
        v@.map_values(|t: &str| t@) == energy_tickers(),
{
    let v = vec!["OXY", "CVX", "XOM", "XLE", "SLB", "COP", "HAL", "MPC", "PSX", "VLO", "DVN"];
    proof {
        assert(v@.map_values(|t: &str| t@) =~= energy_tickers());
    }
    v
}

/// Tickers grouped under "Healthcare".
pub open spec fn healthcare_tickers() -> Seq<Seq<char>> {
    seq!["UNH"@, "JNJ"@, "MRK"@, "PFE"@, "ABBV"@, "LLY"@, "BMY"@, "MDT"@, "TMO"@, "ABT"@, "DHR"@, "ISRG"@, "AMGN"@, "GILD"@]
}

fn healthcare_list() -> (v: Vec<&'static str>)
    ensures
        v@.map_values(|t: &str| t@) == healthcare_tickers(),
{
    let v = vec!["UNH", "JNJ", "MRK", "PFE", "ABBV", "LLY", "BMY", "MDT", "TMO", "ABT", "DHR", "ISRG", "AMGN", "GILD"];
    proof {
        assert(v@.map_values(|t: &str| t@) =~= healthcare_tickers());
    }
    v
}

/// Tickers grouped under "Index ETF".
pub open spec fn index_etf_tickers() -> Seq<Seq<char>> {
    seq!["SPY"@, "QQQ"@, "IWM"@, "DIA"@, "VTI"@, "VNQ"@, "EEM"@]
}

fn index_etf_list() -> (v: Vec<&'static str>)
    ensures
        v@.map_values(|t: &str| t@) == index_etf_tickers(),
{
    let v = vec!["SPY", "QQQ", "IWM", "DIA", "VTI", "VNQ", "EEM"];
    proof {
        assert(v@.map_values(|t: &str| t@) =~= index_etf_tickers());
    }
    v
}

/// Tickers grouped under "Commodities".
pub open spec fn commodities_tickers() -> Seq<Seq<char>> {
    seq!["GLD"@, "SLV"@, "GDX"@, "USO"@, "UNG"@, "GDXJ"@, "SIL"@]
}

fn commodities_list() -> (v: Vec<&'static str>)
    ensures
        v@.map_values(|t: &str| t@) == commodities_tickers(),
{
    let v = vec!["GLD", "SLV", "GDX", "USO", "UNG", "GDXJ", "SIL"];
    proof {
        assert(v@.map_values(|t: &str| t@) =~= commodities_tickers());
    }
    v
}

/// Tickers grouped under "Utilities".
pub open spec fn utilities_tickers() -> Seq<Seq<char>> {
    seq!["NEE"@, "DUK"@, "XLU"@, "SO"@, "D"@, "EXC"@, "AEP"@]
}

fn utilities_list() -> (v: Vec<&'static str>)
    ensures
        v@.map_values(|t: &str| t@) == utilities_tickers(),
{
    let v = vec!["NEE", "DUK", "XLU", "SO", "D", "EXC", "AEP"];
    proof {
        assert(v@.map_values(|t: &str| t@) =~= utilities_tickers());
    }
    v
}

/// Tickers grouped under "Industrials".
pub open spec fn industrials_tickers() -> Seq<Seq<char>> {
    seq!["BA"@, "CAT"@, "GE"@, "RTX"@, "LMT"@, "XLI"@, "HON"@, "UPS"@, "FDX"@, "DE"@, "EMR"@, "NOC"@]
}

fn industrials_list() -> (v: Vec<&'static str>)
    ensures
        v@.map_values(|t: &str| t@) == industrials_tickers(),
{
    let v = vec!["BA", "CAT", "GE", "RTX", "LMT", "XLI", "HON", "UPS", "FDX", "DE", "EMR", "NOC"];
    proof {
        assert(v@.map_values(|t: &str| t@) =~= industrials_tickers());
    }
    v
}

/// Tickers grouped under "Consumer Staples".
pub open spec fn consumer_staples_tickers() -> Seq<Seq<char>> {
    seq!["PG"@, "KO"@, "PEP"@, "WMT"@, "COST"@, "XLP"@, "CL"@, "GIS"@, "K"@, "KHC"@, "MO"@, "PM"@]
}

fn consumer_staples_list() -> (v: Vec<&'static str>)
    ensures
        v@.map_values(|t: &str| t@) == consumer_staples_tickers(),
{
    let v = vec!["PG", "KO", "PEP", "WMT", "COST", "XLP", "CL", "GIS", "K", "KHC", "MO", "PM"];
    proof {
        assert(v@.map_values(|t: &str| t@) =~= consumer_staples_tickers());
    }
    v
}

/// Tickers grouped under "Comm Services".
pub open spec fn comm_services_tickers() -> Seq<Seq<char>> {
    seq!["T"@, "VZ"@, "CMCSA"@, "NFLX"@, "DIS"@, "PARA"@, "WBD"@]
}

fn comm_services_list() -> (v: Vec<&'static str>)
    ensures
        v@.map_values(|t: &str| t@) == comm_services_tickers(),
{
    let v = vec!["T", "VZ", "CMCSA", "NFLX", "DIS", "PARA", "WBD"];
    proof {
        assert(v@.map_values(|t: &str| t@) =~= comm_services_tickers());
    }
    v
}

/// Tickers grouped under "Clean Energy".
pub open spec fn clean_energy_tickers() -> Seq<Seq<char>> {
    seq!["BE"@, "ENPH"@, "FSLR"@, "PLUG"@, "SEDG"@, "NOVA"@]
}

fn clean_energy_list() -> (v: Vec<&'static str>)
    ensures
        v@.map_values(|t: &str| t@) == clean_energy_tickers(),
{
    let v = vec!["BE", "ENPH", "FSLR", "PLUG", "SEDG", "NOVA"];
    proof {
        assert(v@.map_values(|t: &str| t@) =~= clean_energy_tickers());
    }
    v
}

/// Tickers grouped under "REITs".
pub open spec fn reits_tickers() -> Seq<Seq<char>> {
    seq!["O"@, "SPG"@, "PLD"@, "EQR"@, "AMT"@, "CCI"@, "WELL"@]
}

fn reits_list() -> (v: Vec<&'static str>)
    ensures
        v@.map_values(|t: &str| t@) == reits_tickers(),
{
    let v = vec!["O", "SPG", "PLD", "EQR", "AMT", "CCI", "WELL"];
    proof {
        assert(v@.map_values(|t: &str| t@) =~= reits_tickers());
    }
    v
}

/// The sector a ticker is grouped under; unknown tickers are "Other".
pub open spec fn ticker_sector(t: Seq<char>) -> Seq<char> {
    if semis_tickers().contains(t) { "Semis"@ }
    else if tech_tickers().contains(t) { "Tech"@ }
    else if consumer_disc_tickers().contains(t) { "Consumer Disc"@ }
    else if financials_tickers().contains(t) { "Financials"@ }
    else if energy_tickers().contains(t) { "Energy"@ }
    else if healthcare_tickers().contains(t) { "Healthcare"@ }
    else if index_etf_tickers().contains(t) { "Index ETF"@ }
    else if commodities_tickers().contains(t) { "Commodities"@ }
    else if utilities_tickers().contains(t) { "Utilities"@ }
    else if industrials_tickers().contains(t) { "Industrials"@ }
    else if consumer_staples_tickers().contains(t) { "Consumer Staples"@ }
    else if comm_services_tickers().contains(t) { "Comm Services"@ }
    else if clean_energy_tickers().contains(t) { "Clean Energy"@ }
    else if reits_tickers().contains(t) { "REITs"@ }
    else { "Other"@ }
}

/// A number that tells tickers apart: from position `i` on, each
/// character's code plus one, as digits in base 256, the first one lowest.
spec fn ticker_code(t: Seq<char>, i: int) -> int
    decreases t.len() - i,
{
    if i < 0 || i >= t.len() {
        0
    } else {
        (t[i] as int + 1) + 256 * ticker_code(t, i + 1)
    }
}

/// The numbers of the tickers of a list, in order.
spec fn list_codes(l: Seq<Seq<char>>) -> Seq<int> {
    l.map_values(|t: Seq<char>| ticker_code(t, 0))
}

proof fn lemma_semis_codes()
    ensures
        list_codes(semis_tickers()) == seq![1111840591int, 4542018int, 1245990484int, 1146441546int, 22094int, 1346918210int, 1313883218int, 5200213int, 1430408770int, 1497649997int, 1145195852int, 1297568590int, 4867394int, 5133397int],
{
    reveal_with_fuel(ticker_code, 6);
    reveal_strlit("NVDA");
    assert(ticker_code("NVDA"@, 0) == 1111840591);
    reveal_strlit("AMD");
    assert(ticker_code("AMD"@, 0) == 4542018);
    reveal_strlit("SMCI");
    assert(ticker_code("SMCI"@, 0) == 1245990484);
    reveal_strlit("INTC");
    assert(ticker_code("INTC"@, 0) == 1146441546);
    reveal_strlit("MU");
    assert(ticker_code("MU"@, 0) == 22094);
    reveal_strlit("AVGO");
    assert(ticker_code("AVGO"@, 0) == 1346918210);
    reveal_strlit("QCOM");
    assert(ticker_code("QCOM"@, 0) == 1313883218);
    reveal_strlit("TXN");
    assert(ticker_code("TXN"@, 0) == 5200213);
    reveal_strlit("AMAT");
    assert(ticker_code("AMAT"@, 0) == 1430408770);
    reveal_strlit("LRCX");
    assert(ticker_code("LRCX"@, 0) == 1497649997);
    reveal_strlit("KLAC");
    assert(ticker_code("KLAC"@, 0) == 1145195852);
    reveal_strlit("MRVL");
    assert(ticker_code("MRVL"@, 0) == 1297568590);
    reveal_strlit("ADI");
    assert(ticker_code("ADI"@, 0) == 4867394);
    reveal_strlit("TSM");
    assert(ticker_code("TSM"@, 0) == 5133397);
    assert(list_codes(semis_tickers()) =~= seq![1111840591int, 4542018int, 1245990484int, 1146441546int, 22094int, 1346918210int, 1313883218int, 5200213int, 1430408770int, 1497649997int, 1145195852int, 1297568590int, 4867394int, 5133397int]);
}

proof fn lemma_tech_codes()
    ensures
        list_codes(tech_tickers()) == seq![1297171010int, 1430737998int, 1213222984int, 331925704776int, 1112884814int, 5133124int, 1296323408int, 5129034int, 1481658196int, 1398099281int, 5134932int, 1296909893int, 5394761int],
{
    reveal_with_fuel(ticker_code, 6);
    reveal_strlit("AAPL");
    assert(ticker_code("AAPL"@, 0) == 1297171010);
    reveal_strlit("MSFT");
    assert(ticker_code("MSFT"@, 0) == 1430737998);
    reveal_strlit("GOOG");
    assert(ticker_code("GOOG"@, 0) == 1213222984);
    reveal_strlit("GOOGL");
    assert(ticker_code("GOOGL"@, 0) == 331925704776);
    reveal_strlit("META");
    assert(ticker_code("META"@, 0) == 1112884814);
    reveal_strlit("CRM");
    assert(ticker_code("CRM"@, 0) == 5133124);
    reveal_strlit("ORCL");
    assert(ticker_code("ORCL"@, 0) == 1296323408);
    reveal_strlit("IBM");
    assert(ticker_code("IBM"@, 0) == 5129034);
    reveal_strlit("SNOW");
    assert(ticker_code("SNOW"@, 0) == 1481658196);
    reveal_strlit("PLTR");
    assert(ticker_code("PLTR"@, 0) == 1398099281);
    reveal_strlit("SYM");
    assert(ticker_code("SYM"@, 0) == 5134932);
    reveal_strlit("DELL");
    assert(ticker_code("DELL"@, 0) == 1296909893);
    reveal_strlit("HPQ");
    assert(ticker_code("HPQ"@, 0) == 5394761);
    assert(list_codes(tech_tickers()) =~= seq![1297171010int, 1430737998int, 1213222984int, 331925704776int, 1112884814int, 5133124int, 1296323408int, 5129034int, 1481658196int, 1398099281int, 5134932int, 1296909893int, 5394761int]);
}

proof fn lemma_consumer_disc_codes()
    ensures
        list_codes(consumer_disc_tickers()) == seq![1331383874int, 1112364117int, 5589077int, 17737int, 5787725int, 4607055int, 1498825556int, 4539470int, 4738628int, 1213156419int, 5456462int, 5590345int, 5133914int, 5984581int],
{
    reveal_with_fuel(ticker_code, 6);
    reveal_strlit("AMZN");
    assert(ticker_code("AMZN"@, 0) == 1331383874);
    reveal_strlit("TSLA");
    assert(ticker_code("TSLA"@, 0) == 1112364117);
    reveal_strlit("TGT");
    assert(ticker_code("TGT"@, 0) == 5589077);
    reveal_strlit("HD");
    assert(ticker_code("HD"@, 0) == 17737);
    reveal_strlit("LOW");
    assert(ticker_code("LOW"@, 0) == 5787725);
    reveal_strlit("NKE");
    assert(ticker_code("NKE"@, 0) == 4607055);
    reveal_strlit("SBUX");
    assert(ticker_code("SBUX"@, 0) == 1498825556);
    reveal_strlit("MCD");
    assert(ticker_code("MCD"@, 0) == 4539470);
    reveal_strlit("CMG");
    assert(ticker_code("CMG"@, 0) == 4738628);
    reveal_strlit("BKNG");
    assert(ticker_code("BKNG"@, 0) == 1213156419);
    reveal_strlit("MAR");
    assert(ticker_code("MAR"@, 0) == 5456462);
    reveal_strlit("HLT");
    assert(ticker_code("HLT"@, 0) == 5590345);
    reveal_strlit("YUM");
    assert(ticker_code("YUM"@, 0) == 5133914);
    reveal_strlit("DPZ");
    assert(ticker_code("DPZ"@, 0) == 5984581);
    assert(list_codes(consumer_disc_tickers()) =~= seq![1331383874int, 1112364117int, 5589077int, 17737int, 5787725int, 4607055int, 1498825556int, 4539470int, 4738628int, 1213156419int, 5456462int, 5590345int, 5133914int, 5984581int]);
}

proof fn lemma_financials_codes()
    ensures
        list_codes(financials_tickers()) == seq![4672857int, 21576int, 5132619int, 4473411int, 21582int, 4474712int, 68int, 5002051int, 87int, 16974int, 5331266int, 5000515int, 1481196628int, 4673604int],
{
    reveal_with_fuel(ticker_code, 6);
    reveal_strlit("XLF");
    assert(ticker_code("XLF"@, 0) == 4672857);
    reveal_strlit("GS");
    assert(ticker_code("GS"@, 0) == 21576);
    reveal_strlit("JPM");
    assert(ticker_code("JPM"@, 0) == 5132619);
    reveal_strlit("BAC");
    assert(ticker_code("BAC"@, 0) == 4473411);
    reveal_strlit("MS");
    assert(ticker_code("MS"@, 0) == 21582);
    reveal_strlit("WFC");
    assert(ticker_code("WFC"@, 0) == 4474712);
    reveal_strlit("C");
    assert(ticker_code("C"@, 0) == 68);
    reveal_strlit("BRK");
    assert(ticker_code("BRK"@, 0) == 5002051);
    reveal_strlit("V");
    assert(ticker_code("V"@, 0) == 87);
    reveal_strlit("MA");
    assert(ticker_code("MA"@, 0) == 16974);
    reveal_strlit("AXP");
    assert(ticker_code("AXP"@, 0) == 5331266);
    reveal_strlit("BLK");
    assert(ticker_code("BLK"@, 0) == 5000515);
    reveal_strlit("SCHW");
    assert(ticker_code("SCHW"@, 0) == 1481196628);
    reveal_strlit("COF");
    assert(ticker_code("COF"@, 0) == 4673604);
    assert(list_codes(financials_tickers()) =~= seq![4672857int, 21576int, 5132619int, 4473411int, 21582int, 4474712int, 68int, 5002051int, 87int, 16974int, 5331266int, 5000515int, 1481196628int, 4673604int]);
}

proof fn lemma_energy_codes()
    ensures
        list_codes(energy_tickers()) == seq![5921104int, 5855044int, 5132377int, 4607321int, 4410708int, 5328964int, 5063241int, 4477262int, 5854289int, 5262679int, 5199685int],
{
    reveal_with_fuel(ticker_code, 6);
    reveal_strlit("OXY");
    assert(ticker_code("OXY"@, 0) == 5921104);
    reveal_strlit("CVX");
    assert(ticker_code("CVX"@, 0) == 5855044);
    reveal_strlit("XOM");
    assert(ticker_code("XOM"@, 0) == 5132377);
    reveal_strlit("XLE");
    assert(ticker_code("XLE"@, 0) == 4607321);
    reveal_strlit("SLB");
    assert(ticker_code("SLB"@, 0) == 4410708);
    reveal_strlit("COP");
    assert(ticker_code("COP"@, 0) == 5328964);
    reveal_strlit("HAL");
    assert(ticker_code("HAL"@, 0) == 5063241);
    reveal_strlit("MPC");
    assert(ticker_code("MPC"@, 0) == 4477262);
    reveal_strlit("PSX");
    assert(ticker_code("PSX"@, 0) == 5854289);
    reveal_strlit("VLO");
    assert(ticker_code("VLO"@, 0) == 5262679);
    reveal_strlit("DVN");
    assert(ticker_code("DVN"@, 0) == 5199685);
    assert(list_codes(energy_tickers()) =~= seq![5921104int, 5855044int, 5132377int, 4607321int, 4410708int, 5328964int, 5063241int, 4477262int, 5854289int, 5262679int, 5199685int]);
}

proof fn lemma_healthcare_codes()
    ensures
        list_codes(healthcare_tickers()) == seq![4804438int, 4935499int, 5002062int, 4605777int, 1464025922int, 5918029int, 5918275int, 5588302int, 5262933int, 5587778int, 5458245int, 1213420618int, 1330138690int, 1162693192int],
{
    reveal_with_fuel(ticker_code, 6);
    reveal_strlit("UNH");
    assert(ticker_code("UNH"@, 0) == 4804438);
    reveal_strlit("JNJ");
    assert(ticker_code("JNJ"@, 0) == 4935499);
    reveal_strlit("MRK");
    assert(ticker_code("MRK"@, 0) == 5002062);
    reveal_strlit("PFE");
    assert(ticker_code("PFE"@, 0) == 4605777);
    reveal_strlit("ABBV");
    assert(ticker_code("ABBV"@, 0) == 1464025922);
    reveal_strlit("LLY");
    assert(ticker_code("LLY"@, 0) == 5918029);
    reveal_strlit("BMY");
    assert(ticker_code("BMY"@, 0) == 5918275);
    reveal_strlit("MDT");
    assert(ticker_code("MDT"@, 0) == 5588302);
    reveal_strlit("TMO");
    assert(ticker_code("TMO"@, 0) == 5262933);
    reveal_strlit("ABT");
    assert(ticker_code("ABT"@, 0) == 5587778);
    reveal_strlit("DHR");
    assert(ticker_code("DHR"@, 0) == 5458245);
    reveal_strlit("ISRG");
    assert(ticker_code("ISRG"@, 0) == 1213420618);
    reveal_strlit("AMGN");
    assert(ticker_code("AMGN"@, 0) == 1330138690);
    reveal_strlit("GILD");
    assert(ticker_code("GILD"@, 0) == 1162693192);
    assert(list_codes(healthcare_tickers()) =~= seq![4804438int, 4935499int, 5002062int, 4605777int, 1464025922int, 5918029int, 5918275int, 5588302int, 5262933int, 5587778int, 5458245int, 1213420618int, 1330138690int, 1162693192int]);
}

proof fn lemma_index_etf_codes()
    ensures
        list_codes(index_etf_tickers()) == seq![5919060int, 5395026int, 5134410int, 4344389int, 4871511int, 5394263int, 5129798int],
{
    reveal_with_fuel(ticker_code, 6);
    reveal_strlit("SPY");
    assert(ticker_code("SPY"@, 0) == 5919060);
    reveal_strlit("QQQ");
    assert(ticker_code("QQQ"@, 0) == 5395026);
    reveal_strlit("IWM");
    assert(ticker_code("IWM"@, 0) == 5134410);
    reveal_strlit("DIA");
    assert(ticker_code("DIA"@, 0) == 4344389);
    reveal_strlit("VTI");
    assert(ticker_code("VTI"@, 0) == 4871511);
    reveal_strlit("VNQ");
    assert(ticker_code("VNQ"@, 0) == 5394263);
    reveal_strlit("EEM");
    assert(ticker_code("EEM"@, 0) == 5129798);
    assert(list_codes(index_etf_tickers()) =~= seq![5919060int, 5395026int, 5134410int, 4344389int, 4871511int, 5394263int, 5129798int]);
}

proof fn lemma_commodities_codes()
    ensures
        list_codes(commodities_tickers()) == seq![4541768int, 5721428int, 5850440int, 5264470int, 4738902int, 1264141640int, 5065300int],
{
    reveal_with_fuel(ticker_code, 6);
    reveal_strlit("GLD");
    assert(ticker_code("GLD"@, 0) == 4541768);
    reveal_strlit("SLV");
    assert(ticker_code("SLV"@, 0) == 5721428);
    reveal_strlit("GDX");
    assert(ticker_code("GDX"@, 0) == 5850440);
    reveal_strlit("USO");
    assert(ticker_code("USO"@, 0) == 5264470);
    reveal_strlit("UNG");
    assert(ticker_code("UNG"@, 0) == 4738902);
    reveal_strlit("GDXJ");
    assert(ticker_code("GDXJ"@, 0) == 1264141640);
    reveal_strlit("SIL");
    assert(ticker_code("SIL"@, 0) == 5065300);
    assert(list_codes(commodities_tickers()) =~= seq![4541768int, 5721428int, 5850440int, 5264470int, 4738902int, 1264141640int, 5065300int]);
}

proof fn lemma_utilities_codes()
    ensures
        list_codes(utilities_tickers()) == seq![4605519int, 5002821int, 5655897int, 20564int, 69int, 4479302int, 5326402int],
{
    reveal_with_fuel(ticker_code, 6);
    reveal_strlit("NEE");
    assert(ticker_code("NEE"@, 0) == 4605519);
    reveal_strlit("DUK");
    assert(ticker_code("DUK"@, 0) == 5002821);
    reveal_strlit("XLU");
    assert(ticker_code("XLU"@, 0) == 5655897);
    reveal_strlit("SO");
    assert(ticker_code("SO"@, 0) == 20564);
    reveal_strlit("D");
    assert(ticker_code("D"@, 0) == 69);
    reveal_strlit("EXC");
    assert(ticker_code("EXC"@, 0) == 4479302);
    reveal_strlit("AEP");
    assert(ticker_code("AEP"@, 0) == 5326402);
    assert(list_codes(utilities_tickers()) =~= seq![4605519int, 5002821int, 5655897int, 20564int, 69int, 4479302int, 5326402int]);
}

proof fn lemma_industrials_codes()
    ensures
        list_codes(industrials_tickers()) == seq![16963int, 5587524int, 17992int, 5854547int, 5590605int, 4869465int, 5197897int, 5525846int, 5850439int, 17989int, 5459526int, 4477007int],
{
    reveal_with_fuel(ticker_code, 6);
    reveal_strlit("BA");
    assert(ticker_code("BA"@, 0) == 16963);
    reveal_strlit("CAT");
    assert(ticker_code("CAT"@, 0) == 5587524);
    reveal_strlit("GE");
    assert(ticker_code("GE"@, 0) == 17992);
    reveal_strlit("RTX");
    assert(ticker_code("RTX"@, 0) == 5854547);
    reveal_strlit("LMT");
    assert(ticker_code("LMT"@, 0) == 5590605);
    reveal_strlit("XLI");
    assert(ticker_code("XLI"@, 0) == 4869465);
    reveal_strlit("HON");
    assert(ticker_code("HON"@, 0) == 5197897);
    reveal_strlit("UPS");
    assert(ticker_code("UPS"@, 0) == 5525846);
    reveal_strlit("FDX");
    assert(ticker_code("FDX"@, 0) == 5850439);
    reveal_strlit("DE");
    assert(ticker_code("DE"@, 0) == 17989);
    reveal_strlit("EMR");
    assert(ticker_code("EMR"@, 0) == 5459526);
    reveal_strlit("NOC");
    assert(ticker_code("NOC"@, 0) == 4477007);
    assert(list_codes(industrials_tickers()) =~= seq![16963int, 5587524int, 17992int, 5854547int, 5590605int, 4869465int, 5197897int, 5525846int, 5850439int, 17989int, 5459526int, 4477007int]);
}

proof fn lemma_consumer_staples_codes()
    ensures
        list_codes(consumer_staples_tickers()) == seq![18513int, 20556int, 5326417int, 5590616int, 1431588932int, 5328217int, 19780int, 5524040int, 76int, 4475212int, 20558int, 20049int],
{
    reveal_with_fuel(ticker_code, 6);
    reveal_strlit("PG");
    assert(ticker_code("PG"@, 0) == 18513);
    reveal_strlit("KO");
    assert(ticker_code("KO"@, 0) == 20556);
    reveal_strlit("PEP");
    assert(ticker_code("PEP"@, 0) == 5326417);
    reveal_strlit("WMT");
    assert(ticker_code("WMT"@, 0) == 5590616);
    reveal_strlit("COST");
    assert(ticker_code("COST"@, 0) == 1431588932);
    reveal_strlit("XLP");
    assert(ticker_code("XLP"@, 0) == 5328217);
    reveal_strlit("CL");
    assert(ticker_code("CL"@, 0) == 19780);
    reveal_strlit("GIS");
    assert(ticker_code("GIS"@, 0) == 5524040);
    reveal_strlit("K");
    assert(ticker_code("K"@, 0) == 76);
    reveal_strlit("KHC");
    assert(ticker_code("KHC"@, 0) == 4475212);
    reveal_strlit("MO");
    assert(ticker_code("MO"@, 0) == 20558);
    reveal_strlit("PM");
    assert(ticker_code("PM"@, 0) == 20049);
    assert(list_codes(consumer_staples_tickers()) =~= seq![18513int, 20556int, 5326417int, 5590616int, 1431588932int, 5328217int, 19780int, 5524040int, 76int, 4475212int, 20558int, 20049int]);
}

proof fn lemma_comm_services_codes()
    ensures
        list_codes(comm_services_tickers()) == seq![85int, 23383int, 284881604164int, 1498236751int, 5524037int, 1112752721int, 4539224int],
{
    reveal_with_fuel(ticker_code, 6);
    reveal_strlit("T");
    assert(ticker_code("T"@, 0) == 85);
    reveal_strlit("VZ");
    assert(ticker_code("VZ"@, 0) == 23383);
    reveal_strlit("CMCSA");
    assert(ticker_code("CMCSA"@, 0) == 284881604164);
    reveal_strlit("NFLX");
    assert(ticker_code("NFLX"@, 0) == 1498236751);
    reveal_strlit("DIS");
    assert(ticker_code("DIS"@, 0) == 5524037);
    reveal_strlit("PARA");
    assert(ticker_code("PARA"@, 0) == 1112752721);
    reveal_strlit("WBD");
    assert(ticker_code("WBD"@, 0) == 4539224);
    assert(list_codes(comm_services_tickers()) =~= seq![85int, 23383int, 284881604164int, 1498236751int, 5524037int, 1112752721int, 4539224int]);
}

proof fn lemma_clean_energy_codes()
    ensures
        list_codes(clean_energy_tickers()) == seq![17987int, 1230065478int, 1397576775int, 1213615441int, 1212499540int, 1113018447int],
{
    reveal_with_fuel(ticker_code, 6);
    reveal_strlit("BE");
    assert(ticker_code("BE"@, 0) == 17987);
    reveal_strlit("ENPH");
    assert(ticker_code("ENPH"@, 0) == 1230065478);
    reveal_strlit("FSLR");
    assert(ticker_code("FSLR"@, 0) == 1397576775);
    reveal_strlit("PLUG");
    assert(ticker_code("PLUG"@, 0) == 1213615441);
    reveal_strlit("SEDG");
    assert(ticker_code("SEDG"@, 0) == 1212499540);
    reveal_strlit("NOVA");
    assert(ticker_code("NOVA"@, 0) == 1113018447);
    assert(list_codes(clean_energy_tickers()) =~= seq![17987int, 1230065478int, 1397576775int, 1213615441int, 1212499540int, 1113018447int]);
}

proof fn lemma_reits_codes()
    ensures
        list_codes(reits_tickers()) == seq![80int, 4739412int, 4541777int, 5460550int, 5590594int, 4867140int, 1296909912int],
{
    reveal_with_fuel(ticker_code, 6);
    reveal_strlit("O");
    assert(ticker_code("O"@, 0) == 80);
    reveal_strlit("SPG");
    assert(ticker_code("SPG"@, 0) == 4739412);
    reveal_strlit("PLD");
    assert(ticker_code("PLD"@, 0) == 4541777);
    reveal_strlit("EQR");
    assert(ticker_code("EQR"@, 0) == 5460550);
    reveal_strlit("AMT");
    assert(ticker_code("AMT"@, 0) == 5590594);
    reveal_strlit("CCI");
    assert(ticker_code("CCI"@, 0) == 4867140);
    reveal_strlit("WELL");
    assert(ticker_code("WELL"@, 0) == 1296909912);
    assert(list_codes(reits_tickers()) =~= seq![80int, 4739412int, 4541777int, 5460550int, 5590594int, 4867140int, 1296909912int]);
}

proof fn lemma_code_listed(l: Seq<Seq<char>>, t: Seq<char>)
    requires
        l.contains(t),
    ensures
        list_codes(l).contains(ticker_code(t, 0)),
{
    let i = choose|i: int| 0 <= i < l.len() && l[i] == t;
    assert(list_codes(l)[i] == ticker_code(t, 0));
}

proof fn lemma_semis_sector(t: Seq<char>)
    requires
        semis_tickers().contains(t),
    ensures
        ticker_sector(t) == "Semis"@,
{
    lemma_semis_codes();
    lemma_code_listed(semis_tickers(), t);
}

proof fn lemma_tech_sector(t: Seq<char>)
    requires
        tech_tickers().contains(t),
    ensures
        ticker_sector(t) == "Tech"@,
{
    lemma_tech_codes();
    lemma_code_listed(tech_tickers(), t);
    lemma_semis_codes();
    if semis_tickers().contains(t) {
        lemma_code_listed(semis_tickers(), t);
    }
}

proof fn lemma_consumer_disc_sector(t: Seq<char>)
    requires
        consumer_disc_tickers().contains(t),
    ensures
        ticker_sector(t) == "Consumer Disc"@,
{
    lemma_consumer_disc_codes();
    lemma_code_listed(consumer_disc_tickers(), t);
    lemma_semis_codes();
    if semis_tickers().contains(t) {
        lemma_code_listed(semis_tickers(), t);
    }
    lemma_tech_codes();
    if tech_tickers().contains(t) {
        lemma_code_listed(tech_tickers(), t);
    }
}

proof fn lemma_financials_sector(t: Seq<char>)
    requires
        financials_tickers().contains(t),
    ensures
        ticker_sector(t) == "Financials"@,
{
    lemma_financials_codes();
    lemma_code_listed(financials_tickers(), t);
    lemma_semis_codes();
    if semis_tickers().contains(t) {
        lemma_code_listed(semis_tickers(), t);
    }
    lemma_tech_codes();
    if tech_tickers().contains(t) {
        lemma_code_listed(tech_tickers(), t);
    }
    lemma_consumer_disc_codes();
    if consumer_disc_tickers().contains(t) {
        lemma_code_listed(consumer_disc_tickers(), t);
    }
}

proof fn lemma_energy_sector(t: Seq<char>)
    requires
        energy_tickers().contains(t),
    ensures
        ticker_sector(t) == "Energy"@,
{
    lemma_energy_codes();
    lemma_code_listed(energy_tickers(), t);
    lemma_semis_codes();
    if semis_tickers().contains(t) {
        lemma_code_listed(semis_tickers(), t);
    }
    lemma_tech_codes();
    if tech_tickers().contains(t) {
        lemma_code_listed(tech_tickers(), t);
    }
    lemma_consumer_disc_codes();
    if consumer_disc_tickers().contains(t) {
        lemma_code_listed(consumer_disc_tickers(), t);
    }
    lemma_financials_codes();
    if financials_tickers().contains(t) {
        lemma_code_listed(financials_tickers(), t);
    }
}

proof fn lemma_healthcare_sector(t: Seq<char>)
    requires
        healthcare_tickers().contains(t),
    ensures
        ticker_sector(t) == "Healthcare"@,
{
    lemma_healthcare_codes();
    lemma_code_listed(healthcare_tickers(), t);
    lemma_semis_codes();
    if semis_tickers().contains(t) {
        lemma_code_listed(semis_tickers(), t);
    }
    lemma_tech_codes();
    if tech_tickers().contains(t) {
        lemma_code_listed(tech_tickers(), t);
    }
    lemma_consumer_disc_codes();
    if consumer_disc_tickers().contains(t) {
        lemma_code_listed(consumer_disc_tickers(), t);
    }
    lemma_financials_codes();
    if financials_tickers().contains(t) {
        lemma_code_listed(financials_tickers(), t);
    }
    lemma_energy_codes();
    if energy_tickers().contains(t) {
        lemma_code_listed(energy_tickers(), t);
    }
}

proof fn lemma_index_etf_sector(t: Seq<char>)
    requires
        index_etf_tickers().contains(t),
    ensures
        ticker_sector(t) == "Index ETF"@,
{
    lemma_index_etf_codes();
    lemma_code_listed(index_etf_tickers(), t);
    lemma_semis_codes();
    if semis_tickers().contains(t) {
        lemma_code_listed(semis_tickers(), t);
    }
    lemma_tech_codes();
    if tech_tickers().contains(t) {
        lemma_code_listed(tech_tickers(), t);
    }
    lemma_consumer_disc_codes();
    if consumer_disc_tickers().contains(t) {
        lemma_code_listed(consumer_disc_tickers(), t);
    }
    lemma_financials_codes();
    if financials_tickers().contains(t) {
        lemma_code_listed(financials_tickers(), t);
    }
    lemma_energy_codes();
    if energy_tickers().contains(t) {
        lemma_code_listed(energy_tickers(), t);
    }
    lemma_healthcare_codes();
    if healthcare_tickers().contains(t) {
        lemma_code_listed(healthcare_tickers(), t);
    }
}

proof fn lemma_commodities_sector(t: Seq<char>)
    requires
        commodities_tickers().contains(t),
    ensures
        ticker_sector(t) == "Commodities"@,
{
    lemma_commodities_codes();
    lemma_code_listed(commodities_tickers(), t);
    lemma_semis_codes();
    if semis_tickers().contains(t) {
        lemma_code_listed(semis_tickers(), t);
    }
    lemma_tech_codes();
    if tech_tickers().contains(t) {
        lemma_code_listed(tech_tickers(), t);
    }
    lemma_consumer_disc_codes();
    if consumer_disc_tickers().contains(t) {
        lemma_code_listed(consumer_disc_tickers(), t);
    }
    lemma_financials_codes();
    if financials_tickers().contains(t) {
        lemma_code_listed(financials_tickers(), t);
    }
    lemma_energy_codes();
    if energy_tickers().contains(t) {
        lemma_code_listed(energy_tickers(), t);
    }
    lemma_healthcare_codes();
    if healthcare_tickers().contains(t) {
        lemma_code_listed(healthcare_tickers(), t);
    }
    lemma_index_etf_codes();
    if index_etf_tickers().contains(t) {
        lemma_code_listed(index_etf_tickers(), t);
    }
}

proof fn lemma_utilities_sector(t: Seq<char>)
    requires
        utilities_tickers().contains(t),
    ensures
        ticker_sector(t) == "Utilities"@,
{
    lemma_utilities_codes();
    lemma_code_listed(utilities_tickers(), t);
    lemma_semis_codes();
    if semis_tickers().contains(t) {
        lemma_code_listed(semis_tickers(), t);
    }
    lemma_tech_codes();
    if tech_tickers().contains(t) {
        lemma_code_listed(tech_tickers(), t);
    }
    lemma_consumer_disc_codes();
    if consumer_disc_tickers().contains(t) {
        lemma_code_listed(consumer_disc_tickers(), t);
    }
    lemma_financials_codes();
    if financials_tickers().contains(t) {
        lemma_code_listed(financials_tickers(), t);
    }
    lemma_energy_codes();
    if energy_tickers().contains(t) {
        lemma_code_listed(energy_tickers(), t);
    }
    lemma_healthcare_codes();
    if healthcare_tickers().contains(t) {
        lemma_code_listed(healthcare_tickers(), t);
    }
    lemma_index_etf_codes();
    if index_etf_tickers().contains(t) {
        lemma_code_listed(index_etf_tickers(), t);
    }
    lemma_commodities_codes();
    if commodities_tickers().contains(t) {
        lemma_code_listed(commodities_tickers(), t);
    }
}

proof fn lemma_industrials_sector(t: Seq<char>)
    requires
        industrials_tickers().contains(t),
    ensures
        ticker_sector(t) == "Industrials"@,
{
    lemma_industrials_codes();
    lemma_code_listed(industrials_tickers(), t);
    lemma_semis_codes();
    if semis_tickers().contains(t) {
        lemma_code_listed(semis_tickers(), t);
    }
    lemma_tech_codes();
    if tech_tickers().contains(t) {
        lemma_code_listed(tech_tickers(), t);
    }
    lemma_consumer_disc_codes();
    if consumer_disc_tickers().contains(t) {
        lemma_code_listed(consumer_disc_tickers(), t);
    }
    lemma_financials_codes();
    if financials_tickers().contains(t) {
        lemma_code_listed(financials_tickers(), t);
    }
    lemma_energy_codes();
    if energy_tickers().contains(t) {
        lemma_code_listed(energy_tickers(), t);
    }
    lemma_healthcare_codes();
    if healthcare_tickers().contains(t) {
        lemma_code_listed(healthcare_tickers(), t);
    }
    lemma_index_etf_codes();
    if index_etf_tickers().contains(t) {
        lemma_code_listed(index_etf_tickers(), t);
    }
    lemma_commodities_codes();
    if commodities_tickers().contains(t) {
        lemma_code_listed(commodities_tickers(), t);
    }
    lemma_utilities_codes();
    if utilities_tickers().contains(t) {
        lemma_code_listed(utilities_tickers(), t);
    }
}

proof fn lemma_consumer_staples_sector(t: Seq<char>)
    requires
        consumer_staples_tickers().contains(t),
    ensures
        ticker_sector(t) == "Consumer Staples"@,
{
    lemma_consumer_staples_codes();
    lemma_code_listed(consumer_staples_tickers(), t);
    lemma_semis_codes();
    if semis_tickers().contains(t) {
        lemma_code_listed(semis_tickers(), t);
    }
    lemma_tech_codes();
    if tech_tickers().contains(t) {
        lemma_code_listed(tech_tickers(), t);
    }
    lemma_consumer_disc_codes();
    if consumer_disc_tickers().contains(t) {
        lemma_code_listed(consumer_disc_tickers(), t);
    }
    lemma_financials_codes();
    if financials_tickers().contains(t) {
        lemma_code_listed(financials_tickers(), t);
    }
    lemma_energy_codes();
    if energy_tickers().contains(t) {
        lemma_code_listed(energy_tickers(), t);
    }
    lemma_healthcare_codes();
    if healthcare_tickers().contains(t) {
        lemma_code_listed(healthcare_tickers(), t);
    }
    lemma_index_etf_codes();
    if index_etf_tickers().contains(t) {
        lemma_code_listed(index_etf_tickers(), t);
    }
    lemma_commodities_codes();
    if commodities_tickers().contains(t) {
        lemma_code_listed(commodities_tickers(), t);
    }
    lemma_utilities_codes();
    if utilities_tickers().contains(t) {
        lemma_code_listed(utilities_tickers(), t);
    }
    lemma_industrials_codes();
    if industrials_tickers().contains(t) {
        lemma_code_listed(industrials_tickers(), t);
    }
}

proof fn lemma_comm_services_sector(t: Seq<char>)
    requires
        comm_services_tickers().contains(t),
    ensures
        ticker_sector(t) == "Comm Services"@,
{
    lemma_comm_services_codes();
    lemma_code_listed(comm_services_tickers(), t);
    lemma_semis_codes();
    if semis_tickers().contains(t) {
        lemma_code_listed(semis_tickers(), t);
    }
    lemma_tech_codes();
    if tech_tickers().contains(t) {
        lemma_code_listed(tech_tickers(), t);
    }
    lemma_consumer_disc_codes();
    if consumer_disc_tickers().contains(t) {
        lemma_code_listed(consumer_disc_tickers(), t);
    }
    lemma_financials_codes();
    if financials_tickers().contains(t) {
        lemma_code_listed(financials_tickers(), t);
    }
    lemma_energy_codes();
    if energy_tickers().contains(t) {
        lemma_code_listed(energy_tickers(), t);
    }
    lemma_healthcare_codes();
    if healthcare_tickers().contains(t) {
        lemma_code_listed(healthcare_tickers(), t);
    }
    lemma_index_etf_codes();
    if index_etf_tickers().contains(t) {
        lemma_code_listed(index_etf_tickers(), t);
    }
    lemma_commodities_codes();
    if commodities_tickers().contains(t) {
        lemma_code_listed(commodities_tickers(), t);
    }
    lemma_utilities_codes();
    if utilities_tickers().contains(t) {
        lemma_code_listed(utilities_tickers(), t);
    }
    lemma_industrials_codes();
    if industrials_tickers().contains(t) {
        lemma_code_listed(industrials_tickers(), t);
    }
    lemma_consumer_staples_codes();
    if consumer_staples_tickers().contains(t) {
        lemma_code_listed(consumer_staples_tickers(), t);
    }
}

proof fn lemma_clean_energy_sector(t: Seq<char>)
    requires
        clean_energy_tickers().contains(t),
    ensures
        ticker_sector(t) == "Clean Energy"@,
{
    lemma_clean_energy_codes();
    lemma_code_listed(clean_energy_tickers(), t);
    lemma_semis_codes();
    if semis_tickers().contains(t) {
        lemma_code_listed(semis_tickers(), t);
    }
    lemma_tech_codes();
    if tech_tickers().contains(t) {
        lemma_code_listed(tech_tickers(), t);
    }
    lemma_consumer_disc_codes();
    if consumer_disc_tickers().contains(t) {
        lemma_code_listed(consumer_disc_tickers(), t);
    }
    lemma_financials_codes();
    if financials_tickers().contains(t) {
        lemma_code_listed(financials_tickers(), t);
    }
    lemma_energy_codes();
    if energy_tickers().contains(t) {
        lemma_code_listed(energy_tickers(), t);
    }
    lemma_healthcare_codes();
    if healthcare_tickers().contains(t) {
        lemma_code_listed(healthcare_tickers(), t);
    }
    lemma_index_etf_codes();
    if index_etf_tickers().contains(t) {
        lemma_code_listed(index_etf_tickers(), t);
    }
    lemma_commodities_codes();
    if commodities_tickers().contains(t) {
        lemma_code_listed(commodities_tickers(), t);
    }
    lemma_utilities_codes();
    if utilities_tickers().contains(t) {
        lemma_code_listed(utilities_tickers(), t);
    }
    lemma_industrials_codes();
    if industrials_tickers().contains(t) {
        lemma_code_listed(industrials_tickers(), t);
    }
    lemma_consumer_staples_codes();
    if consumer_staples_tickers().contains(t) {
        lemma_code_listed(consumer_staples_tickers(), t);
    }
    lemma_comm_services_codes();
    if comm_services_tickers().contains(t) {
        lemma_code_listed(comm_services_tickers(), t);
    }
}

proof fn lemma_reits_sector(t: Seq<char>)
    requires
        reits_tickers().contains(t),
    ensures
        ticker_sector(t) == "REITs"@,
{
    lemma_reits_codes();
    lemma_code_listed(reits_tickers(), t);
    lemma_semis_codes();
    if semis_tickers().contains(t) {
        lemma_code_listed(semis_tickers(), t);
    }
    lemma_tech_codes();
    if tech_tickers().contains(t) {
        lemma_code_listed(tech_tickers(), t);
    }
    lemma_consumer_disc_codes();
    if consumer_disc_tickers().contains(t) {
        lemma_code_listed(consumer_disc_tickers(), t);
    }
    lemma_financials_codes();
    if financials_tickers().contains(t) {
        lemma_code_listed(financials_tickers(), t);
    }
    lemma_energy_codes();
    if energy_tickers().contains(t) {
        lemma_code_listed(energy_tickers(), t);
    }
    lemma_healthcare_codes();
    if healthcare_tickers().contains(t) {
        lemma_code_listed(healthcare_tickers(), t);
    }
    lemma_index_etf_codes();
    if index_etf_tickers().contains(t) {
        lemma_code_listed(index_etf_tickers(), t);
    }
    lemma_commodities_codes();
    if commodities_tickers().contains(t) {
        lemma_code_listed(commodities_tickers(), t);
    }
    lemma_utilities_codes();
    if utilities_tickers().contains(t) {
        lemma_code_listed(utilities_tickers(), t);
    }
    lemma_industrials_codes();
    if industrials_tickers().contains(t) {
        lemma_code_listed(industrials_tickers(), t);
    }
    lemma_consumer_staples_codes();
    if consumer_staples_tickers().contains(t) {
        lemma_code_listed(consumer_staples_tickers(), t);
    }
    lemma_comm_services_codes();
    if comm_services_tickers().contains(t) {
        lemma_code_listed(comm_services_tickers(), t);
    }
    lemma_clean_energy_codes();
    if clean_energy_tickers().contains(t) {
        lemma_code_listed(clean_energy_tickers(), t);
    }
}

/// Every ticker of a built-in sector list is grouped under that list's
/// sector (no ticker is in two lists), and a ticker in no list is "Other".
pub proof fn lemma_listed_tickers_take_their_sector(t: Seq<char>)
    ensures
        semis_tickers().contains(t) ==> ticker_sector(t) == "Semis"@,
        tech_tickers().contains(t) ==> ticker_sector(t) == "Tech"@,
        consumer_disc_tickers().contains(t) ==> ticker_sector(t) == "Consumer Disc"@,
        financials_tickers().contains(t) ==> ticker_sector(t) == "Financials"@,
        energy_tickers().contains(t) ==> ticker_sector(t) == "Energy"@,
        healthcare_tickers().contains(t) ==> ticker_sector(t) == "Healthcare"@,
        index_etf_tickers().contains(t) ==> ticker_sector(t) == "Index ETF"@,
        commodities_tickers().contains(t) ==> ticker_sector(t) == "Commodities"@,
        utilities_tickers().contains(t) ==> ticker_sector(t) == "Utilities"@,
        industrials_tickers().contains(t) ==> ticker_sector(t) == "Industrials"@,
        consumer_staples_tickers().contains(t) ==> ticker_sector(t) == "Consumer Staples"@,
        comm_services_tickers().contains(t) ==> ticker_sector(t) == "Comm Services"@,
        clean_energy_tickers().contains(t) ==> ticker_sector(t) == "Clean Energy"@,
        reits_tickers().contains(t) ==> ticker_sector(t) == "REITs"@,
        (!semis_tickers().contains(t) && !tech_tickers().contains(t) && !consumer_disc_tickers().contains(t) && !financials_tickers().contains(t) && !energy_tickers().contains(t) && !healthcare_tickers().contains(t) && !index_etf_tickers().contains(t) && !commodities_tickers().contains(t) && !utilities_tickers().contains(t) && !industrials_tickers().contains(t) && !consumer_staples_tickers().contains(t) && !comm_services_tickers().contains(t) && !clean_energy_tickers().contains(t) && !reits_tickers().contains(t)) ==> ticker_sector(t) == "Other"@,
{
    if semis_tickers().contains(t) {
        lemma_semis_sector(t);
    }
    if tech_tickers().contains(t) {
        lemma_tech_sector(t);
    }
    if consumer_disc_tickers().contains(t) {
        lemma_consumer_disc_sector(t);
    }
    if financials_tickers().contains(t) {
        lemma_financials_sector(t);
    }
    if energy_tickers().contains(t) {
        lemma_energy_sector(t);
    }
    if healthcare_tickers().contains(t) {
        lemma_healthcare_sector(t);
    }
    if index_etf_tickers().contains(t) {
        lemma_index_etf_sector(t);
    }
    if commodities_tickers().contains(t) {
        lemma_commodities_sector(t);
    }
    if utilities_tickers().contains(t) {
        lemma_utilities_sector(t);
    }
    if industrials_tickers().contains(t) {
        lemma_industrials_sector(t);
    }
    if consumer_staples_tickers().contains(t) {
        lemma_consumer_staples_sector(t);
    }
    if comm_services_tickers().contains(t) {
        lemma_comm_services_sector(t);
    }
    if clean_energy_tickers().contains(t) {
        lemma_clean_energy_sector(t);
    }
    if reits_tickers().contains(t) {
        lemma_reits_sector(t);
    }
}

fn listed(list: &Vec<&'static str>, t: &str) -> (r: bool)
    ensures
        r == list@.map_values(|x: &str| x@).contains(t@),
{
    let ghost views = list@.map_values(|x: &str| x@);
    let mut i: usize = 0;
    while i < list.len()
        invariant
            views == list@.map_values(|x: &str| x@),
            i <= list@.len(),
            forall|j: int| 0 <= j < i ==> views[j] != t@,
        decreases list@.len() - i,
    {
        if crate::text::str_eq(list[i], t) {
            assert(views[i as int] == t@);
            return true;
        }
        i = i + 1;
    }
    false
}

/// The correlated group a ticker belongs to, for concentration alerts;
/// tickers outside the built-in map are "Other".
pub fn get_sector(ticker: &str) -> (r: &'static str)
    ensures
        r@ == ticker_sector(ticker@),
{
    if listed(&semis_list(), ticker) {
        "Semis"
    } else if listed(&tech_list(), ticker) {
        "Tech"
    } else if listed(&consumer_disc_list(), ticker) {
        "Consumer Disc"
    } else if listed(&financials_list(), ticker) {
        "Financials"
    } else if listed(&energy_list(), ticker) {
        "Energy"
    } else if listed(&healthcare_list(), ticker) {
        "Healthcare"
    } else if listed(&index_etf_list(), ticker) {
        "Index ETF"
    } else if listed(&commodities_list(), ticker) {
        "Commodities"
    } else if listed(&utilities_list(), ticker) {
        "Utilities"
    } else if listed(&industrials_list(), ticker) {
        "Industrials"
    } else if listed(&consumer_staples_list(), ticker) {
        "Consumer Staples"
    } else if listed(&comm_services_list(), ticker) {
        "Comm Services"
    } else if listed(&clean_energy_list(), ticker) {
        "Clean Energy"
    } else if listed(&reits_list(), ticker) {
        "REITs"
    } else {
        "Other"
    }
}

} // verus!
