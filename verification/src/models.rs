use vstd::prelude::*;
use crate::text::str_eq;

verus! {

// ─────────────────────────────── strategy types ───────────────────────────────

/// An options strategy, stored as a snake_case string in the journal.
#[derive(Debug, Clone, Copy, PartialEq, Eq, Hash, Structural)]
pub enum StrategyType {
    ShortPutVertical,
    ShortCallVertical,
    IronCondor,
    IronButterfly,
    Strangle,
    Straddle,
    CalendarSpread,
    CashSecuredPut,
    CoveredCall,
    Pmcc,
    LongDiagonalSpread,
    ShortDiagonalSpread,
    LongCallVertical,
    LongPutVertical,
    PutZebra,
    CallZebra,
    Custom,
    PutBrokenWingButterfly,
    CallBrokenWingButterfly,
    JadeLizard,
    PutButterfly,
    CallButterfly,
}

/// Human-readable name of a strategy.
pub open spec fn strategy_label(s: StrategyType) -> Seq<char> {
    match s {
        StrategyType::ShortPutVertical => "Short Put Vertical"@,
        StrategyType::ShortCallVertical => "Short Call Vertical"@,
        StrategyType::IronCondor => "Iron Condor"@,
        StrategyType::IronButterfly => "Iron Butterfly"@,
        StrategyType::Strangle => "Strangle"@,
        StrategyType::Straddle => "Straddle"@,
        StrategyType::CalendarSpread => "Calendar Spread"@,
        StrategyType::CashSecuredPut => "Cash Secured Put"@,
        StrategyType::CoveredCall => "Covered Call"@,
        StrategyType::Pmcc => "Poor Man's Covered Call"@,
        StrategyType::LongDiagonalSpread => "Long Diagonal Spread"@,
        StrategyType::ShortDiagonalSpread => "Short Diagonal Spread"@,
        StrategyType::LongCallVertical => "Long Call Vertical"@,
        StrategyType::LongPutVertical => "Long Put Vertical"@,
        StrategyType::PutZebra => "Put ZEBRA"@,
        StrategyType::CallZebra => "Call ZEBRA"@,
        StrategyType::Custom => "Custom / Ratio Spread"@,
        StrategyType::PutBrokenWingButterfly => "Put Broken Wing Butterfly"@,
        StrategyType::CallBrokenWingButterfly => "Call Broken Wing Butterfly"@,
        StrategyType::JadeLizard => "Jade Lizard"@,
        StrategyType::PutButterfly => "Put Butterfly"@,
        StrategyType::CallButterfly => "Call Butterfly"@,
    }
}

/// Short badge of a strategy.
pub open spec fn strategy_badge(s: StrategyType) -> Seq<char> {
    match s {
        StrategyType::ShortPutVertical => "SPV"@,
        StrategyType::ShortCallVertical => "SCV"@,
        StrategyType::IronCondor => "IC"@,
        StrategyType::IronButterfly => "IB"@,
        StrategyType::Strangle => "STR"@,
        StrategyType::Straddle => "STD"@,
        StrategyType::CalendarSpread => "CAL"@,
        StrategyType::CashSecuredPut => "CSP"@,
        StrategyType::CoveredCall => "CC"@,
        StrategyType::Pmcc => "PMCC"@,
        StrategyType::LongDiagonalSpread => "LDS"@,
        StrategyType::ShortDiagonalSpread => "SDS"@,
        StrategyType::LongCallVertical => "LCV"@,
        StrategyType::LongPutVertical => "LPV"@,
        StrategyType::PutZebra => "PZBR"@,
        StrategyType::CallZebra => "CZBR"@,
        StrategyType::Custom => "CUST"@,
        StrategyType::PutBrokenWingButterfly => "PBWB"@,
        StrategyType::CallBrokenWingButterfly => "CBWB"@,
        StrategyType::JadeLizard => "JL"@,
        StrategyType::PutButterfly => "PBF"@,
        StrategyType::CallButterfly => "CBF"@,
    }
}

/// The snake_case key under which a strategy is stored.
pub open spec fn strategy_key(s: StrategyType) -> Seq<char> {
    match s {
        StrategyType::ShortPutVertical => "short_put_vertical"@,
        StrategyType::ShortCallVertical => "short_call_vertical"@,
        StrategyType::IronCondor => "iron_condor"@,
        StrategyType::IronButterfly => "iron_butterfly"@,
        StrategyType::Strangle => "strangle"@,
        StrategyType::Straddle => "straddle"@,
        StrategyType::CalendarSpread => "calendar_spread"@,
        StrategyType::CashSecuredPut => "cash_secured_put"@,
        StrategyType::CoveredCall => "covered_call"@,
        StrategyType::Pmcc => "pmcc"@,
        StrategyType::LongDiagonalSpread => "long_diagonal_spread"@,
        StrategyType::ShortDiagonalSpread => "short_diagonal_spread"@,
        StrategyType::LongCallVertical => "long_call_vertical"@,
        StrategyType::LongPutVertical => "long_put_vertical"@,
        StrategyType::PutZebra => "pzbr"@,
        StrategyType::CallZebra => "czbr"@,
        StrategyType::Custom => "custom"@,
        StrategyType::PutBrokenWingButterfly => "put_broken_wing_butterfly"@,
        StrategyType::CallBrokenWingButterfly => "call_broken_wing_butterfly"@,
        StrategyType::JadeLizard => "jade_lizard"@,
        StrategyType::PutButterfly => "put_butterfly"@,
        StrategyType::CallButterfly => "call_butterfly"@,
    }
}

/// The strategy that a stored key names; unknown keys read as `Custom`.
/// Standalone `long_put` / `long_call` keys read as the matching long vertical.
pub open spec fn strategy_from_key(k: Seq<char>) -> StrategyType {
    if k == "short_put_vertical"@ { StrategyType::ShortPutVertical }
    else if k == "short_call_vertical"@ { StrategyType::ShortCallVertical }
    else if k == "iron_condor"@ { StrategyType::IronCondor }
    else if k == "iron_butterfly"@ { StrategyType::IronButterfly }
    else if k == "strangle"@ { StrategyType::Strangle }
    else if k == "straddle"@ { StrategyType::Straddle }
    else if k == "calendar_spread"@ { StrategyType::CalendarSpread }
    else if k == "cash_secured_put"@ { StrategyType::CashSecuredPut }
    else if k == "covered_call"@ { StrategyType::CoveredCall }
    else if k == "pmcc"@ { StrategyType::Pmcc }
    else if k == "long_diagonal_spread"@ { StrategyType::LongDiagonalSpread }
    else if k == "short_diagonal_spread"@ { StrategyType::ShortDiagonalSpread }
    else if k == "long_call_vertical"@ { StrategyType::LongCallVertical }
    else if k == "long_put_vertical"@ { StrategyType::LongPutVertical }
    else if k == "long_put"@ { StrategyType::LongPutVertical }
    else if k == "long_call"@ { StrategyType::LongCallVertical }
    else if k == "pzbr"@ { StrategyType::PutZebra }
    else if k == "czbr"@ { StrategyType::CallZebra }
    else if k == "put_broken_wing_butterfly"@ { StrategyType::PutBrokenWingButterfly }
    else if k == "call_broken_wing_butterfly"@ { StrategyType::CallBrokenWingButterfly }
    else if k == "jade_lizard"@ { StrategyType::JadeLizard }
    else if k == "put_butterfly"@ { StrategyType::PutButterfly }
    else if k == "call_butterfly"@ { StrategyType::CallButterfly }
    else { StrategyType::Custom }
}

/// Recommended entry DTE window `(min, max)`, where one is published.
pub open spec fn strategy_entry_dte(s: StrategyType) -> Option<(i32, i32)> {
    match s {
        StrategyType::IronCondor | StrategyType::IronButterfly => Some((40, 55)),
        StrategyType::CashSecuredPut | StrategyType::CoveredCall => Some((30, 45)),
        StrategyType::ShortPutVertical | StrategyType::ShortCallVertical => Some((21, 45)),
        StrategyType::Strangle | StrategyType::Straddle => Some((25, 45)),
        StrategyType::CalendarSpread | StrategyType::Pmcc => Some((30, 60)),
        StrategyType::LongCallVertical | StrategyType::LongPutVertical => Some((21, 45)),
        StrategyType::JadeLizard => Some((21, 45)),
        StrategyType::PutBrokenWingButterfly | StrategyType::CallBrokenWingButterfly => Some((30, 45)),
        StrategyType::PutButterfly | StrategyType::CallButterfly => Some((15, 45)),
        _ => None,
    }
}

impl StrategyType {
    /// Human-readable label.
    pub fn label(&self) -> (r: &'static str)
        ensures
            r@ == strategy_label(*self),
    {
        match self {
            StrategyType::ShortPutVertical => "Short Put Vertical",
            StrategyType::ShortCallVertical => "Short Call Vertical",
            StrategyType::IronCondor => "Iron Condor",
            StrategyType::IronButterfly => "Iron Butterfly",
            StrategyType::Strangle => "Strangle",
            StrategyType::Straddle => "Straddle",
            StrategyType::CalendarSpread => "Calendar Spread",
            StrategyType::CashSecuredPut => "Cash Secured Put",
            StrategyType::CoveredCall => "Covered Call",
            StrategyType::Pmcc => "Poor Man's Covered Call",
            StrategyType::LongDiagonalSpread => "Long Diagonal Spread",
            StrategyType::ShortDiagonalSpread => "Short Diagonal Spread",
            StrategyType::LongCallVertical => "Long Call Vertical",
            StrategyType::LongPutVertical => "Long Put Vertical",
            StrategyType::PutZebra => "Put ZEBRA",
            StrategyType::CallZebra => "Call ZEBRA",
            StrategyType::Custom => "Custom / Ratio Spread",
            StrategyType::PutBrokenWingButterfly => "Put Broken Wing Butterfly",
            StrategyType::CallBrokenWingButterfly => "Call Broken Wing Butterfly",
            StrategyType::JadeLizard => "Jade Lizard",
            StrategyType::PutButterfly => "Put Butterfly",
            StrategyType::CallButterfly => "Call Butterfly",
        }
    }

    /// Short badge.
    pub fn badge(&self) -> (r: &'static str)
        ensures
            r@ == strategy_badge(*self),
    {
        match self {
            StrategyType::ShortPutVertical => "SPV",
            StrategyType::ShortCallVertical => "SCV",
            StrategyType::IronCondor => "IC",
            StrategyType::IronButterfly => "IB",
            StrategyType::Strangle => "STR",
            StrategyType::Straddle => "STD",
            StrategyType::CalendarSpread => "CAL",
            StrategyType::CashSecuredPut => "CSP",
            StrategyType::CoveredCall => "CC",
            StrategyType::Pmcc => "PMCC",
            StrategyType::LongDiagonalSpread => "LDS",
            StrategyType::ShortDiagonalSpread => "SDS",
            StrategyType::LongCallVertical => "LCV",
            StrategyType::LongPutVertical => "LPV",
            StrategyType::PutZebra => "PZBR",
            StrategyType::CallZebra => "CZBR",
            StrategyType::Custom => "CUST",
            StrategyType::PutBrokenWingButterfly => "PBWB",
            StrategyType::CallBrokenWingButterfly => "CBWB",
            StrategyType::JadeLizard => "JL",
            StrategyType::PutButterfly => "PBF",
            StrategyType::CallButterfly => "CBF",
        }
    }

    /// Reads a stored snake_case key; unknown keys give `Custom`.
    pub fn from_str(s: &str) -> (r: StrategyType)
        ensures
            r == strategy_from_key(s@),
    {
        if str_eq(s, "short_put_vertical") { StrategyType::ShortPutVertical }
        else if str_eq(s, "short_call_vertical") { StrategyType::ShortCallVertical }
        else if str_eq(s, "iron_condor") { StrategyType::IronCondor }
        else if str_eq(s, "iron_butterfly") { StrategyType::IronButterfly }
        else if str_eq(s, "strangle") { StrategyType::Strangle }
        else if str_eq(s, "straddle") { StrategyType::Straddle }
        else if str_eq(s, "calendar_spread") { StrategyType::CalendarSpread }
        else if str_eq(s, "cash_secured_put") { StrategyType::CashSecuredPut }
        else if str_eq(s, "covered_call") { StrategyType::CoveredCall }
        else if str_eq(s, "pmcc") { StrategyType::Pmcc }
        else if str_eq(s, "long_diagonal_spread") { StrategyType::LongDiagonalSpread }
        else if str_eq(s, "short_diagonal_spread") { StrategyType::ShortDiagonalSpread }
        else if str_eq(s, "long_call_vertical") { StrategyType::LongCallVertical }
        else if str_eq(s, "long_put_vertical") { StrategyType::LongPutVertical }
        else if str_eq(s, "long_put") { StrategyType::LongPutVertical }
        else if str_eq(s, "long_call") { StrategyType::LongCallVertical }
        else if str_eq(s, "pzbr") { StrategyType::PutZebra }
        else if str_eq(s, "czbr") { StrategyType::CallZebra }
        else if str_eq(s, "put_broken_wing_butterfly") { StrategyType::PutBrokenWingButterfly }
        else if str_eq(s, "call_broken_wing_butterfly") { StrategyType::CallBrokenWingButterfly }
        else if str_eq(s, "jade_lizard") { StrategyType::JadeLizard }
        else if str_eq(s, "put_butterfly") { StrategyType::PutButterfly }
        else if str_eq(s, "call_butterfly") { StrategyType::CallButterfly }
        else { StrategyType::Custom }
    }

    /// The snake_case key written to storage.
    pub fn as_str(&self) -> (r: &'static str)
        ensures
            r@ == strategy_key(*self),
    {
        match self {
            StrategyType::ShortPutVertical => "short_put_vertical",
            StrategyType::ShortCallVertical => "short_call_vertical",
            StrategyType::IronCondor => "iron_condor",
            StrategyType::IronButterfly => "iron_butterfly",
            StrategyType::Strangle => "strangle",
            StrategyType::Straddle => "straddle",
            StrategyType::CalendarSpread => "calendar_spread",
            StrategyType::CashSecuredPut => "cash_secured_put",
            StrategyType::CoveredCall => "covered_call",
            StrategyType::Pmcc => "pmcc",
            StrategyType::LongDiagonalSpread => "long_diagonal_spread",
            StrategyType::ShortDiagonalSpread => "short_diagonal_spread",
            StrategyType::LongCallVertical => "long_call_vertical",
            StrategyType::LongPutVertical => "long_put_vertical",
            StrategyType::PutZebra => "pzbr",
            StrategyType::CallZebra => "czbr",
            StrategyType::Custom => "custom",
            StrategyType::PutBrokenWingButterfly => "put_broken_wing_butterfly",
            StrategyType::CallBrokenWingButterfly => "call_broken_wing_butterfly",
            StrategyType::JadeLizard => "jade_lizard",
            StrategyType::PutButterfly => "put_butterfly",
            StrategyType::CallButterfly => "call_butterfly",
        }
    }

    /// Whether the strategy has capped risk: every strategy but strangles,
    /// straddles and custom positions.
    pub fn is_defined_risk(&self) -> (r: bool)
        ensures
            r == !(*self is Strangle || *self is Straddle || *self is Custom),
    {
        matches!(self,
            StrategyType::IronCondor
            | StrategyType::IronButterfly
            | StrategyType::ShortPutVertical
            | StrategyType::ShortCallVertical
            | StrategyType::LongPutVertical
            | StrategyType::LongCallVertical
            | StrategyType::CashSecuredPut
            | StrategyType::CoveredCall
            | StrategyType::CalendarSpread
            | StrategyType::Pmcc
            | StrategyType::LongDiagonalSpread
            | StrategyType::ShortDiagonalSpread
            | StrategyType::PutBrokenWingButterfly
            | StrategyType::CallBrokenWingButterfly
            | StrategyType::PutZebra
            | StrategyType::CallZebra
            | StrategyType::JadeLizard
            | StrategyType::PutButterfly
            | StrategyType::CallButterfly
        )
    }

    /// Whether the open position's buying power counts as undefined risk in
    /// the portfolio mix: cash-secured puts, covered calls, strangles and
    /// straddles.
    pub fn counts_as_undefined_risk(&self) -> (r: bool)
        ensures
            r == (*self is CashSecuredPut || *self is CoveredCall || *self is Strangle || *self is Straddle),
    {
        matches!(self,
            StrategyType::CashSecuredPut | StrategyType::CoveredCall | StrategyType::Strangle | StrategyType::Straddle
        )
    }

    /// Whether the strategy is delta-neutral by design (its net delta says
    /// little about how close its short strikes are): iron condors, iron
    /// butterflies, strangles, straddles and calendars.
    pub fn is_neutral(&self) -> (r: bool)
        ensures
            r == (*self is IronCondor || *self is IronButterfly || *self is Strangle || *self is Straddle
                || *self is CalendarSpread),
    {
        matches!(self,
            StrategyType::IronCondor | StrategyType::IronButterfly | StrategyType::Strangle
            | StrategyType::Straddle | StrategyType::CalendarSpread
        )
    }

    /// Recommended entry DTE window `(min, max)`; `None` where DTE does not apply.
    pub fn recommended_entry_dte(&self) -> (r: Option<(i32, i32)>)
        ensures
            r == strategy_entry_dte(*self),
    {
        match self {
            StrategyType::IronCondor | StrategyType::IronButterfly => Some((40, 55)),
            StrategyType::CashSecuredPut | StrategyType::CoveredCall => Some((30, 45)),
            StrategyType::ShortPutVertical | StrategyType::ShortCallVertical => Some((21, 45)),
            StrategyType::Strangle | StrategyType::Straddle => Some((25, 45)),
            StrategyType::CalendarSpread | StrategyType::Pmcc => Some((30, 60)),
            StrategyType::LongCallVertical | StrategyType::LongPutVertical => Some((21, 45)),
            StrategyType::JadeLizard => Some((21, 45)),
            StrategyType::PutBrokenWingButterfly | StrategyType::CallBrokenWingButterfly => Some((30, 45)),
            StrategyType::PutButterfly | StrategyType::CallButterfly => Some((15, 45)),
            _ => None,
        }
    }
}


// ─────────────────────────────── leg types ───────────────────────────────

/// The side and right of one option leg.
#[derive(Debug, Clone, Copy, PartialEq, Eq, Hash, Structural)]
pub enum LegType {
    ShortPut,
    LongPut,
    ShortCall,
    LongCall,
}

/// Label of a leg type as shown in selection lists.
pub open spec fn leg_label(l: LegType) -> Seq<char> {
    match l {
        LegType::ShortPut => "Short Put"@,
        LegType::LongPut => "Long Put"@,
        LegType::ShortCall => "Short Call"@,
        LegType::LongCall => "Long Call"@,
    }
}

/// The leg type that a stored key or a label names.
pub open spec fn leg_from_text(s: Seq<char>) -> Option<LegType> {
    if s == "short_put"@ || s == "Short Put"@ { Some(LegType::ShortPut) }
    else if s == "long_put"@ || s == "Long Put"@ { Some(LegType::LongPut) }
    else if s == "short_call"@ || s == "Short Call"@ { Some(LegType::ShortCall) }
    else if s == "long_call"@ || s == "Long Call"@ { Some(LegType::LongCall) }
    else { None }
}

/// The four leg labels in the canonical selection order.
pub open spec fn leg_options() -> Seq<Seq<char>> {
    seq!["Short Put"@, "Long Put"@, "Short Call"@, "Long Call"@]
}

impl LegType {
    /// Sold (written) leg.
    pub fn is_short(&self) -> (r: bool)
        ensures
            r == (*self is ShortPut || *self is ShortCall),
    {
        matches!(self, LegType::ShortPut | LegType::ShortCall)
    }

    /// Call leg.
    pub fn is_call(&self) -> (r: bool)
        ensures
            r == (*self is ShortCall || *self is LongCall),
    {
        matches!(self, LegType::ShortCall | LegType::LongCall)
    }

    /// Put leg.
    pub fn is_put(&self) -> (r: bool)
        ensures
            r == (*self is ShortPut || *self is LongPut),
    {
        matches!(self, LegType::ShortPut | LegType::LongPut)
    }

    /// Reads a stored key (`short_put`) or a label (`Short Put`).
    pub fn from_str(s: &str) -> (r: Option<LegType>)
        ensures
            r == leg_from_text(s@),
    {
        if str_eq(s, "short_put") || str_eq(s, "Short Put") { Some(LegType::ShortPut) }
        else if str_eq(s, "long_put") || str_eq(s, "Long Put") { Some(LegType::LongPut) }
        else if str_eq(s, "short_call") || str_eq(s, "Short Call") { Some(LegType::ShortCall) }
        else if str_eq(s, "long_call") || str_eq(s, "Long Call") { Some(LegType::LongCall) }
        else { None }
    }

    /// Label used in selection lists.
    pub fn label(&self) -> (r: &'static str)
        ensures
            r@ == leg_label(*self),
    {
        match self {
            LegType::ShortPut => "Short Put",
            LegType::LongPut => "Long Put",
            LegType::ShortCall => "Short Call",
            LegType::LongCall => "Long Call",
        }
    }

    /// All four labels in the canonical selection order.
    pub fn all_options() -> (v: Vec<String>)
        ensures
            v@.len() == 4,
            forall|i: int| 0 <= i < 4 ==> #[trigger] v@[i]@ == leg_options()[i],
    {
        let mut v: Vec<String> = Vec::new();
        v.push("Short Put".to_string());
        v.push("Long Put".to_string());
        v.push("Short Call".to_string());
        v.push("Long Call".to_string());
        v
    }
}

/// Reading back a label gives the leg type it labels.
pub proof fn lemma_leg_label_round_trip(l: LegType)
    ensures
        leg_from_text(leg_label(l)) == Some(l),
{
    reveal_strlit("short_put");
    reveal_strlit("Short Put");
    reveal_strlit("long_put");
    reveal_strlit("Long Put");
    reveal_strlit("short_call");
    reveal_strlit("Short Call");
    reveal_strlit("long_call");
    reveal_strlit("Long Call");
    match l {
        LegType::ShortPut => {},
        LegType::LongPut => {
            assert("Long Put"@[0] != "short_put"@[0]);
            assert("Long Put"@.len() != "Short Put"@.len());
        },
        LegType::ShortCall => {
            assert("Short Call"@.len() != "short_put"@.len());
            assert("Short Call"@.len() != "Short Put"@.len());
            assert("Short Call"@.len() != "long_put"@.len());
            assert("Short Call"@[0] != "Long Put"@[0]);
        },
        LegType::LongCall => {
            assert("Long Call"@[0] != "short_put"@[0]);
            assert("Long Call"@[0] != "Short Put"@[0]);
            assert("Long Call"@.len() != "long_put"@.len());
            assert("Long Call"@.len() != "Long Put"@.len());
            assert("Long Call"@[0] != "short_call"@[0]);
            assert("Long Call"@.len() != "Short Call"@.len());
        },
    }
}

// ─────────────────────────────── leg templates ───────────────────────────────

/// Canonical leg types of a strategy, in display order; the free-form
/// strategies (ZEBRAs and custom) have none.
pub open spec fn leg_template(s: StrategyType) -> Seq<LegType> {
    match s {
        StrategyType::ShortPutVertical => seq![LegType::ShortPut, LegType::LongPut],
        StrategyType::ShortCallVertical => seq![LegType::ShortCall, LegType::LongCall],
        StrategyType::IronCondor => seq![LegType::ShortPut, LegType::LongPut, LegType::ShortCall, LegType::LongCall],
        StrategyType::IronButterfly => seq![LegType::ShortPut, LegType::LongPut, LegType::ShortCall, LegType::LongCall],
        StrategyType::Strangle => seq![LegType::ShortPut, LegType::ShortCall],
        StrategyType::Straddle => seq![LegType::ShortPut, LegType::ShortCall],
        StrategyType::CalendarSpread => seq![LegType::ShortCall, LegType::LongCall],
        StrategyType::CashSecuredPut => seq![LegType::ShortPut],
        StrategyType::CoveredCall => seq![LegType::ShortCall],
        StrategyType::Pmcc => seq![LegType::LongCall, LegType::ShortCall],
        StrategyType::LongDiagonalSpread => seq![LegType::LongCall, LegType::ShortCall],
        StrategyType::ShortDiagonalSpread => seq![LegType::ShortCall, LegType::LongCall],
        StrategyType::LongCallVertical => seq![LegType::LongCall, LegType::ShortCall],
        StrategyType::LongPutVertical => seq![LegType::LongPut, LegType::ShortPut],
        StrategyType::PutZebra => Seq::empty(),
        StrategyType::CallZebra => Seq::empty(),
        StrategyType::Custom => Seq::empty(),
        StrategyType::PutBrokenWingButterfly => seq![LegType::ShortPut, LegType::LongPut, LegType::LongPut],
        StrategyType::CallBrokenWingButterfly => seq![LegType::LongCall, LegType::ShortCall, LegType::LongCall],
        StrategyType::JadeLizard => seq![LegType::ShortPut, LegType::ShortCall, LegType::LongCall],
        StrategyType::PutButterfly => seq![LegType::LongPut, LegType::ShortPut, LegType::LongPut],
        StrategyType::CallButterfly => seq![LegType::LongCall, LegType::ShortCall, LegType::LongCall],
    }
}

/// Returns the canonical leg types for a strategy, in display order.
pub fn strategy_leg_template(strategy: &StrategyType) -> (v: Vec<LegType>)
    ensures
        v@ == leg_template(*strategy),
{
    match strategy {
        StrategyType::ShortPutVertical => vec![LegType::ShortPut, LegType::LongPut],
        StrategyType::ShortCallVertical => vec![LegType::ShortCall, LegType::LongCall],
        StrategyType::IronCondor => vec![LegType::ShortPut, LegType::LongPut, LegType::ShortCall, LegType::LongCall],
        StrategyType::IronButterfly => vec![LegType::ShortPut, LegType::LongPut, LegType::ShortCall, LegType::LongCall],
        StrategyType::Strangle => vec![LegType::ShortPut, LegType::ShortCall],
        StrategyType::Straddle => vec![LegType::ShortPut, LegType::ShortCall],
        StrategyType::CalendarSpread => vec![LegType::ShortCall, LegType::LongCall],
        StrategyType::CashSecuredPut => vec![LegType::ShortPut],
        StrategyType::CoveredCall => vec![LegType::ShortCall],
        StrategyType::Pmcc => vec![LegType::LongCall, LegType::ShortCall],
        StrategyType::LongDiagonalSpread => vec![LegType::LongCall, LegType::ShortCall],
        StrategyType::ShortDiagonalSpread => vec![LegType::ShortCall, LegType::LongCall],
        StrategyType::LongCallVertical => vec![LegType::LongCall, LegType::ShortCall],
        StrategyType::LongPutVertical => vec![LegType::LongPut, LegType::ShortPut],
        StrategyType::PutZebra => vec![],
        StrategyType::CallZebra => vec![],
        StrategyType::Custom => vec![],
        StrategyType::PutBrokenWingButterfly => vec![LegType::ShortPut, LegType::LongPut, LegType::LongPut],
        StrategyType::CallBrokenWingButterfly => vec![LegType::LongCall, LegType::ShortCall, LegType::LongCall],
        StrategyType::JadeLizard => vec![LegType::ShortPut, LegType::ShortCall, LegType::LongCall],
        StrategyType::PutButterfly => vec![LegType::LongPut, LegType::ShortPut, LegType::LongPut],
        StrategyType::CallButterfly => vec![LegType::LongCall, LegType::ShortCall, LegType::LongCall],
    }
}


// ─────────────────────────────── leg merging ───────────────────────────────

/// Strategies whose legs the user builds freely: a strategy change keeps
/// their legs as they are.
pub open spec fn is_free_form(s: StrategyType) -> bool {
    s is Custom || s is PutZebra || s is CallZebra
}

/// The first leg at or after `from` that has type `t` and that no slot of
/// `taken` already claims.
pub open spec fn first_free_leg(
    existing: Seq<LegType>,
    t: LegType,
    taken: Seq<Option<usize>>,
    from: nat,
) -> Option<usize>
    decreases existing.len() - from,
{
    if from >= existing.len() {
        None
    } else if existing[from as int] == t && !taken.contains(Some(from as usize)) {
        Some(from as usize)
    } else {
        first_free_leg(existing, t, taken, from + 1)
    }
}

/// For each template slot in turn, the first unclaimed existing leg of the
/// slot's type, or `None` when a new empty leg must be created.
pub open spec fn merge_slots(existing: Seq<LegType>, template: Seq<LegType>) -> Seq<Option<usize>>
    decreases template.len(),
{
    if template.len() == 0 {
        Seq::empty()
    } else {
        let prev = merge_slots(existing, template.drop_last());
        prev.push(first_free_leg(existing, template.last(), prev, 0))
    }
}

/// The indices below `n` that no slot claims, ascending.
pub open spec fn unclaimed_legs(slots: Seq<Option<usize>>, n: nat) -> Seq<usize>
    decreases n,
{
    if n == 0 {
        Seq::empty()
    } else {
        let prev = unclaimed_legs(slots, (n - 1) as nat);
        if slots.contains(Some((n - 1) as usize)) {
            prev
        } else {
            prev.push((n - 1) as usize)
        }
    }
}

/// How the legs of a position map onto a new strategy's template: slot `k`
/// takes existing leg `slots[k]`, or a new empty leg of the template's
/// `k`-th type when it is `None`; the legs listed in `removed` are dropped.
#[derive(Debug, PartialEq, Eq)]
pub struct LegMergePlan {
    pub slots: Vec<Option<usize>>,
    pub removed: Vec<usize>,
}

/// The identity plan for `n` legs.
pub open spec fn keep_all(n: nat) -> Seq<Option<usize>> {
    Seq::new(n, |i: int| Some(i as usize))
}

fn slots_claim(slots: &Vec<Option<usize>>, i: usize) -> (r: bool)
    ensures
        r == slots@.contains(Some(i)),
{
    let mut j: usize = 0;
    while j < slots.len()
        invariant
            j <= slots@.len(),
            forall|k: int| 0 <= k < j ==> slots@[k] != Some(i),
        decreases slots@.len() - j,
    {
        let hit = match slots[j] {
            Some(x) => x == i,
            None => false,
        };
        if hit {
            assert(slots@[j as int] == Some(i));
            return true;
        }
        j = j + 1;
    }
    false
}

fn find_free_leg(existing: &[LegType], t: LegType, slots: &Vec<Option<usize>>) -> (r: Option<usize>)
    ensures
        r == first_free_leg(existing@, t, slots@, 0),
{
    let n = existing.len();
    let mut i: usize = 0;
    while i < n
        invariant
            n == existing@.len(),
            i <= n,
            forall|j: int| 0 <= j < i ==> !(existing@[j] == t && !slots@.contains(Some(j as usize))),
        decreases n - i,
    {
        if existing[i] == t && !slots_claim(slots, i) {
            proof {
                lemma_first_free_skip(existing@, t, slots@, 0, i as nat);
            }
            return Some(i);
        }
        i = i + 1;
    }
    proof {
        lemma_first_free_skip(existing@, t, slots@, 0, i as nat);
    }
    None
}

proof fn lemma_first_free_skip(
    existing: Seq<LegType>,
    t: LegType,
    taken: Seq<Option<usize>>,
    from: nat,
    to: nat,
)
    requires
        from <= to <= existing.len(),
        forall|j: int| from <= j < to ==> !(existing[j] == t && !taken.contains(Some(j as usize))),
    ensures
        first_free_leg(existing, t, taken, from) == first_free_leg(existing, t, taken, to),
    decreases to - from,
{
    if from < to {
        lemma_first_free_skip(existing, t, taken, from + 1, to);
    }
}

proof fn lemma_first_free_found(
    existing: Seq<LegType>,
    t: LegType,
    taken: Seq<Option<usize>>,
    from: nat,
)
    requires
        existing.len() <= usize::MAX,
    ensures
        first_free_leg(existing, t, taken, from) matches Some(i) ==> {
            &&& from <= i < existing.len()
            &&& existing[i as int] == t
            &&& !taken.contains(Some(i))
        },
    decreases existing.len() - from,
{
    if from < existing.len() {
        lemma_first_free_found(existing, t, taken, from + 1);
    }
}

/// Plans how `existing` legs carry over to `new_strategy`'s template: for
/// each template slot the first unclaimed existing leg of the same type is
/// kept, missing ones are created empty, and leftover legs are removed.
/// Free-form strategies keep every leg unchanged.
pub fn merge_leg_plan(existing: &[LegType], new_strategy: &StrategyType) -> (plan: LegMergePlan)
    ensures
        is_free_form(*new_strategy) ==> plan.slots@ == keep_all(existing@.len()),
        !is_free_form(*new_strategy) ==> plan.slots@ == merge_slots(existing@, leg_template(*new_strategy)),
        plan.removed@ == unclaimed_legs(plan.slots@, existing@.len()),
{
    let n = existing.len();
    let mut slots: Vec<Option<usize>> = Vec::new();
    if matches!(new_strategy, StrategyType::Custom | StrategyType::PutZebra | StrategyType::CallZebra) {
        let mut i: usize = 0;
        while i < n
            invariant
                n == existing@.len(),
                i <= n,
                slots@ == keep_all(i as nat),
            decreases n - i,
        {
            slots.push(Some(i));
            i = i + 1;
            proof {
                assert(slots@ =~= keep_all(i as nat));
            }
        }
    } else {
        let template = strategy_leg_template(new_strategy);
        let mut k: usize = 0;
        while k < template.len()
            invariant
                n == existing@.len(),
                k <= template@.len(),
                slots@ == merge_slots(existing@, template@.take(k as int)),
            decreases template@.len() - k,
        {
            let t = template[k];
            let found = find_free_leg(existing, t, &slots);
            proof {
                let tk1 = template@.take(k + 1);
                assert(tk1.drop_last() =~= template@.take(k as int));
                assert(tk1.last() == t);
            }
            slots.push(found);
            k = k + 1;
        }
        proof {
            assert(template@.take(k as int) =~= template@);
        }
    }
    let mut removed: Vec<usize> = Vec::new();
    let mut i: usize = 0;
    while i < n
        invariant
            n == existing@.len(),
            i <= n,
            removed@ == unclaimed_legs(slots@, i as nat),
        decreases n - i,
    {
        if !slots_claim(&slots, i) {
            removed.push(i);
        }
        i = i + 1;
    }
    LegMergePlan { slots, removed }
}

proof fn lemma_unclaimed_members(slots: Seq<Option<usize>>, n: nat, i: usize)
    requires
        n <= usize::MAX + 1,
    ensures
        unclaimed_legs(slots, n).contains(i) <==> (i < n && !slots.contains(Some(i))),
    decreases n,
{
    if n > 0 {
        lemma_unclaimed_members(slots, (n - 1) as nat, i);
        let prev = unclaimed_legs(slots, (n - 1) as nat);
        let m = (n - 1) as usize;
        if !slots.contains(Some(m)) {
            let next = prev.push(m);
            assert(next.contains(i) <==> (prev.contains(i) || i == m)) by {
                if next.contains(i) {
                    let w = choose|w: int| 0 <= w < next.len() && #[trigger] next[w] == i;
                    if w < prev.len() {
                        assert(prev[w] == i);
                    }
                }
                if prev.contains(i) {
                    let w = choose|w: int| 0 <= w < prev.len() && #[trigger] prev[w] == i;
                    assert(next[w] == i);
                }
                if i == m {
                    assert(next[prev.len() as int] == i);
                }
            }
        }
    }
}

proof fn lemma_merge_slots_sound(existing: Seq<LegType>, template: Seq<LegType>)
    requires
        existing.len() <= usize::MAX,
    ensures
        merge_slots(existing, template).len() == template.len(),
        forall|k: int| 0 <= k < template.len() ==>
            (#[trigger] merge_slots(existing, template)[k] matches Some(i) ==> {
                &&& i < existing.len()
                &&& existing[i as int] == template[k]
            }),
        forall|k1: int, k2: int|
            #![trigger merge_slots(existing, template)[k1], merge_slots(existing, template)[k2]]
            0 <= k1 < k2 < template.len() ==>
            (merge_slots(existing, template)[k2] matches Some(i) ==>
                merge_slots(existing, template)[k1] != Some(i)),
    decreases template.len(),
{
    if template.len() > 0 {
        let prev_t = template.drop_last();
        lemma_merge_slots_sound(existing, prev_t);
        let prev = merge_slots(existing, prev_t);
        let last = first_free_leg(existing, template.last(), prev, 0);
        lemma_first_free_found(existing, template.last(), prev, 0);
        let all = merge_slots(existing, template);
        assert(all == prev.push(last));
        assert forall|k: int| 0 <= k < template.len() implies
            (#[trigger] all[k] matches Some(i) ==> {
                &&& i < existing.len()
                &&& existing[i as int] == template[k]
            }) by {
            if k < template.len() - 1 {
                assert(all[k] == prev[k]);
                assert(prev_t[k] == template[k]);
            }
        }
        assert forall|k1: int, k2: int|
            #![trigger all[k1], all[k2]]
            0 <= k1 < k2 < template.len() implies
            (all[k2] matches Some(i) ==> all[k1] != Some(i)) by {
            assert(all[k1] == prev[k1]);
            if k2 < template.len() - 1 {
                assert(all[k2] == prev[k2]);
            } else {
                if let Some(i) = all[k2] {
                    if prev[k1] == Some(i) {
                        assert(prev.contains(Some(i)));
                    }
                }
            }
        }
    }
}

/// A strategy change loses and duplicates no leg: every slot holds an
/// existing leg of the slot's own type or a new one, no existing leg fills
/// two slots, and each existing leg is either kept in a slot or removed.
pub proof fn lemma_merge_plan_partitions_legs(existing: Seq<LegType>, s: StrategyType, plan_slots: Seq<Option<usize>>)
    requires
        existing.len() <= usize::MAX,
        !is_free_form(s) ==> plan_slots == merge_slots(existing, leg_template(s)),
        is_free_form(s) ==> plan_slots == keep_all(existing.len()),
    ensures
        !is_free_form(s) ==> plan_slots.len() == leg_template(s).len(),
        forall|k: int| 0 <= k < plan_slots.len() ==>
            (#[trigger] plan_slots[k] matches Some(i) ==> i < existing.len()),
        !is_free_form(s) ==> forall|k: int| 0 <= k < plan_slots.len() ==>
            (#[trigger] plan_slots[k] matches Some(i) ==> existing[i as int] == leg_template(s)[k]),
        forall|k1: int, k2: int|
            #![trigger plan_slots[k1], plan_slots[k2]]
            0 <= k1 < k2 < plan_slots.len() ==>
            (plan_slots[k2] matches Some(i) ==> plan_slots[k1] != Some(i)),
        forall|i: int| 0 <= i < existing.len() ==>
            (#[trigger] unclaimed_legs(plan_slots, existing.len()).contains(i as usize)
                <==> !plan_slots.contains(Some(i as usize))),
{
    if is_free_form(s) {
        assert forall|k1: int, k2: int|
            #![trigger plan_slots[k1], plan_slots[k2]]
            0 <= k1 < k2 < plan_slots.len() implies
            (plan_slots[k2] matches Some(i) ==> plan_slots[k1] != Some(i)) by {
            assert(plan_slots[k1] == Some(k1 as usize));
            assert(plan_slots[k2] == Some(k2 as usize));
        }
    } else {
        lemma_merge_slots_sound(existing, leg_template(s));
    }
    assert forall|i: int| 0 <= i < existing.len() implies
        (#[trigger] unclaimed_legs(plan_slots, existing.len()).contains(i as usize)
            <==> !plan_slots.contains(Some(i as usize))) by {
        lemma_unclaimed_members(plan_slots, existing.len(), i as usize);
    }
}

/// Reading back the key a strategy is stored under gives the same strategy.
pub proof fn lemma_strategy_key_round_trip(s: StrategyType)
    ensures
        strategy_from_key(strategy_key(s)) == s,
{
    reveal_strlit("short_put_vertical");
    reveal_strlit("short_call_vertical");
    reveal_strlit("iron_condor");
    reveal_strlit("iron_butterfly");
    reveal_strlit("strangle");
    reveal_strlit("straddle");
    reveal_strlit("calendar_spread");
    reveal_strlit("cash_secured_put");
    reveal_strlit("covered_call");
    reveal_strlit("pmcc");
    reveal_strlit("long_diagonal_spread");
    reveal_strlit("short_diagonal_spread");
    reveal_strlit("long_call_vertical");
    reveal_strlit("long_put_vertical");
    reveal_strlit("long_put");
    reveal_strlit("long_call");
    reveal_strlit("pzbr");
    reveal_strlit("czbr");
    reveal_strlit("custom");
    reveal_strlit("put_broken_wing_butterfly");
    reveal_strlit("call_broken_wing_butterfly");
    reveal_strlit("jade_lizard");
    reveal_strlit("put_butterfly");
    reveal_strlit("call_butterfly");
    match s {
        StrategyType::ShortPutVertical => {

        },
        StrategyType::ShortCallVertical => {
            assert("short_call_vertical"@.len() != "short_put_vertical"@.len());
        },
        StrategyType::IronCondor => {
            assert("iron_condor"@.len() != "short_put_vertical"@.len());
            assert("iron_condor"@.len() != "short_call_vertical"@.len());
        },
        StrategyType::IronButterfly => {
            assert("iron_butterfly"@.len() != "short_put_vertical"@.len());
            assert("iron_butterfly"@.len() != "short_call_vertical"@.len());
            assert("iron_butterfly"@.len() != "iron_condor"@.len());
        },
        StrategyType::Strangle => {
            assert("strangle"@.len() != "short_put_vertical"@.len());
            assert("strangle"@.len() != "short_call_vertical"@.len());
            assert("strangle"@.len() != "iron_condor"@.len());
            assert("strangle"@.len() != "iron_butterfly"@.len());
        },
        StrategyType::Straddle => {
            assert("straddle"@.len() != "short_put_vertical"@.len());
            assert("straddle"@.len() != "short_call_vertical"@.len());
            assert("straddle"@.len() != "iron_condor"@.len());
            assert("straddle"@.len() != "iron_butterfly"@.len());
            assert("straddle"@[4] != "strangle"@[4]);
        },
        StrategyType::CalendarSpread => {
            assert("calendar_spread"@.len() != "short_put_vertical"@.len());
            assert("calendar_spread"@.len() != "short_call_vertical"@.len());
            assert("calendar_spread"@.len() != "iron_condor"@.len());
            assert("calendar_spread"@.len() != "iron_butterfly"@.len());
            assert("calendar_spread"@.len() != "strangle"@.len());
            assert("calendar_spread"@.len() != "straddle"@.len());
        },
        StrategyType::CashSecuredPut => {
            assert("cash_secured_put"@.len() != "short_put_vertical"@.len());
            assert("cash_secured_put"@.len() != "short_call_vertical"@.len());
            assert("cash_secured_put"@.len() != "iron_condor"@.len());
            assert("cash_secured_put"@.len() != "iron_butterfly"@.len());
            assert("cash_secured_put"@.len() != "strangle"@.len());
            assert("cash_secured_put"@.len() != "straddle"@.len());
            assert("cash_secured_put"@.len() != "calendar_spread"@.len());
        },
        StrategyType::CoveredCall => {
            assert("covered_call"@.len() != "short_put_vertical"@.len());
            assert("covered_call"@.len() != "short_call_vertical"@.len());
            assert("covered_call"@.len() != "iron_condor"@.len());
            assert("covered_call"@.len() != "iron_butterfly"@.len());
            assert("covered_call"@.len() != "strangle"@.len());
            assert("covered_call"@.len() != "straddle"@.len());
            assert("covered_call"@.len() != "calendar_spread"@.len());
            assert("covered_call"@.len() != "cash_secured_put"@.len());
        },
        StrategyType::Pmcc => {
            assert("pmcc"@.len() != "short_put_vertical"@.len());
            assert("pmcc"@.len() != "short_call_vertical"@.len());
            assert("pmcc"@.len() != "iron_condor"@.len());
            assert("pmcc"@.len() != "iron_butterfly"@.len());
            assert("pmcc"@.len() != "strangle"@.len());
            assert("pmcc"@.len() != "straddle"@.len());
            assert("pmcc"@.len() != "calendar_spread"@.len());
            assert("pmcc"@.len() != "cash_secured_put"@.len());
            assert("pmcc"@.len() != "covered_call"@.len());
        },
        StrategyType::LongDiagonalSpread => {
            assert("long_diagonal_spread"@.len() != "short_put_vertical"@.len());
            assert("long_diagonal_spread"@.len() != "short_call_vertical"@.len());
            assert("long_diagonal_spread"@.len() != "iron_condor"@.len());
            assert("long_diagonal_spread"@.len() != "iron_butterfly"@.len());
            assert("long_diagonal_spread"@.len() != "strangle"@.len());
            assert("long_diagonal_spread"@.len() != "straddle"@.len());
            assert("long_diagonal_spread"@.len() != "calendar_spread"@.len());
            assert("long_diagonal_spread"@.len() != "cash_secured_put"@.len());
            assert("long_diagonal_spread"@.len() != "covered_call"@.len());
            assert("long_diagonal_spread"@.len() != "pmcc"@.len());
        },
        StrategyType::ShortDiagonalSpread => {
            assert("short_diagonal_spread"@.len() != "short_put_vertical"@.len());
            assert("short_diagonal_spread"@.len() != "short_call_vertical"@.len());
            assert("short_diagonal_spread"@.len() != "iron_condor"@.len());
            assert("short_diagonal_spread"@.len() != "iron_butterfly"@.len());
            assert("short_diagonal_spread"@.len() != "strangle"@.len());
            assert("short_diagonal_spread"@.len() != "straddle"@.len());
            assert("short_diagonal_spread"@.len() != "calendar_spread"@.len());
            assert("short_diagonal_spread"@.len() != "cash_secured_put"@.len());
            assert("short_diagonal_spread"@.len() != "covered_call"@.len());
            assert("short_diagonal_spread"@.len() != "pmcc"@.len());
            assert("short_diagonal_spread"@.len() != "long_diagonal_spread"@.len());
        },
        StrategyType::LongCallVertical => {
            assert("long_call_vertical"@[0] != "short_put_vertical"@[0]);
            assert("long_call_vertical"@.len() != "short_call_vertical"@.len());
            assert("long_call_vertical"@.len() != "iron_condor"@.len());
            assert("long_call_vertical"@.len() != "iron_butterfly"@.len());
            assert("long_call_vertical"@.len() != "strangle"@.len());
            assert("long_call_vertical"@.len() != "straddle"@.len());
            assert("long_call_vertical"@.len() != "calendar_spread"@.len());
            assert("long_call_vertical"@.len() != "cash_secured_put"@.len());
            assert("long_call_vertical"@.len() != "covered_call"@.len());
            assert("long_call_vertical"@.len() != "pmcc"@.len());
            assert("long_call_vertical"@.len() != "long_diagonal_spread"@.len());
            assert("long_call_vertical"@.len() != "short_diagonal_spread"@.len());
        },
        StrategyType::LongPutVertical => {
            assert("long_put_vertical"@.len() != "short_put_vertical"@.len());
            assert("long_put_vertical"@.len() != "short_call_vertical"@.len());
            assert("long_put_vertical"@.len() != "iron_condor"@.len());
            assert("long_put_vertical"@.len() != "iron_butterfly"@.len());
            assert("long_put_vertical"@.len() != "strangle"@.len());
            assert("long_put_vertical"@.len() != "straddle"@.len());
            assert("long_put_vertical"@.len() != "calendar_spread"@.len());
            assert("long_put_vertical"@.len() != "cash_secured_put"@.len());
            assert("long_put_vertical"@.len() != "covered_call"@.len());
            assert("long_put_vertical"@.len() != "pmcc"@.len());
            assert("long_put_vertical"@.len() != "long_diagonal_spread"@.len());
            assert("long_put_vertical"@.len() != "short_diagonal_spread"@.len());
            assert("long_put_vertical"@.len() != "long_call_vertical"@.len());
        },
        StrategyType::PutZebra => {
            assert("pzbr"@.len() != "short_put_vertical"@.len());
            assert("pzbr"@.len() != "short_call_vertical"@.len());
            assert("pzbr"@.len() != "iron_condor"@.len());
            assert("pzbr"@.len() != "iron_butterfly"@.len());
            assert("pzbr"@.len() != "strangle"@.len());
            assert("pzbr"@.len() != "straddle"@.len());
            assert("pzbr"@.len() != "calendar_spread"@.len());
            assert("pzbr"@.len() != "cash_secured_put"@.len());
            assert("pzbr"@.len() != "covered_call"@.len());
            assert("pzbr"@[1] != "pmcc"@[1]);
            assert("pzbr"@.len() != "long_diagonal_spread"@.len());
            assert("pzbr"@.len() != "short_diagonal_spread"@.len());
            assert("pzbr"@.len() != "long_call_vertical"@.len());
            assert("pzbr"@.len() != "long_put_vertical"@.len());
            assert("pzbr"@.len() != "long_put"@.len());
            assert("pzbr"@.len() != "long_call"@.len());
        },
        StrategyType::CallZebra => {
            assert("czbr"@.len() != "short_put_vertical"@.len());
            assert("czbr"@.len() != "short_call_vertical"@.len());
            assert("czbr"@.len() != "iron_condor"@.len());
            assert("czbr"@.len() != "iron_butterfly"@.len());
            assert("czbr"@.len() != "strangle"@.len());
            assert("czbr"@.len() != "straddle"@.len());
            assert("czbr"@.len() != "calendar_spread"@.len());
            assert("czbr"@.len() != "cash_secured_put"@.len());
            assert("czbr"@.len() != "covered_call"@.len());
            assert("czbr"@[0] != "pmcc"@[0]);
            assert("czbr"@.len() != "long_diagonal_spread"@.len());
            assert("czbr"@.len() != "short_diagonal_spread"@.len());
            assert("czbr"@.len() != "long_call_vertical"@.len());
            assert("czbr"@.len() != "long_put_vertical"@.len());
            assert("czbr"@.len() != "long_put"@.len());
            assert("czbr"@.len() != "long_call"@.len());
            assert("czbr"@[0] != "pzbr"@[0]);
        },
        StrategyType::PutBrokenWingButterfly => {
            assert("put_broken_wing_butterfly"@.len() != "short_put_vertical"@.len());
            assert("put_broken_wing_butterfly"@.len() != "short_call_vertical"@.len());
            assert("put_broken_wing_butterfly"@.len() != "iron_condor"@.len());
            assert("put_broken_wing_butterfly"@.len() != "iron_butterfly"@.len());
            assert("put_broken_wing_butterfly"@.len() != "strangle"@.len());
            assert("put_broken_wing_butterfly"@.len() != "straddle"@.len());
            assert("put_broken_wing_butterfly"@.len() != "calendar_spread"@.len());
            assert("put_broken_wing_butterfly"@.len() != "cash_secured_put"@.len());
            assert("put_broken_wing_butterfly"@.len() != "covered_call"@.len());
            assert("put_broken_wing_butterfly"@.len() != "pmcc"@.len());
            assert("put_broken_wing_butterfly"@.len() != "long_diagonal_spread"@.len());
            assert("put_broken_wing_butterfly"@.len() != "short_diagonal_spread"@.len());
            assert("put_broken_wing_butterfly"@.len() != "long_call_vertical"@.len());
            assert("put_broken_wing_butterfly"@.len() != "long_put_vertical"@.len());
            assert("put_broken_wing_butterfly"@.len() != "long_put"@.len());
            assert("put_broken_wing_butterfly"@.len() != "long_call"@.len());
            assert("put_broken_wing_butterfly"@.len() != "pzbr"@.len());
            assert("put_broken_wing_butterfly"@.len() != "czbr"@.len());
        },
        StrategyType::CallBrokenWingButterfly => {
            assert("call_broken_wing_butterfly"@.len() != "short_put_vertical"@.len());
            assert("call_broken_wing_butterfly"@.len() != "short_call_vertical"@.len());
            assert("call_broken_wing_butterfly"@.len() != "iron_condor"@.len());
            assert("call_broken_wing_butterfly"@.len() != "iron_butterfly"@.len());
            assert("call_broken_wing_butterfly"@.len() != "strangle"@.len());
            assert("call_broken_wing_butterfly"@.len() != "straddle"@.len());
            assert("call_broken_wing_butterfly"@.len() != "calendar_spread"@.len());
            assert("call_broken_wing_butterfly"@.len() != "cash_secured_put"@.len());
            assert("call_broken_wing_butterfly"@.len() != "covered_call"@.len());
            assert("call_broken_wing_butterfly"@.len() != "pmcc"@.len());
            assert("call_broken_wing_butterfly"@.len() != "long_diagonal_spread"@.len());
            assert("call_broken_wing_butterfly"@.len() != "short_diagonal_spread"@.len());
            assert("call_broken_wing_butterfly"@.len() != "long_call_vertical"@.len());
            assert("call_broken_wing_butterfly"@.len() != "long_put_vertical"@.len());
            assert("call_broken_wing_butterfly"@.len() != "long_put"@.len());
            assert("call_broken_wing_butterfly"@.len() != "long_call"@.len());
            assert("call_broken_wing_butterfly"@.len() != "pzbr"@.len());
            assert("call_broken_wing_butterfly"@.len() != "czbr"@.len());
            assert("call_broken_wing_butterfly"@.len() != "put_broken_wing_butterfly"@.len());
        },
        StrategyType::JadeLizard => {
            assert("jade_lizard"@.len() != "short_put_vertical"@.len());
            assert("jade_lizard"@.len() != "short_call_vertical"@.len());
            assert("jade_lizard"@[0] != "iron_condor"@[0]);
            assert("jade_lizard"@.len() != "iron_butterfly"@.len());
            assert("jade_lizard"@.len() != "strangle"@.len());
            assert("jade_lizard"@.len() != "straddle"@.len());
            assert("jade_lizard"@.len() != "calendar_spread"@.len());
            assert("jade_lizard"@.len() != "cash_secured_put"@.len());
            assert("jade_lizard"@.len() != "covered_call"@.len());
            assert("jade_lizard"@.len() != "pmcc"@.len());
            assert("jade_lizard"@.len() != "long_diagonal_spread"@.len());
            assert("jade_lizard"@.len() != "short_diagonal_spread"@.len());
            assert("jade_lizard"@.len() != "long_call_vertical"@.len());
            assert("jade_lizard"@.len() != "long_put_vertical"@.len());
            assert("jade_lizard"@.len() != "long_put"@.len());
            assert("jade_lizard"@.len() != "long_call"@.len());
            assert("jade_lizard"@.len() != "pzbr"@.len());
            assert("jade_lizard"@.len() != "czbr"@.len());
            assert("jade_lizard"@.len() != "put_broken_wing_butterfly"@.len());
            assert("jade_lizard"@.len() != "call_broken_wing_butterfly"@.len());
        },
        StrategyType::PutButterfly => {
            assert("put_butterfly"@.len() != "short_put_vertical"@.len());
            assert("put_butterfly"@.len() != "short_call_vertical"@.len());
            assert("put_butterfly"@.len() != "iron_condor"@.len());
            assert("put_butterfly"@.len() != "iron_butterfly"@.len());
            assert("put_butterfly"@.len() != "strangle"@.len());
            assert("put_butterfly"@.len() != "straddle"@.len());
            assert("put_butterfly"@.len() != "calendar_spread"@.len());
            assert("put_butterfly"@.len() != "cash_secured_put"@.len());
            assert("put_butterfly"@.len() != "covered_call"@.len());
            assert("put_butterfly"@.len() != "pmcc"@.len());
            assert("put_butterfly"@.len() != "long_diagonal_spread"@.len());
            assert("put_butterfly"@.len() != "short_diagonal_spread"@.len());
            assert("put_butterfly"@.len() != "long_call_vertical"@.len());
            assert("put_butterfly"@.len() != "long_put_vertical"@.len());
            assert("put_butterfly"@.len() != "long_put"@.len());
            assert("put_butterfly"@.len() != "long_call"@.len());
            assert("put_butterfly"@.len() != "pzbr"@.len());
            assert("put_butterfly"@.len() != "czbr"@.len());
            assert("put_butterfly"@.len() != "put_broken_wing_butterfly"@.len());
            assert("put_butterfly"@.len() != "call_broken_wing_butterfly"@.len());
            assert("put_butterfly"@.len() != "jade_lizard"@.len());
        },
        StrategyType::CallButterfly => {
            assert("call_butterfly"@.len() != "short_put_vertical"@.len());
            assert("call_butterfly"@.len() != "short_call_vertical"@.len());
            assert("call_butterfly"@.len() != "iron_condor"@.len());
            assert("call_butterfly"@[0] != "iron_butterfly"@[0]);
            assert("call_butterfly"@.len() != "strangle"@.len());
            assert("call_butterfly"@.len() != "straddle"@.len());
            assert("call_butterfly"@.len() != "calendar_spread"@.len());
            assert("call_butterfly"@.len() != "cash_secured_put"@.len());
            assert("call_butterfly"@.len() != "covered_call"@.len());
            assert("call_butterfly"@.len() != "pmcc"@.len());
            assert("call_butterfly"@.len() != "long_diagonal_spread"@.len());
            assert("call_butterfly"@.len() != "short_diagonal_spread"@.len());
            assert("call_butterfly"@.len() != "long_call_vertical"@.len());
            assert("call_butterfly"@.len() != "long_put_vertical"@.len());
            assert("call_butterfly"@.len() != "long_put"@.len());
            assert("call_butterfly"@.len() != "long_call"@.len());
            assert("call_butterfly"@.len() != "pzbr"@.len());
            assert("call_butterfly"@.len() != "czbr"@.len());
            assert("call_butterfly"@.len() != "put_broken_wing_butterfly"@.len());
            assert("call_butterfly"@.len() != "call_broken_wing_butterfly"@.len());
            assert("call_butterfly"@.len() != "jade_lizard"@.len());
            assert("call_butterfly"@.len() != "put_butterfly"@.len());
        },
        StrategyType::Custom => {
            assert("custom"@.len() != "short_put_vertical"@.len());
            assert("custom"@.len() != "short_call_vertical"@.len());
            assert("custom"@.len() != "iron_condor"@.len());
            assert("custom"@.len() != "iron_butterfly"@.len());
            assert("custom"@.len() != "strangle"@.len());
            assert("custom"@.len() != "straddle"@.len());
            assert("custom"@.len() != "calendar_spread"@.len());
            assert("custom"@.len() != "cash_secured_put"@.len());
            assert("custom"@.len() != "covered_call"@.len());
            assert("custom"@.len() != "pmcc"@.len());
            assert("custom"@.len() != "long_diagonal_spread"@.len());
            assert("custom"@.len() != "short_diagonal_spread"@.len());
            assert("custom"@.len() != "long_call_vertical"@.len());
            assert("custom"@.len() != "long_put_vertical"@.len());
            assert("custom"@.len() != "long_put"@.len());
            assert("custom"@.len() != "long_call"@.len());
            assert("custom"@.len() != "pzbr"@.len());
            assert("custom"@.len() != "czbr"@.len());
            assert("custom"@.len() != "put_broken_wing_butterfly"@.len());
            assert("custom"@.len() != "call_broken_wing_butterfly"@.len());
            assert("custom"@.len() != "jade_lizard"@.len());
            assert("custom"@.len() != "put_butterfly"@.len());
            assert("custom"@.len() != "call_butterfly"@.len());
        },
    }
}

// ─────────────────────────────── template laws ───────────────────────────────

/// How many legs of type `t` the sequence holds.
pub open spec fn leg_count(legs: Seq<LegType>, t: LegType) -> nat
    decreases legs.len(),
{
    if legs.len() == 0 {
        0
    } else {
        leg_count(legs.drop_last(), t) + (if legs.last() == t { 1nat } else { 0nat })
    }
}

/// Whether a strategy's name puts it on the put side only (its legs are all
/// puts) or the call side only.
pub open spec fn put_side_only(s: StrategyType) -> bool {
    s is ShortPutVertical || s is LongPutVertical || s is CashSecuredPut || s is PutBrokenWingButterfly
        || s is PutButterfly
}

/// See [`put_side_only`].
pub open spec fn call_side_only(s: StrategyType) -> bool {
    s is ShortCallVertical || s is LongCallVertical || s is CoveredCall || s is CallBrokenWingButterfly
        || s is CallButterfly || s is Pmcc || s is CalendarSpread || s is LongDiagonalSpread
        || s is ShortDiagonalSpread
}

/// The leg templates keep risk where the strategy says it is: in every
/// defined-risk strategy but the covered call, each short call is matched
/// by a long call; in every defined-risk strategy but the cash-secured put
/// and the jade lizard (whose put is sold naked by design), each short put
/// is matched by a long put. A put-side strategy has no call legs and a
/// call-side one no put legs. Only the zebras and custom positions have no
/// template.
pub proof fn lemma_templates_cover_short_legs(s: StrategyType)
    ensures
        !(s is Strangle || s is Straddle || s is Custom) && !(s is CoveredCall)
            ==> leg_count(leg_template(s), LegType::ShortCall) <= leg_count(leg_template(s), LegType::LongCall),
        !(s is Strangle || s is Straddle || s is Custom) && !(s is CashSecuredPut) && !(s is JadeLizard)
            ==> leg_count(leg_template(s), LegType::ShortPut) <= leg_count(leg_template(s), LegType::LongPut),
        put_side_only(s) ==> leg_count(leg_template(s), LegType::ShortCall) == 0
            && leg_count(leg_template(s), LegType::LongCall) == 0,
        call_side_only(s) ==> leg_count(leg_template(s), LegType::ShortPut) == 0
            && leg_count(leg_template(s), LegType::LongPut) == 0,
        (leg_template(s).len() == 0) == (s is PutZebra || s is CallZebra || s is Custom),
{
    reveal_with_fuel(leg_count, 5);
    match s {
        StrategyType::ShortPutVertical => {},
        StrategyType::ShortCallVertical => {},
        StrategyType::IronCondor => {},
        StrategyType::IronButterfly => {},
        StrategyType::Strangle => {},
        StrategyType::Straddle => {},
        StrategyType::CalendarSpread => {},
        StrategyType::CashSecuredPut => {},
        StrategyType::CoveredCall => {},
        StrategyType::Pmcc => {},
        StrategyType::LongDiagonalSpread => {},
        StrategyType::ShortDiagonalSpread => {},
        StrategyType::LongCallVertical => {},
        StrategyType::LongPutVertical => {},
        StrategyType::PutZebra => {},
        StrategyType::CallZebra => {},
        StrategyType::Custom => {},
        StrategyType::PutBrokenWingButterfly => {},
        StrategyType::CallBrokenWingButterfly => {},
        StrategyType::JadeLizard => {},
        StrategyType::PutButterfly => {},
        StrategyType::CallButterfly => {},
    }
}

/// The jade lizard sells a put and a call spread: one put leg, which is
/// short, and on the call side one short call capped by one long call,
/// the short call listed first.
pub proof fn lemma_jade_lizard_shape()
    ensures
        leg_count(leg_template(StrategyType::JadeLizard), LegType::ShortPut) == 1,
        leg_count(leg_template(StrategyType::JadeLizard), LegType::LongPut) == 0,
        leg_count(leg_template(StrategyType::JadeLizard), LegType::ShortCall) == 1,
        leg_count(leg_template(StrategyType::JadeLizard), LegType::LongCall) == 1,
        leg_template(StrategyType::JadeLizard) == seq![LegType::ShortPut, LegType::ShortCall, LegType::LongCall],
{
    reveal_with_fuel(leg_count, 5);
}

/// How many trades of one sector closed in each month of the performance
/// view (one count per month shown, in the same order).
#[derive(Debug, Clone)]
pub struct SectorTrend {
    pub sector: String,
    pub monthly_counts: Vec<usize>,
    pub total_trades: usize,
}

} // verus!
