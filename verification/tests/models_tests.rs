use theta_vault_rust::models::{merge_leg_plan, strategy_leg_template, LegType, StrategyType};

#[test]
fn strategy_keys_round_trip() {
    let all = theta_vault_rust::app::all_strategy_types();
    for s in all {
        assert_eq!(StrategyType::from_str(s.as_str()), s);
    }
    assert_eq!(StrategyType::from_str("pzbr"), StrategyType::PutZebra);
    assert_eq!(StrategyType::from_str("czbr"), StrategyType::CallZebra);
    assert_eq!(StrategyType::PutZebra.as_str(), "pzbr");
}

#[test]
fn strategy_from_legacy_keys() {
    assert_eq!(StrategyType::from_str("long_put"), StrategyType::LongPutVertical);
    assert_eq!(StrategyType::from_str("long_call"), StrategyType::LongCallVertical);
    assert_eq!(StrategyType::from_str("something_else"), StrategyType::Custom);
    assert_eq!(StrategyType::from_str(""), StrategyType::Custom);
}

#[test]
fn strategy_labels_and_badges() {
    assert_eq!(StrategyType::IronCondor.badge(), "IC");
    assert_eq!(StrategyType::ShortPutVertical.badge(), "SPV");
    assert_eq!(StrategyType::Pmcc.badge(), "PMCC");
    assert_eq!(StrategyType::IronCondor.as_str(), "iron_condor");
    assert!(!StrategyType::IronCondor.label().is_empty());
}

#[test]
fn defined_risk_classification() {
    assert!(StrategyType::IronCondor.is_defined_risk());
    assert!(StrategyType::CashSecuredPut.is_defined_risk());
    assert!(!StrategyType::Strangle.is_defined_risk());
    assert!(!StrategyType::Straddle.is_defined_risk());
    assert!(!StrategyType::Custom.is_defined_risk());
}

#[test]
fn undefined_risk_and_neutral_classification() {
    assert!(StrategyType::CashSecuredPut.counts_as_undefined_risk());
    assert!(StrategyType::CoveredCall.counts_as_undefined_risk());
    assert!(StrategyType::Strangle.counts_as_undefined_risk());
    assert!(!StrategyType::IronCondor.counts_as_undefined_risk());
    assert!(StrategyType::IronCondor.is_neutral());
    assert!(StrategyType::CalendarSpread.is_neutral());
    assert!(!StrategyType::ShortPutVertical.is_neutral());
}

#[test]
fn recommended_entry_windows() {
    assert_eq!(StrategyType::IronCondor.recommended_entry_dte(), Some((40, 55)));
    assert_eq!(StrategyType::CashSecuredPut.recommended_entry_dte(), Some((30, 45)));
    assert_eq!(StrategyType::ShortPutVertical.recommended_entry_dte(), Some((21, 45)));
    assert_eq!(StrategyType::PutButterfly.recommended_entry_dte(), Some((15, 45)));
    assert_eq!(StrategyType::Custom.recommended_entry_dte(), None);
    assert_eq!(StrategyType::PutZebra.recommended_entry_dte(), None);
}

#[test]
fn leg_type_predicates_and_labels() {
    assert!(LegType::ShortPut.is_short());
    assert!(LegType::ShortCall.is_short());
    assert!(!LegType::LongPut.is_short());
    assert!(LegType::LongCall.is_call());
    assert!(LegType::LongPut.is_put());
    assert_eq!(LegType::ShortCall.label(), "Short Call");
    assert_eq!(LegType::from_str("short_put"), Some(LegType::ShortPut));
    assert_eq!(LegType::from_str("Long Call"), Some(LegType::LongCall));
    assert_eq!(LegType::from_str("long call"), None);
}

#[test]
fn leg_labels_read_back() {
    for l in [LegType::ShortPut, LegType::LongPut, LegType::ShortCall, LegType::LongCall] {
        assert_eq!(LegType::from_str(l.label()), Some(l));
    }
    assert_eq!(
        LegType::all_options(),
        vec!["Short Put".to_string(), "Long Put".to_string(), "Short Call".to_string(), "Long Call".to_string()]
    );
}

#[test]
fn leg_templates() {
    assert_eq!(
        strategy_leg_template(&StrategyType::IronCondor),
        vec![LegType::ShortPut, LegType::LongPut, LegType::ShortCall, LegType::LongCall]
    );
    assert_eq!(strategy_leg_template(&StrategyType::Pmcc), vec![LegType::LongCall, LegType::ShortCall]);
    assert_eq!(
        strategy_leg_template(&StrategyType::PutBrokenWingButterfly),
        vec![LegType::ShortPut, LegType::LongPut, LegType::LongPut]
    );
    assert!(strategy_leg_template(&StrategyType::Custom).is_empty());
    assert!(strategy_leg_template(&StrategyType::CallZebra).is_empty());
}

#[test]
fn merge_keeps_matching_legs_and_drops_extras() {
    // Iron condor legs switched to a short put vertical: the short put and the
    // long put stay, the call legs go.
    let existing = vec![LegType::ShortPut, LegType::LongPut, LegType::ShortCall, LegType::LongCall];
    let plan = merge_leg_plan(&existing, &StrategyType::ShortPutVertical);
    assert_eq!(plan.slots, vec![Some(0), Some(1)]);
    assert_eq!(plan.removed, vec![2, 3]);
}

#[test]
fn merge_creates_missing_legs() {
    let existing = vec![LegType::ShortPut];
    let plan = merge_leg_plan(&existing, &StrategyType::IronCondor);
    assert_eq!(plan.slots, vec![Some(0), None, None, None]);
    assert!(plan.removed.is_empty());
}

#[test]
fn merge_uses_each_leg_once() {
    let existing = vec![LegType::LongPut, LegType::ShortPut, LegType::LongPut];
    let plan = merge_leg_plan(&existing, &StrategyType::PutButterfly);
    assert_eq!(plan.slots, vec![Some(0), Some(1), Some(2)]);
    assert!(plan.removed.is_empty());
}

#[test]
fn merge_into_free_form_keeps_everything() {
    let existing = vec![LegType::ShortCall, LegType::ShortCall, LegType::LongPut];
    for s in [StrategyType::Custom, StrategyType::PutZebra, StrategyType::CallZebra] {
        let plan = merge_leg_plan(&existing, &s);
        assert_eq!(plan.slots, vec![Some(0), Some(1), Some(2)]);
        assert!(plan.removed.is_empty());
    }
}

#[test]
fn merge_partition_law_on_example() {
    // Every existing leg is either placed in exactly one slot or removed.
    let existing = vec![LegType::ShortCall, LegType::LongCall, LegType::ShortCall, LegType::ShortPut];
    let plan = merge_leg_plan(&existing, &StrategyType::ShortCallVertical);
    let mut seen = vec![0usize; existing.len()];
    for s in &plan.slots {
        if let Some(i) = s {
            seen[*i] += 1;
        }
    }
    for r in &plan.removed {
        seen[*r] += 1;
    }
    assert!(seen.iter().all(|&c| c == 1));
    assert_eq!(plan.slots, vec![Some(0), Some(1)]);
    assert_eq!(plan.removed, vec![2, 3]);
}
