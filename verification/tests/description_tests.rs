use theta_vault_rust::description::{format_trade_description, LegSummary};
use theta_vault_rust::models::LegType;

fn leg(t: LegType, strike: &str) -> LegSummary {
    LegSummary { leg_type: t, quantity: None, strike_text: strike.to_string() }
}

#[test]
fn vertical_descriptions() {
    let legs = vec![leg(LegType::ShortPut, "580"), leg(LegType::LongPut, "575")];
    assert_eq!(format_trade_description(&legs, "short_put_vertical"), "580/575P");
    let calls = vec![leg(LegType::LongCall, "610"), leg(LegType::ShortCall, "600")];
    assert_eq!(format_trade_description(&calls, "short_call_vertical"), "600/610C");
    assert_eq!(format_trade_description(&calls, "short_put_vertical"), "N/A");
}

#[test]
fn condor_and_strangle_descriptions() {
    let legs = vec![
        leg(LegType::ShortPut, "570"),
        leg(LegType::LongPut, "560"),
        leg(LegType::ShortCall, "600"),
        leg(LegType::LongCall, "610"),
    ];
    assert_eq!(format_trade_description(&legs, "iron_condor"), "560/570P | 600/610C");
    assert_eq!(format_trade_description(&legs, "iron_butterfly"), "560/570P | 600/610C");
    assert_eq!(format_trade_description(&legs, "strangle"), "570P | 600C");
    assert_eq!(format_trade_description(&legs[..3], "iron_condor"), "N/A");
}

#[test]
fn single_leg_descriptions() {
    let sp = vec![leg(LegType::ShortPut, "100")];
    assert_eq!(format_trade_description(&sp, "straddle"), "100 Straddle");
    assert_eq!(format_trade_description(&sp, "cash_secured_put"), "100P CSP");
    let sc = vec![leg(LegType::ShortCall, "120")];
    assert_eq!(format_trade_description(&sc, "covered_call"), "120C CC");
    assert_eq!(format_trade_description(&sc, "cash_secured_put"), "N/A");
}

#[test]
fn calendar_descriptions() {
    let c = vec![leg(LegType::LongCall, "105"), leg(LegType::ShortCall, "100")];
    assert_eq!(format_trade_description(&c, "calendar_spread"), "100C Cal");
    let p = vec![leg(LegType::ShortPut, "90")];
    assert_eq!(format_trade_description(&p, "calendar_spread"), "90P Cal");
    let none = vec![leg(LegType::LongPut, "90")];
    assert_eq!(format_trade_description(&none, "calendar_spread"), "0P Cal");
}

#[test]
fn pmcc_and_diagonal_descriptions() {
    let legs = vec![leg(LegType::LongCall, "80"), leg(LegType::ShortCall, "110")];
    assert_eq!(format_trade_description(&legs, "pmcc"), "80/110C PMCC");
    assert_eq!(format_trade_description(&legs, "long_diagonal_spread"), "110/80C LDS");
    let puts = vec![leg(LegType::LongPut, "90"), leg(LegType::ShortPut, "95")];
    assert_eq!(format_trade_description(&puts, "short_diagonal_spread"), "95/90P SDS");
    assert_eq!(format_trade_description(&puts[..1], "short_diagonal_spread"), "N/A");
}

#[test]
fn free_form_descriptions() {
    let legs = vec![
        LegSummary { leg_type: LegType::ShortPut, quantity: Some(1), strike_text: "100".to_string() },
        LegSummary { leg_type: LegType::LongPut, quantity: Some(2), strike_text: "95".to_string() },
        LegSummary { leg_type: LegType::LongCall, quantity: None, strike_text: "120".to_string() },
    ];
    assert_eq!(format_trade_description(&legs, "custom"), "-1 100P / +2 95P / +1 120C");
    assert_eq!(format_trade_description(&legs[..1], "put_broken_wing_butterfly"), "-1 100P");
}

#[test]
fn no_legs_or_unknown_type() {
    assert_eq!(format_trade_description(&[], "iron_condor"), "N/A");
    let legs = vec![leg(LegType::ShortPut, "100")];
    assert_eq!(format_trade_description(&legs, "jade_lizard"), "N/A");
}
