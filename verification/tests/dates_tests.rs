use theta_vault_rust::dates::{
    calculate_remaining_dte, epoch_day, parse_date_text, parse_dt, parse_export_date, remaining_days,
    trim_trailing_chars, MILLIS_PER_DAY, SECONDS_PER_DAY,
};

// 2024-03-15T00:00:00Z
const MAR15: i64 = 1_710_460_800_000;
const MAR15_S: i64 = 1_710_460_800;

#[test]
fn parse_rfc3339_instants() {
    assert_eq!(parse_dt("2024-03-15T00:00:00Z"), Some((MAR15_S, 0)));
    assert_eq!(parse_dt("2024-03-15T10:30:00+02:00"), Some((MAR15_S + 8 * 3_600 + 30 * 60, 0)));
    assert_eq!(parse_dt("1970-01-01T00:00:00.250Z"), Some((0, 250_000_000)));
    // Sub-millisecond digits are kept.
    assert_eq!(parse_dt("2024-03-15T00:00:00.123456789Z"), Some((MAR15_S, 123_456_789)));
}

#[test]
fn parse_date_only_texts() {
    assert_eq!(parse_dt("2024-03-15"), Some((MAR15_S, 0)));
    assert_eq!(parse_dt("2024-03-15Z"), Some((MAR15_S, 0)));
    assert_eq!(parse_dt("2024-03-15T10:30"), Some((MAR15_S, 0)));
    assert_eq!(parse_dt("1969-12-31"), Some((-SECONDS_PER_DAY, 0)));
}

#[test]
fn parse_rejects_other_texts() {
    assert_eq!(parse_dt(""), None);
    assert_eq!(parse_dt("garbage"), None);
    assert_eq!(parse_dt("2024-13-01"), None);
    assert_eq!(parse_dt("15/03/2024"), None);
}

#[test]
fn parse_form_dates() {
    assert_eq!(parse_date_text("2024-03-15"), Some(MAR15));
    assert_eq!(parse_date_text(""), None);
    assert_eq!(parse_date_text("2024-02-30"), None);
}

#[test]
fn trailing_z_trimmed() {
    let v: Vec<char> = "abZZZ".chars().collect();
    assert_eq!(trim_trailing_chars(&v, 'Z'), vec!['a', 'b']);
    let w: Vec<char> = "ZaZ".chars().collect();
    assert_eq!(trim_trailing_chars(&w, 'Z'), vec!['Z', 'a']);
}

#[test]
fn days_of_instants() {
    assert_eq!(epoch_day(0), 0);
    assert_eq!(epoch_day(MILLIS_PER_DAY - 1), 0);
    assert_eq!(epoch_day(-1), -1);
    assert_eq!(epoch_day(MAR15), 19797);
}

#[test]
fn remaining_calendar_days() {
    let exp = MAR15 + 20 * 3_600_000; // 20:00 on the 15th
    assert_eq!(remaining_days(exp, MAR15 - 3_600_000), 1); // 23:00 on the 14th
    assert_eq!(remaining_days(exp, MAR15 + 3_600_000), 0);
    assert_eq!(remaining_days(MAR15, MAR15 + 10 * MILLIS_PER_DAY), 0);
    assert_eq!(remaining_days(MAR15 + 45 * MILLIS_PER_DAY, MAR15), 45);
}

#[test]
fn remaining_dte_is_never_negative() {
    assert_eq!(calculate_remaining_dte(0), 0);
    assert!(calculate_remaining_dte(i64::MAX / 2) > 0);
}

#[test]
fn export_dates() {
    assert_eq!(parse_export_date("2024-03-15T10:30:00Z"), Some((MAR15_S + 10 * 3_600 + 30 * 60, 0)));
    assert_eq!(parse_export_date("2024-03-15 10:30:00"), Some((MAR15_S, 0)));
    assert_eq!(parse_export_date("2024-03-15"), Some((MAR15_S, 0)));
    assert_eq!(parse_export_date("2024-03-1"), None);
    assert_eq!(parse_export_date("garbage text"), None);
    assert_eq!(parse_export_date(""), None);
}

#[test]
fn date_text_counts_days_of_the_calendar() {
    assert_eq!(parse_date_text("2005-09-10"), Some(13_036 * 86_400_000));
    assert_eq!(parse_date_text("1970-01-01"), Some(0));
    assert_eq!(parse_date_text("1969-12-31"), Some(-86_400_000));
    assert_eq!(parse_date_text("2000-03-01"), Some(11_017 * 86_400_000));
}
