use chrono::Datelike;
use theta_vault_rust::app::{AppMode, EditField};
use theta_vault_rust::calendar::{last_day, CalendarState};

fn picker(year: i32, month: u32, day: u32) -> CalendarState {
    CalendarState { year, month, day, field_idx: 1, is_edit: true, from_mode: AppMode::EditTrade }
}

#[test]
fn month_lengths() {
    assert_eq!(last_day(2024, 2), 29);
    assert_eq!(last_day(2023, 2), 28);
    assert_eq!(last_day(1900, 2), 28);
    assert_eq!(last_day(2000, 2), 29);
    assert_eq!(last_day(2024, 4), 30);
    assert_eq!(last_day(2024, 12), 31);
    assert_eq!(last_day(2024, 0), 31);
}

#[test]
fn opening_the_picker() {
    let c = CalendarState::open("2024-03-15", 4, false, AppMode::CloseTrade);
    assert_eq!((c.year, c.month, c.day), (2024, 3, 15));
    assert_eq!(c.field_idx, 4);
    assert!(!c.is_edit);
    assert_eq!(c.from_mode, AppMode::CloseTrade);
    let today = CalendarState::open("", 0, true, AppMode::EditTrade);
    assert!(today.year >= 2024 && (1..=12).contains(&today.month));
}

#[test]
fn moving_by_days() {
    let mut c = picker(2024, 2, 28);
    c.move_days(1);
    assert_eq!((c.year, c.month, c.day), (2024, 2, 29));
    c.move_days(1);
    assert_eq!((c.year, c.month, c.day), (2024, 3, 1));
    c.move_days(-7);
    assert_eq!((c.year, c.month, c.day), (2024, 2, 23));
    let mut bad = picker(2024, 2, 31);
    bad.move_days(1);
    assert_eq!((bad.year, bad.month, bad.day), (2024, 2, 31));
}

#[test]
fn moving_by_months_clamps_day() {
    let mut c = picker(2024, 1, 31);
    c.move_months(1);
    assert_eq!((c.year, c.month, c.day), (2024, 2, 29));
    c.move_months(11);
    assert_eq!((c.year, c.month, c.day), (2025, 1, 29));
    c.move_months(-13);
    assert_eq!((c.year, c.month, c.day), (2023, 12, 29));
}

#[test]
fn date_text_is_zero_padded() {
    assert_eq!(picker(2024, 3, 5).date_text(), "2024-03-05");
    assert_eq!(picker(987, 11, 30).date_text(), "0987-11-30");
    assert_eq!(picker(-5, 1, 2).date_text(), format!("{:04}-{:02}-{:02}", -5, 1, 2));
}

#[test]
fn confirming_writes_the_field() {
    let mut fields = vec![
        EditField::text("Ticker", "SPY"),
        EditField::date("Exit Date", ""),
    ];
    let mode = picker(2024, 7, 4).confirm(&mut fields);
    assert_eq!(mode, AppMode::EditTrade);
    assert_eq!(fields[1].value, "2024-07-04");
    assert_eq!(fields[1].label, "Exit Date");
    assert_eq!(fields[0].value, "SPY");
    let mut short = vec![EditField::text("Ticker", "SPY")];
    picker(2024, 7, 4).confirm(&mut short);
    assert_eq!(short[0].value, "SPY");
}

#[test]
fn year_limits_match_chrono() {
    assert_eq!(chrono::NaiveDate::MIN.year(), theta_vault_rust::calendar::MIN_YEAR);
    assert_eq!(chrono::NaiveDate::MAX.year(), theta_vault_rust::calendar::MAX_YEAR);
    assert_eq!(theta_vault_rust::calendar::last_day(2024, 2), 29);
    assert_eq!(theta_vault_rust::calendar::last_day(2023, 2), 28);
}

#[test]
fn moving_by_days_across_years_and_back() {
    let mut c = picker(2023, 12, 31);
    c.move_days(1);
    assert_eq!((c.year, c.month, c.day), (2024, 1, 1));
    c.move_days(366);
    assert_eq!((c.year, c.month, c.day), (2025, 1, 1));
    c.move_days(-366);
    assert_eq!((c.year, c.month, c.day), (2024, 1, 1));
    let mut far = picker(2024, 1, 1);
    far.move_days(i64::MAX);
    assert_eq!((far.year, far.month, far.day), (2024, 1, 1));
    let mut edge = picker(262_142, 12, 31);
    edge.move_days(1);
    assert_eq!((edge.year, edge.month, edge.day), (262_142, 12, 31));
    edge.move_days(-1);
    assert_eq!((edge.year, edge.month, edge.day), (262_142, 12, 30));
}
