use theta_vault_rust::app::{
    all_spread_type_strings, all_strategy_types, close_key_char, count_legs_in_fields, edit_key_backspace,
    edit_key_char, extract_leg_number, field_opt_str, field_select_value, field_str, find_field,
    fix_legs_section, get_strategy_from_fields, leg_insert_position, legs_header_text, new_leg_fields,
    playbook_key_char, remove_leg_fields, renumber_leg_fields, sorted_leg_numbers, strategy_shows_per_leg_expiry,
    strategy_shows_per_leg_qty, EditField, FieldKind, FilterStatus, SortKey,
};
use theta_vault_rust::models::StrategyType;

fn opts(n: usize) -> Vec<String> {
    (0..n).map(|i| format!("opt{}", i)).collect()
}

#[test]
fn filter_status_cycles_through_all() {
    let mut f = FilterStatus::All;
    let mut labels = Vec::new();
    for _ in 0..4 {
        labels.push(f.label());
        f = f.next();
    }
    assert_eq!(f, FilterStatus::All);
    assert_eq!(labels, vec!["All", "Open", "Closed", "Expired"]);
}

#[test]
fn sort_key_cycles_through_all() {
    let mut k = SortKey::Date;
    for _ in 0..7 {
        k = k.next();
    }
    assert_eq!(k, SortKey::Date);
    assert_eq!(SortKey::Date.next(), SortKey::Ticker);
    assert_eq!(SortKey::PctMax.next(), SortKey::Date);
}

#[test]
fn field_constructors() {
    let f = EditField::bool_field("Is Tested", true);
    assert_eq!(f.value, "true");
    assert_eq!(f.kind, FieldKind::Bool);
    let g = EditField::text("Ticker", "SPY").with_section("── Core ──");
    assert_eq!(g.label, "Ticker");
    assert_eq!(g.section_header.as_deref(), Some("── Core ──"));
    let s = EditField::select("Strategy", "2", opts(3));
    assert_eq!(s.kind, FieldKind::Select(opts(3)));
    assert!(EditField::date("Exit Date", "").section_header.is_none());
}

#[test]
fn bool_field_keys() {
    let mut f = EditField::bool_field("Earnings Play", false);
    edit_key_char(&mut f, 'y');
    assert_eq!(f.value, "true");
    edit_key_char(&mut f, 'x');
    assert_eq!(f.value, "true");
    edit_key_char(&mut f, 'N');
    assert_eq!(f.value, "false");
}

#[test]
fn select_field_cycles_and_wraps() {
    let mut f = EditField::select("Grade", "2", opts(3));
    edit_key_char(&mut f, '+');
    assert_eq!(f.value, "0");
    edit_key_char(&mut f, '-');
    assert_eq!(f.value, "2");
    edit_key_char(&mut f, ' ');
    assert_eq!(f.value, "0");
    edit_key_char(&mut f, 'q');
    assert_eq!(f.value, "0");
}

#[test]
fn select_unreadable_index_counts_as_zero() {
    let mut f = EditField::select("Grade", "abc", opts(4));
    edit_key_char(&mut f, '+');
    assert_eq!(f.value, "1");
}

#[test]
fn select_round_trip_law_example() {
    for i in 0..5 {
        let mut f = EditField::select("S", &i.to_string(), opts(5));
        edit_key_char(&mut f, '+');
        edit_key_char(&mut f, '-');
        assert_eq!(f.value, i.to_string());
    }
}

#[test]
fn text_fields_append_and_backspace() {
    let mut f = EditField::text("Ticker", "SP");
    edit_key_char(&mut f, 'Y');
    assert_eq!(f.value, "SPY");
    edit_key_backspace(&mut f);
    assert_eq!(f.value, "SP");
    let mut d = EditField::date("Exit Date", "2024");
    edit_key_backspace(&mut d);
    assert_eq!(d.value, "2024");
    let mut e = EditField::number("Qty", "");
    edit_key_backspace(&mut e);
    assert_eq!(e.value, "");
}

#[test]
fn close_form_keys() {
    let mut f = EditField::number("Close Premium", "1.2");
    close_key_char(&mut f, '5');
    assert_eq!(f.value, "1.25");
    let mut b = EditField::bool_field("Flag", false);
    close_key_char(&mut b, 'y');
    assert_eq!(b.value, "falsey");
}

#[test]
fn playbook_form_keys() {
    let mut b = EditField::bool_field("Flag", false);
    playbook_key_char(&mut b, 'z');
    assert_eq!(b.value, "true");
    playbook_key_char(&mut b, 'z');
    assert_eq!(b.value, "false");
    let mut s = EditField::select("Spread", "007", opts(10));
    playbook_key_char(&mut s, 'x');
    assert_eq!(s.value, "7");
}

#[test]
fn leg_numbers_from_labels() {
    assert_eq!(extract_leg_number("Leg 3 Strike"), Some(3));
    assert_eq!(extract_leg_number("Leg 12"), Some(12));
    assert_eq!(extract_leg_number("Leg x Type"), None);
    assert_eq!(extract_leg_number("Legs"), None);
    assert_eq!(extract_leg_number("Ticker"), None);
}

#[test]
fn counting_legs_uses_highest_number() {
    let fields = vec![
        EditField::text("Ticker", "SPY"),
        EditField::number("Leg 1 Strike", "100"),
        EditField::number("Leg 4 Strike", "90"),
        EditField::number("Leg 2 Strike", "95"),
    ];
    assert_eq!(count_legs_in_fields(&fields), 4);
    assert_eq!(count_legs_in_fields(&[]), 0);
}

#[test]
fn strategy_from_form() {
    let fields = vec![EditField::select("Strategy", "2", opts(17))];
    assert_eq!(get_strategy_from_fields(&fields), StrategyType::IronCondor);
    let none: Vec<EditField> = vec![EditField::text("Ticker", "SPY")];
    assert_eq!(get_strategy_from_fields(&none), StrategyType::Custom);
    let out = vec![EditField::select("Strategy", "99", opts(17))];
    assert_eq!(get_strategy_from_fields(&out), StrategyType::Custom);
    assert_eq!(all_strategy_types().len(), 17);
    assert_eq!(all_strategy_types()[16], StrategyType::Custom);
}

#[test]
fn per_leg_columns() {
    assert!(strategy_shows_per_leg_expiry(&StrategyType::CalendarSpread));
    assert!(!strategy_shows_per_leg_expiry(&StrategyType::IronCondor));
    assert!(strategy_shows_per_leg_qty(&StrategyType::Custom));
    assert!(!strategy_shows_per_leg_qty(&StrategyType::Pmcc));
}

#[test]
fn spread_type_list() {
    let v = all_spread_type_strings();
    assert_eq!(v.len(), 16);
    assert_eq!(v[0], "short_put_vertical");
    assert_eq!(v[15], "custom");
}

#[test]
fn reading_form_fields() {
    let fields = vec![
        EditField::text("Ticker", "SPY"),
        EditField::text("Notes", ""),
        EditField::select("Exit Reason", "1", vec!["".to_string(), "expired".to_string()]),
        EditField::select("Grade", "0", vec!["".to_string(), "A".to_string()]),
        EditField::text("Ticker", "QQQ"),
    ];
    assert_eq!(find_field(&fields, "Ticker"), Some(0));
    assert_eq!(find_field(&fields, "Missing"), None);
    assert_eq!(field_str(&fields, "Ticker"), "SPY");
    assert_eq!(field_str(&fields, "Missing"), "");
    assert_eq!(field_opt_str(&fields, "Notes"), None);
    assert_eq!(field_opt_str(&fields, "Ticker"), Some("SPY".to_string()));
    assert_eq!(field_select_value(&fields, "Exit Reason"), Some("expired".to_string()));
    assert_eq!(field_select_value(&fields, "Grade"), None);
    assert_eq!(field_select_value(&fields, "Ticker"), None);
}

#[test]
fn legs_header_counts_legs() {
    assert_eq!(
        legs_header_text(2),
        "── Legs (2 total) ─────────────────────────────────────────────"
    );
}

#[test]
fn fix_legs_section_moves_header_to_first_leg() {
    let mut fields = vec![
        EditField::text("Ticker", "SPY").with_section("Core"),
        EditField::select("Leg 1 Type", "0", opts(4)).with_section("old"),
        EditField::number("Leg 1 Strike", "100"),
        EditField::select("Leg 2 Type", "1", opts(4)).with_section("stale"),
        EditField {
            label: "+ Add Leg".to_string(),
            value: String::new(),
            kind: FieldKind::Button("[+ Add Leg]".to_string()),
            section_header: Some("x".to_string()),
        },
    ];
    fix_legs_section(&mut fields);
    assert_eq!(fields[0].section_header.as_deref(), Some("Core"));
    assert_eq!(
        fields[1].section_header.as_deref(),
        Some("── Legs (2 total) ─────────────────────────────────────────────")
    );
    assert_eq!(fields[2].section_header, None);
    assert_eq!(fields[3].section_header, None);
    assert_eq!(fields[4].section_header, None);
}

#[test]
fn fix_legs_section_on_button_only() {
    let mut fields = vec![EditField {
        label: "+ Add Leg".to_string(),
        value: String::new(),
        kind: FieldKind::Button("[+ Add Leg]".to_string()),
        section_header: None,
    }];
    fix_legs_section(&mut fields);
    assert_eq!(
        fields[0].section_header.as_deref(),
        Some("── Legs (0 total) ─────────────────────────────────────────────")
    );
}

fn labels(fields: &[EditField]) -> Vec<String> {
    fields.iter().map(|f| f.label.clone()).collect()
}

#[test]
fn leg_numbers_listed_once_ascending() {
    let fields = vec![
        EditField::number("Leg 3 Strike", "1"),
        EditField::text("Ticker", "SPY"),
        EditField::number("Leg 1 Strike", "1"),
        EditField::number("Leg 3 Premium", "1"),
    ];
    assert_eq!(sorted_leg_numbers(&fields), vec![1, 3]);
}

#[test]
fn renumbering_after_a_deletion() {
    let mut fields = vec![
        EditField::text("Ticker", "SPY"),
        EditField::select("Leg 2 Type", "1", opts(4)),
        EditField::number("Leg 2 Strike", "95"),
        EditField::select("Leg 4 Type", "0", opts(4)),
        EditField::number("Leg 4 Strike", "90"),
    ];
    renumber_leg_fields(&mut fields);
    assert_eq!(
        labels(&fields),
        vec!["Ticker", "Leg 1 Type", "Leg 1 Strike", "Leg 2 Type", "Leg 2 Strike"]
    );
    assert_eq!(fields[4].value, "90");
}

#[test]
fn renumbering_keeps_consecutive_legs() {
    let mut fields = vec![EditField::number("Leg 1 Strike", "1"), EditField::number("Leg 2 Strike", "2")];
    renumber_leg_fields(&mut fields);
    assert_eq!(labels(&fields), vec!["Leg 1 Strike", "Leg 2 Strike"]);
}

#[test]
fn blank_leg_fields() {
    let f = new_leg_fields(3);
    assert_eq!(
        labels(&f),
        vec!["Leg 3 Type", "Leg 3 Strike", "Leg 3 Premium", "Leg 3 Close", "Leg 3 Expiry", "Leg 3 Qty"]
    );
    assert_eq!(f[0].value, "0");
    assert_eq!(f[0].kind, FieldKind::Select(theta_vault_rust::models::LegType::all_options()));
    assert_eq!(f[1].value, "0.00");
    assert_eq!(f[2].value, "0.0000");
    assert_eq!(f[4].kind, FieldKind::Date);
    assert_eq!(f[5].value, "1");
}

#[test]
fn where_new_legs_go() {
    let button = EditField {
        label: "+ Add Leg".to_string(),
        value: String::new(),
        kind: FieldKind::Button("[+ Add Leg]".to_string()),
        section_header: None,
    };
    let exit = EditField::date("Exit Date", "").with_section("── Exit ──");
    let plain = EditField::text("Ticker", "SPY");
    assert_eq!(leg_insert_position(&[plain.clone(), exit.clone(), button.clone()]), 2);
    assert_eq!(leg_insert_position(&[plain.clone(), exit.clone()]), 1);
    assert_eq!(leg_insert_position(&[plain.clone(), plain.clone()]), 2);
}

#[test]
fn deleting_a_leg_drops_its_fields() {
    let mut fields = vec![
        EditField::text("Ticker", "SPY"),
        EditField::number("Leg 1 Strike", "100"),
        EditField::number("Leg 2 Strike", "95"),
        EditField::number("Leg 2 Premium", "1.0"),
    ];
    remove_leg_fields(&mut fields, 2);
    assert_eq!(labels(&fields), vec!["Ticker", "Leg 1 Strike"]);
}
