use theta_vault_rust::actions::AlertKind;
use theta_vault_rust::app::{AppMode, FieldKind};
use theta_vault_rust::journal::JournalRow;
use theta_vault_rust::keys::{key_action, next_tab, ActionPick, KeyAction, KeyContext, KeyInput};

fn ctx(tab: usize) -> KeyContext {
    KeyContext {
        ctrl: false,
        tab,
        focused_kind: None,
        focused_is_strategy: false,
        selected_row: None,
        has_journal_rows: false,
        has_selected_trade: false,
        selected_trade_open: false,
        has_playbooks: false,
        selected_action: None,
    }
}

#[test]
fn tabs_cycle_both_ways() {
    assert_eq!(next_tab(0, true), 1);
    assert_eq!(next_tab(5, true), 0);
    assert_eq!(next_tab(0, false), 5);
    assert_eq!(next_tab(3, false), 2);
    assert_eq!(key_action(AppMode::Normal, KeyInput::Tab, ctx(5)), KeyAction::SwitchTab(0));
    assert_eq!(key_action(AppMode::Normal, KeyInput::BackTab, ctx(0)), KeyAction::SwitchTab(5));
}

#[test]
fn q_quits_only_without_a_form() {
    assert_eq!(key_action(AppMode::Normal, KeyInput::Char('q'), ctx(1)), KeyAction::Quit);
    assert_eq!(key_action(AppMode::Normal, KeyInput::Char('Q'), ctx(3)), KeyAction::Quit);
    assert_eq!(key_action(AppMode::EditTrade, KeyInput::Char('q'), ctx(1)), KeyAction::FieldChar('q'));
    assert_eq!(key_action(AppMode::FilterInput, KeyInput::Char('q'), ctx(1)), KeyAction::FilterChar('q'));
    assert_eq!(key_action(AppMode::ConfirmDelete, KeyInput::Char('q'), ctx(1)), KeyAction::Cancel);
    assert_eq!(key_action(AppMode::AnalyzeTrade, KeyInput::Char('q'), ctx(1)), KeyAction::Nothing);
}

#[test]
fn escape_leaves_forms() {
    assert_eq!(key_action(AppMode::EditTrade, KeyInput::Esc, ctx(1)), KeyAction::Cancel);
    assert_eq!(key_action(AppMode::EditThesis, KeyInput::Esc, ctx(2)), KeyAction::ReturnToNormal);
    assert_eq!(key_action(AppMode::FilterInput, KeyInput::Esc, ctx(1)), KeyAction::ReturnToNormal);
    assert_eq!(key_action(AppMode::DatePicker, KeyInput::Esc, ctx(1)), KeyAction::CloseDatePicker);
    assert_eq!(key_action(AppMode::Normal, KeyInput::Esc, ctx(1)), KeyAction::Nothing);
}

#[test]
fn journal_keys() {
    let mut c = ctx(1);
    assert_eq!(key_action(AppMode::Normal, KeyInput::Char('e'), c.clone()), KeyAction::Nothing);
    c.has_selected_trade = true;
    c.selected_row = Some(JournalRow::Trade(3));
    assert_eq!(key_action(AppMode::Normal, KeyInput::Char('e'), c.clone()), KeyAction::StartEdit);
    assert_eq!(key_action(AppMode::Normal, KeyInput::Char('c'), c.clone()), KeyAction::Nothing);
    c.selected_trade_open = true;
    assert_eq!(key_action(AppMode::Normal, KeyInput::Char('c'), c.clone()), KeyAction::StartClose);
    assert_eq!(key_action(AppMode::Normal, KeyInput::Enter, c.clone()), KeyAction::ToggleDetail);
    assert_eq!(key_action(AppMode::Normal, KeyInput::Delete, c.clone()), KeyAction::AskDelete);
    c.selected_row = Some(JournalRow::MonthHeader { year: 2024, month: 3 });
    assert_eq!(key_action(AppMode::Normal, KeyInput::Enter, c.clone()), KeyAction::ToggleMonth(2024, 3));
    c.selected_row = Some(JournalRow::YearHeader { year: 2023 });
    assert_eq!(key_action(AppMode::Normal, KeyInput::Enter, c.clone()), KeyAction::ToggleYear(2023));
    assert_eq!(key_action(AppMode::Normal, KeyInput::Char('f'), c.clone()), KeyAction::CycleFilterStatus);
    assert_eq!(key_action(AppMode::Normal, KeyInput::Char('S'), c.clone()), KeyAction::ToggleSortDirection);
    assert_eq!(key_action(AppMode::Normal, KeyInput::Char('j'), c.clone()), KeyAction::NavDown);
    assert_eq!(key_action(AppMode::Normal, KeyInput::PageUp, c.clone()), KeyAction::NavUpPage);
    assert_eq!(key_action(AppMode::Normal, KeyInput::Home, c.clone()), KeyAction::Nothing);
    c.has_journal_rows = true;
    assert_eq!(key_action(AppMode::Normal, KeyInput::Home, c.clone()), KeyAction::JournalFirst);
    assert_eq!(key_action(AppMode::Normal, KeyInput::Char('l'), c), KeyAction::Nothing);
}

#[test]
fn trade_form_keys() {
    let mut c = ctx(1);
    c.focused_kind = Some(FieldKind::Date);
    assert_eq!(key_action(AppMode::EditTrade, KeyInput::Enter, c.clone()), KeyAction::OpenDatePicker(true));
    assert_eq!(key_action(AppMode::CloseTrade, KeyInput::Enter, c.clone()), KeyAction::OpenDatePicker(false));
    assert_eq!(key_action(AppMode::EditTrade, KeyInput::Backspace, c.clone()), KeyAction::FieldBackspace);
    c.focused_kind = Some(FieldKind::Bool);
    assert_eq!(key_action(AppMode::EditTrade, KeyInput::Backspace, c.clone()), KeyAction::Nothing);
    c.focused_kind = Some(FieldKind::Button("add".to_string()));
    assert_eq!(key_action(AppMode::EditTrade, KeyInput::Enter, c.clone()), KeyAction::AddLeg);
    c.ctrl = true;
    assert_eq!(key_action(AppMode::EditTrade, KeyInput::Char('s'), c.clone()), KeyAction::SaveForm);
    assert_eq!(key_action(AppMode::EditTrade, KeyInput::Char('d'), c.clone()), KeyAction::DeleteLeg);
    assert_eq!(key_action(AppMode::EditTrade, KeyInput::Char('x'), c.clone()), KeyAction::FieldChar('x'));
    c.ctrl = false;
    c.focused_is_strategy = true;
    assert_eq!(key_action(AppMode::EditTrade, KeyInput::Char('+'), c.clone()), KeyAction::StrategyChar('+'));
    assert_eq!(key_action(AppMode::EditTrade, KeyInput::Char('x'), c.clone()), KeyAction::FieldChar('x'));
    assert_eq!(key_action(AppMode::EditTrade, KeyInput::Down, c), KeyAction::NavDown);
}

#[test]
fn other_form_keys() {
    let mut c = ctx(4);
    c.focused_kind = Some(FieldKind::Number);
    assert_eq!(key_action(AppMode::AdminSettings, KeyInput::Char('7'), c.clone()), KeyAction::FieldChar('7'));
    assert_eq!(key_action(AppMode::AdminSettings, KeyInput::Down, c.clone()), KeyAction::NextField);
    c.focused_kind = Some(FieldKind::Multiline);
    assert_eq!(key_action(AppMode::EditPlaybook, KeyInput::Char('\n'), c.clone()), KeyAction::FieldNewline);
    c.focused_kind = Some(FieldKind::Text);
    assert_eq!(key_action(AppMode::EditPlaybook, KeyInput::Enter, c.clone()), KeyAction::Nothing);
    assert_eq!(key_action(AppMode::EditThesis, KeyInput::Enter, c.clone()), KeyAction::FieldNewline);
    assert_eq!(key_action(AppMode::DatePicker, KeyInput::Char('['), c.clone()), KeyAction::CalendarMonths(-1));
    assert_eq!(key_action(AppMode::DatePicker, KeyInput::Up, c.clone()), KeyAction::CalendarDays(-7));
    assert_eq!(key_action(AppMode::ConfirmDelete, KeyInput::Char('y'), c.clone()), KeyAction::ConfirmDelete);
    assert_eq!(key_action(AppMode::ConfirmDelete, KeyInput::Char('n'), c), KeyAction::Cancel);
}

#[test]
fn tab_specific_keys() {
    let mut c = ctx(3);
    c.selected_action = Some(ActionPick::Alert(-1));
    assert_eq!(key_action(AppMode::Normal, KeyInput::Enter, c.clone()), KeyAction::Nothing);
    c.selected_action = Some(ActionPick::Alert(7));
    assert_eq!(key_action(AppMode::Normal, KeyInput::Enter, c.clone()), KeyAction::JumpToTrade(7));
    c.selected_action = Some(ActionPick::Group(AlertKind::Roll));
    assert_eq!(key_action(AppMode::Normal, KeyInput::Enter, c), KeyAction::ToggleActionKind(AlertKind::Roll));
    let mut p = ctx(2);
    assert_eq!(key_action(AppMode::Normal, KeyInput::Char('e'), p.clone()), KeyAction::Nothing);
    assert_eq!(key_action(AppMode::Normal, KeyInput::Char('n'), p.clone()), KeyAction::StartNewPlaybook);
    p.has_playbooks = true;
    assert_eq!(key_action(AppMode::Normal, KeyInput::Enter, p.clone()), KeyAction::StartEditPlaybook);
    assert_eq!(key_action(AppMode::Normal, KeyInput::Char('l'), p), KeyAction::ScrollRight);
    assert_eq!(key_action(AppMode::Normal, KeyInput::Char('i'), ctx(0)), KeyAction::ToggleKpiPopup);
    assert_eq!(key_action(AppMode::Normal, KeyInput::Char('i'), ctx(5)), KeyAction::Nothing);
    assert_eq!(key_action(AppMode::Normal, KeyInput::Enter, ctx(4)), KeyAction::StartAdminSettings);
    assert_eq!(key_action(AppMode::Normal, KeyInput::Down, ctx(4)), KeyAction::Nothing);
    assert_eq!(key_action(AppMode::Normal, KeyInput::Char('r'), ctx(4)), KeyAction::Reload);
}
