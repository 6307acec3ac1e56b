//! What each key does in each mode of the terminal interface: the key table
//! from a key press and what the screen shows to the action to carry out.
use vstd::prelude::*;
use crate::actions::AlertKind;
use crate::app::{AppMode, FieldKind};
use crate::journal::JournalRow;

verus! {

/// A key press, as the interface tells keys apart.
#[derive(Debug, Clone, Copy, PartialEq, Eq, Structural)]
pub enum KeyInput {
    Char(char),
    Enter,
    Esc,
    Tab,
    BackTab,
    Backspace,
    Up,
    Down,
    Left,
    Right,
    PageUp,
    PageDown,
    Home,
    End,
    Delete,
    Other,
}

/// The selected row of the Actions list: a group header of an alert kind,
/// or an alert for the trade with the given id (-1 for portfolio alerts).
#[derive(Debug, Clone, Copy, PartialEq, Eq, Structural)]
pub enum ActionPick {
    Group(AlertKind),
    Alert(i32),
}

/// What a key's meaning depends on besides the mode.
#[derive(Debug, Clone)]
pub struct KeyContext {
    /// Control is held.
    pub ctrl: bool,
    /// The selected tab: 0 Dashboard, 1 Journal, 2 Playbooks, 3 Actions,
    /// 4 Admin, 5 Performance.
    pub tab: usize,
    /// The kind of the focused form field, if the form has one.
    pub focused_kind: Option<FieldKind>,
    /// The focused field of the trade form is the strategy select.
    pub focused_is_strategy: bool,
    /// The selected journal row.
    pub selected_row: Option<JournalRow>,
    /// The journal has rows.
    pub has_journal_rows: bool,
    /// A trade row is selected in the journal.
    pub has_selected_trade: bool,
    /// The selected trade is still open.
    pub selected_trade_open: bool,
    /// There are playbooks.
    pub has_playbooks: bool,
    /// The selected row of the Actions list.
    pub selected_action: Option<ActionPick>,
}

/// What the interface does in answer to a key.
#[derive(Debug, Clone, Copy, PartialEq, Eq, Structural)]
pub enum KeyAction {
    Nothing,
    Quit,
    Reload,
    /// Switch to the tab, leaving any form.
    SwitchTab(usize),
    ToggleKpiPopup,
    NavDown,
    NavUp,
    /// Ten moves down.
    NavDownPage,
    /// Ten moves up.
    NavUpPage,
    ScrollRight,
    ScrollLeft,
    CycleFilterStatus,
    ClearTickerFilter,
    EnterFilterInput,
    FilterChar(char),
    FilterBackspace,
    /// Leave the ticker filter input, applying it.
    ApplyFilter,
    /// Back to normal mode, keeping the form's state.
    ReturnToNormal,
    CycleSortKey,
    ToggleSortDirection,
    ToggleDetail,
    StartEdit,
    StartClose,
    StartAnalyze,
    AskDelete,
    ConfirmDelete,
    /// Leave the form or dialog, dropping its state.
    Cancel,
    ToggleYear(i32),
    ToggleMonth(i32, u32),
    JournalFirst,
    JournalLast,
    ToggleActionKind(AlertKind),
    JumpToTrade(i32),
    StartAdminSettings,
    StartNewPlaybook,
    StartEditPlaybook,
    StartThesisEdit,
    PlaybookFirst,
    PlaybookLast,
    /// Focus the next field of the settings or playbook form.
    NextField,
    /// Focus the previous field of the settings or playbook form.
    PrevField,
    SaveForm,
    /// Open the date picker on the focused field of the trade form (`true`)
    /// or of the close form (`false`).
    OpenDatePicker(bool),
    CloseDatePicker,
    CalendarDays(i64),
    CalendarMonths(i32),
    ConfirmDate,
    /// Type a character into the focused field (or the thesis text).
    FieldChar(char),
    /// Type into the strategy select, then rebuild the legs for the new strategy.
    StrategyChar(char),
    FieldBackspace,
    FieldNewline,
    AddLeg,
    DeleteLeg,
}

// ─────────────────────────────── tabs ───────────────────────────────

/// The tab after `tab` going forward (wrapping to the first) or backward
/// (wrapping to the last).
pub open spec fn next_tab_spec(tab: usize, forward: bool) -> usize {
    if forward {
        ((tab + 1) % 6) as usize
    } else if tab == 0 {
        5
    } else {
        (tab - 1) as usize
    }
}

/// The tab Tab (forward) or Shift-Tab (backward) moves to.
pub fn next_tab(tab: usize, forward: bool) -> (r: usize)
    requires
        tab < 6,
    ensures
        r < 6,
        r == next_tab_spec(tab, forward),
        forward ==> r == (tab + 1) % 6,
        !forward ==> r == (if tab == 0 { 5 } else { tab - 1 }),
{
    if forward {
        (tab + 1) % 6
    } else if tab == 0 {
        5
    } else {
        tab - 1
    }
}

// ─────────────────────────────── the key table ───────────────────────────────

/// Down/`j` and Up/`k` move, PageDown/PageUp move ten.
pub open spec fn list_move_spec(key: KeyInput) -> Option<KeyAction> {
    if key == KeyInput::Down || key == KeyInput::Char('j') {
        Some(KeyAction::NavDown)
    } else if key == KeyInput::Up || key == KeyInput::Char('k') {
        Some(KeyAction::NavUp)
    } else if key == KeyInput::PageDown {
        Some(KeyAction::NavDownPage)
    } else if key == KeyInput::PageUp {
        Some(KeyAction::NavUpPage)
    } else {
        None
    }
}

fn list_move(key: KeyInput) -> (r: Option<KeyAction>)
    ensures
        r == list_move_spec(key),
{
    if key == KeyInput::Down || key == KeyInput::Char('j') {
        Some(KeyAction::NavDown)
    } else if key == KeyInput::Up || key == KeyInput::Char('k') {
        Some(KeyAction::NavUp)
    } else if key == KeyInput::PageDown {
        Some(KeyAction::NavDownPage)
    } else if key == KeyInput::PageUp {
        Some(KeyAction::NavUpPage)
    } else {
        None
    }
}

/// Keys of the ticker filter input.
pub open spec fn filter_input_spec(key: KeyInput) -> KeyAction {
    match key {
        KeyInput::Esc => KeyAction::ReturnToNormal,
        KeyInput::Enter => KeyAction::ApplyFilter,
        KeyInput::Backspace => KeyAction::FilterBackspace,
        KeyInput::Char(c) => KeyAction::FilterChar(c),
        _ => KeyAction::Nothing,
    }
}

fn filter_input(key: KeyInput) -> (r: KeyAction)
    ensures
        r == filter_input_spec(key),
{
    match key {
        KeyInput::Esc => KeyAction::ReturnToNormal,
        KeyInput::Enter => KeyAction::ApplyFilter,
        KeyInput::Backspace => KeyAction::FilterBackspace,
        KeyInput::Char(c) => KeyAction::FilterChar(c),
        _ => KeyAction::Nothing,
    }
}

/// Keys of the date picker: arrows or `hjkl` move a day or a week,
/// `[`/`]` or PageUp/PageDown a month.
pub open spec fn date_picker_spec(key: KeyInput) -> KeyAction {
    if key == KeyInput::Esc {
        KeyAction::CloseDatePicker
    } else if key == KeyInput::Enter {
        KeyAction::ConfirmDate
    } else if key == KeyInput::Left || key == KeyInput::Char('h') {
        KeyAction::CalendarDays(-1i64)
    } else if key == KeyInput::Right || key == KeyInput::Char('l') {
        KeyAction::CalendarDays(1i64)
    } else if key == KeyInput::Up || key == KeyInput::Char('k') {
        KeyAction::CalendarDays(-7i64)
    } else if key == KeyInput::Down || key == KeyInput::Char('j') {
        KeyAction::CalendarDays(7i64)
    } else if key == KeyInput::Char('[') || key == KeyInput::PageUp {
        KeyAction::CalendarMonths(-1i32)
    } else if key == KeyInput::Char(']') || key == KeyInput::PageDown {
        KeyAction::CalendarMonths(1i32)
    } else {
        KeyAction::Nothing
    }
}

fn date_picker(key: KeyInput) -> (r: KeyAction)
    ensures
        r == date_picker_spec(key),
{
    if key == KeyInput::Esc {
        KeyAction::CloseDatePicker
    } else if key == KeyInput::Enter {
        KeyAction::ConfirmDate
    } else if key == KeyInput::Left || key == KeyInput::Char('h') {
        KeyAction::CalendarDays(-1)
    } else if key == KeyInput::Right || key == KeyInput::Char('l') {
        KeyAction::CalendarDays(1)
    } else if key == KeyInput::Up || key == KeyInput::Char('k') {
        KeyAction::CalendarDays(-7)
    } else if key == KeyInput::Down || key == KeyInput::Char('j') {
        KeyAction::CalendarDays(7)
    } else if key == KeyInput::Char('[') || key == KeyInput::PageUp {
        KeyAction::CalendarMonths(-1)
    } else if key == KeyInput::Char(']') || key == KeyInput::PageDown {
        KeyAction::CalendarMonths(1)
    } else {
        KeyAction::Nothing
    }
}

/// Whether the focused field is of one of the text-like kinds that
/// Backspace edits in the trade form.
pub open spec fn trade_form_erasable(k: Option<FieldKind>) -> bool {
    match k {
        Some(FieldKind::Text) | Some(FieldKind::Number) | Some(FieldKind::Multiline) | Some(FieldKind::Date) => true,
        _ => false,
    }
}

/// Keys of the trade form.
pub open spec fn edit_trade_spec(key: KeyInput, ctx: KeyContext) -> KeyAction {
    match key {
        KeyInput::Esc => KeyAction::Cancel,
        KeyInput::Tab | KeyInput::Down => KeyAction::NavDown,
        KeyInput::BackTab | KeyInput::Up => KeyAction::NavUp,
        KeyInput::Enter => match ctx.focused_kind {
            Some(FieldKind::Date) => KeyAction::OpenDatePicker(true),
            Some(FieldKind::Multiline) => KeyAction::FieldNewline,
            Some(FieldKind::Button(_)) => KeyAction::AddLeg,
            _ => KeyAction::Nothing,
        },
        KeyInput::Backspace => if trade_form_erasable(ctx.focused_kind) { KeyAction::FieldBackspace } else { KeyAction::Nothing },
        KeyInput::Char(c) => {
            if ctx.ctrl && c == 's' {
                KeyAction::SaveForm
            } else if ctx.ctrl && c == 'a' {
                KeyAction::AddLeg
            } else if ctx.ctrl && c == 'd' {
                KeyAction::DeleteLeg
            } else if ctx.focused_is_strategy && (c == '+' || c == '-' || c == ' ') {
                KeyAction::StrategyChar(c)
            } else {
                KeyAction::FieldChar(c)
            }
        },
        _ => KeyAction::Nothing,
    }
}

fn edit_trade(key: KeyInput, ctx: &KeyContext) -> (r: KeyAction)
    ensures
        r == edit_trade_spec(key, *ctx),
{
    match key {
        KeyInput::Esc => KeyAction::Cancel,
        KeyInput::Tab | KeyInput::Down => KeyAction::NavDown,
        KeyInput::BackTab | KeyInput::Up => KeyAction::NavUp,
        KeyInput::Enter => match &ctx.focused_kind {
            Some(FieldKind::Date) => KeyAction::OpenDatePicker(true),
            Some(FieldKind::Multiline) => KeyAction::FieldNewline,
            Some(FieldKind::Button(_)) => KeyAction::AddLeg,
            _ => KeyAction::Nothing,
        },
        KeyInput::Backspace => {
            let erasable = match &ctx.focused_kind {
                Some(FieldKind::Text) | Some(FieldKind::Number) | Some(FieldKind::Multiline) | Some(FieldKind::Date) => true,
                _ => false,
            };
            if erasable { KeyAction::FieldBackspace } else { KeyAction::Nothing }
        },
        KeyInput::Char(c) => {
            if ctx.ctrl && c == 's' {
                KeyAction::SaveForm
            } else if ctx.ctrl && c == 'a' {
                KeyAction::AddLeg
            } else if ctx.ctrl && c == 'd' {
                KeyAction::DeleteLeg
            } else if ctx.focused_is_strategy && (c == '+' || c == '-' || c == ' ') {
                KeyAction::StrategyChar(c)
            } else {
                KeyAction::FieldChar(c)
            }
        },
        _ => KeyAction::Nothing,
    }
}

/// Keys of the close form.
pub open spec fn close_trade_spec(key: KeyInput, ctx: KeyContext) -> KeyAction {
    match key {
        KeyInput::Esc => KeyAction::Cancel,
        KeyInput::Tab | KeyInput::Down => KeyAction::NavDown,
        KeyInput::BackTab | KeyInput::Up => KeyAction::NavUp,
        KeyInput::Enter => match ctx.focused_kind {
            Some(FieldKind::Date) => KeyAction::OpenDatePicker(false),
            _ => KeyAction::Nothing,
        },
        KeyInput::Backspace => KeyAction::FieldBackspace,
        KeyInput::Char(c) => if ctx.ctrl && c == 's' { KeyAction::SaveForm } else { KeyAction::FieldChar(c) },
        _ => KeyAction::Nothing,
    }
}

fn close_trade(key: KeyInput, ctx: &KeyContext) -> (r: KeyAction)
    ensures
        r == close_trade_spec(key, *ctx),
{
    match key {
        KeyInput::Esc => KeyAction::Cancel,
        KeyInput::Tab | KeyInput::Down => KeyAction::NavDown,
        KeyInput::BackTab | KeyInput::Up => KeyAction::NavUp,
        KeyInput::Enter => match &ctx.focused_kind {
            Some(FieldKind::Date) => KeyAction::OpenDatePicker(false),
            _ => KeyAction::Nothing,
        },
        KeyInput::Backspace => KeyAction::FieldBackspace,
        KeyInput::Char(c) => if ctx.ctrl && c == 's' { KeyAction::SaveForm } else { KeyAction::FieldChar(c) },
        _ => KeyAction::Nothing,
    }
}

/// Keys of the delete confirmation: `y`, `Y` or Enter delete, any other
/// key cancels.
pub open spec fn confirm_delete_spec(key: KeyInput) -> KeyAction {
    if key == KeyInput::Char('y') || key == KeyInput::Char('Y') || key == KeyInput::Enter {
        KeyAction::ConfirmDelete
    } else {
        KeyAction::Cancel
    }
}

/// Keys of the settings form.
pub open spec fn admin_form_spec(key: KeyInput, ctx: KeyContext) -> KeyAction {
    match key {
        KeyInput::Esc => KeyAction::Cancel,
        KeyInput::Tab | KeyInput::Down => KeyAction::NextField,
        KeyInput::BackTab | KeyInput::Up => KeyAction::PrevField,
        KeyInput::Backspace => KeyAction::FieldBackspace,
        KeyInput::Char(c) => {
            if ctx.ctrl && c == 's' {
                KeyAction::SaveForm
            } else {
                match ctx.focused_kind {
                    Some(FieldKind::Number) | Some(FieldKind::Text) => KeyAction::FieldChar(c),
                    _ => KeyAction::Nothing,
                }
            }
        },
        _ => KeyAction::Nothing,
    }
}

fn admin_form(key: KeyInput, ctx: &KeyContext) -> (r: KeyAction)
    ensures
        r == admin_form_spec(key, *ctx),
{
    match key {
        KeyInput::Esc => KeyAction::Cancel,
        KeyInput::Tab | KeyInput::Down => KeyAction::NextField,
        KeyInput::BackTab | KeyInput::Up => KeyAction::PrevField,
        KeyInput::Backspace => KeyAction::FieldBackspace,
        KeyInput::Char(c) => {
            if ctx.ctrl && c == 's' {
                KeyAction::SaveForm
            } else {
                match &ctx.focused_kind {
                    Some(FieldKind::Number) | Some(FieldKind::Text) => KeyAction::FieldChar(c),
                    _ => KeyAction::Nothing,
                }
            }
        },
        _ => KeyAction::Nothing,
    }
}

/// Keys of the thesis editor.
pub open spec fn thesis_spec(key: KeyInput, ctx: KeyContext) -> KeyAction {
    match key {
        KeyInput::Esc => KeyAction::ReturnToNormal,
        KeyInput::Enter => KeyAction::FieldNewline,
        KeyInput::Backspace => KeyAction::FieldBackspace,
        KeyInput::Char(c) => if ctx.ctrl && c == 's' { KeyAction::SaveForm } else { KeyAction::FieldChar(c) },
        _ => KeyAction::Nothing,
    }
}

/// Keys of the playbook form.
pub open spec fn playbook_form_spec(key: KeyInput, ctx: KeyContext) -> KeyAction {
    let multiline = ctx.focused_kind matches Some(FieldKind::Multiline);
    match key {
        KeyInput::Esc => KeyAction::Cancel,
        KeyInput::Tab | KeyInput::Down => KeyAction::NextField,
        KeyInput::BackTab | KeyInput::Up => KeyAction::PrevField,
        KeyInput::Enter => if multiline { KeyAction::FieldNewline } else { KeyAction::Nothing },
        KeyInput::Backspace => match ctx.focused_kind {
            Some(FieldKind::Text) | Some(FieldKind::Number) | Some(FieldKind::Multiline) => KeyAction::FieldBackspace,
            _ => KeyAction::Nothing,
        },
        KeyInput::Char(c) => {
            if ctx.ctrl && c == 's' {
                KeyAction::SaveForm
            } else if c == '\r' || c == '\n' {
                if multiline { KeyAction::FieldNewline } else { KeyAction::Nothing }
            } else {
                KeyAction::FieldChar(c)
            }
        },
        _ => KeyAction::Nothing,
    }
}

fn playbook_form(key: KeyInput, ctx: &KeyContext) -> (r: KeyAction)
    ensures
        r == playbook_form_spec(key, *ctx),
{
    let multiline = match &ctx.focused_kind {
        Some(FieldKind::Multiline) => true,
        _ => false,
    };
    match key {
        KeyInput::Esc => KeyAction::Cancel,
        KeyInput::Tab | KeyInput::Down => KeyAction::NextField,
        KeyInput::BackTab | KeyInput::Up => KeyAction::PrevField,
        KeyInput::Enter => if multiline { KeyAction::FieldNewline } else { KeyAction::Nothing },
        KeyInput::Backspace => match &ctx.focused_kind {
            Some(FieldKind::Text) | Some(FieldKind::Number) | Some(FieldKind::Multiline) => KeyAction::FieldBackspace,
            _ => KeyAction::Nothing,
        },
        KeyInput::Char(c) => {
            if ctx.ctrl && c == 's' {
                KeyAction::SaveForm
            } else if c == '\r' || c == '\n' {
                if multiline { KeyAction::FieldNewline } else { KeyAction::Nothing }
            } else {
                KeyAction::FieldChar(c)
            }
        },
        _ => KeyAction::Nothing,
    }
}

/// Keys of the Journal tab.
pub open spec fn journal_tab_spec(key: KeyInput, ctx: KeyContext) -> KeyAction {
    let sel = ctx.has_selected_trade;
    if key == KeyInput::Char('f') {
        KeyAction::CycleFilterStatus
    } else if key == KeyInput::Char('F') {
        KeyAction::ClearTickerFilter
    } else if key == KeyInput::Char('/') {
        KeyAction::EnterFilterInput
    } else if key == KeyInput::Char('s') {
        KeyAction::CycleSortKey
    } else if key == KeyInput::Char('S') {
        KeyAction::ToggleSortDirection
    } else if key == KeyInput::Char('d') || key == KeyInput::Char('D') {
        if sel { KeyAction::ToggleDetail } else { KeyAction::Nothing }
    } else if key == KeyInput::Char('e') || key == KeyInput::Char('E') {
        if sel { KeyAction::StartEdit } else { KeyAction::Nothing }
    } else if key == KeyInput::Char('c') || key == KeyInput::Char('C') {
        if sel && ctx.selected_trade_open { KeyAction::StartClose } else { KeyAction::Nothing }
    } else if key == KeyInput::Char('a') || key == KeyInput::Char('A') {
        if sel { KeyAction::StartAnalyze } else { KeyAction::Nothing }
    } else if key == KeyInput::Char('x') || key == KeyInput::Delete {
        if sel { KeyAction::AskDelete } else { KeyAction::Nothing }
    } else if key == KeyInput::Enter {
        match ctx.selected_row {
            Some(JournalRow::YearHeader { year }) => KeyAction::ToggleYear(year),
            Some(JournalRow::MonthHeader { year, month }) => KeyAction::ToggleMonth(year, month),
            Some(JournalRow::Trade(_)) => KeyAction::ToggleDetail,
            None => KeyAction::Nothing,
        }
    } else if list_move_spec(key) is Some {
        list_move_spec(key).unwrap()
    } else if key == KeyInput::Home {
        if ctx.has_journal_rows { KeyAction::JournalFirst } else { KeyAction::Nothing }
    } else if key == KeyInput::End {
        if ctx.has_journal_rows { KeyAction::JournalLast } else { KeyAction::Nothing }
    } else {
        KeyAction::Nothing
    }
}

fn journal_tab(key: KeyInput, ctx: &KeyContext) -> (r: KeyAction)
    ensures
        r == journal_tab_spec(key, *ctx),
{
    let sel = ctx.has_selected_trade;
    if key == KeyInput::Char('f') {
        KeyAction::CycleFilterStatus
    } else if key == KeyInput::Char('F') {
        KeyAction::ClearTickerFilter
    } else if key == KeyInput::Char('/') {
        KeyAction::EnterFilterInput
    } else if key == KeyInput::Char('s') {
        KeyAction::CycleSortKey
    } else if key == KeyInput::Char('S') {
        KeyAction::ToggleSortDirection
    } else if key == KeyInput::Char('d') || key == KeyInput::Char('D') {
        if sel { KeyAction::ToggleDetail } else { KeyAction::Nothing }
    } else if key == KeyInput::Char('e') || key == KeyInput::Char('E') {
        if sel { KeyAction::StartEdit } else { KeyAction::Nothing }
    } else if key == KeyInput::Char('c') || key == KeyInput::Char('C') {
        if sel && ctx.selected_trade_open { KeyAction::StartClose } else { KeyAction::Nothing }
    } else if key == KeyInput::Char('a') || key == KeyInput::Char('A') {
        if sel { KeyAction::StartAnalyze } else { KeyAction::Nothing }
    } else if key == KeyInput::Char('x') || key == KeyInput::Delete {
        if sel { KeyAction::AskDelete } else { KeyAction::Nothing }
    } else if key == KeyInput::Enter {
        match ctx.selected_row {
            Some(JournalRow::YearHeader { year }) => KeyAction::ToggleYear(year),
            Some(JournalRow::MonthHeader { year, month }) => KeyAction::ToggleMonth(year, month),
            Some(JournalRow::Trade(_)) => KeyAction::ToggleDetail,
            None => KeyAction::Nothing,
        }
    } else if let Some(a) = list_move(key) {
        a
    } else if key == KeyInput::Home {
        if ctx.has_journal_rows { KeyAction::JournalFirst } else { KeyAction::Nothing }
    } else if key == KeyInput::End {
        if ctx.has_journal_rows { KeyAction::JournalLast } else { KeyAction::Nothing }
    } else {
        KeyAction::Nothing
    }
}

/// Keys of the Actions tab: Enter folds a group or jumps to an alert's trade.
pub open spec fn actions_tab_spec(key: KeyInput, ctx: KeyContext) -> KeyAction {
    if key == KeyInput::Enter {
        match ctx.selected_action {
            Some(ActionPick::Group(k)) => KeyAction::ToggleActionKind(k),
            Some(ActionPick::Alert(id)) => if id > 0 { KeyAction::JumpToTrade(id) } else { KeyAction::Nothing },
            None => KeyAction::Nothing,
        }
    } else if list_move_spec(key) is Some {
        list_move_spec(key).unwrap()
    } else {
        KeyAction::Nothing
    }
}

fn actions_tab(key: KeyInput, ctx: &KeyContext) -> (r: KeyAction)
    ensures
        r == actions_tab_spec(key, *ctx),
{
    if key == KeyInput::Enter {
        match ctx.selected_action {
            Some(ActionPick::Group(k)) => KeyAction::ToggleActionKind(k),
            Some(ActionPick::Alert(id)) => if id > 0 { KeyAction::JumpToTrade(id) } else { KeyAction::Nothing },
            None => KeyAction::Nothing,
        }
    } else if let Some(a) = list_move(key) {
        a
    } else {
        KeyAction::Nothing
    }
}

/// Right/`l` and Left/`h` scroll.
pub open spec fn scroll_spec(key: KeyInput) -> Option<KeyAction> {
    if key == KeyInput::Right || key == KeyInput::Char('l') {
        Some(KeyAction::ScrollRight)
    } else if key == KeyInput::Left || key == KeyInput::Char('h') {
        Some(KeyAction::ScrollLeft)
    } else {
        None
    }
}

fn scroll(key: KeyInput) -> (r: Option<KeyAction>)
    ensures
        r == scroll_spec(key),
{
    if key == KeyInput::Right || key == KeyInput::Char('l') {
        Some(KeyAction::ScrollRight)
    } else if key == KeyInput::Left || key == KeyInput::Char('h') {
        Some(KeyAction::ScrollLeft)
    } else {
        None
    }
}

/// Keys of the Playbooks tab.
pub open spec fn playbooks_tab_spec(key: KeyInput, ctx: KeyContext) -> KeyAction {
    let any = ctx.has_playbooks;
    if key == KeyInput::Char('n') || key == KeyInput::Char('N') {
        KeyAction::StartNewPlaybook
    } else if key == KeyInput::Char('e') || key == KeyInput::Char('E') || key == KeyInput::Enter {
        if any { KeyAction::StartEditPlaybook } else { KeyAction::Nothing }
    } else if key == KeyInput::Char('t') || key == KeyInput::Char('T') {
        if any { KeyAction::StartThesisEdit } else { KeyAction::Nothing }
    } else if key == KeyInput::Down || key == KeyInput::Char('j') {
        KeyAction::NavDown
    } else if key == KeyInput::Up || key == KeyInput::Char('k') {
        KeyAction::NavUp
    } else if scroll_spec(key) is Some {
        scroll_spec(key).unwrap()
    } else if key == KeyInput::PageDown {
        KeyAction::NavDownPage
    } else if key == KeyInput::PageUp {
        KeyAction::NavUpPage
    } else if key == KeyInput::Home && any {
        KeyAction::PlaybookFirst
    } else if key == KeyInput::End && any {
        KeyAction::PlaybookLast
    } else {
        KeyAction::Nothing
    }
}

fn playbooks_tab(key: KeyInput, ctx: &KeyContext) -> (r: KeyAction)
    ensures
        r == playbooks_tab_spec(key, *ctx),
{
    let any = ctx.has_playbooks;
    if key == KeyInput::Char('n') || key == KeyInput::Char('N') {
        KeyAction::StartNewPlaybook
    } else if key == KeyInput::Char('e') || key == KeyInput::Char('E') || key == KeyInput::Enter {
        if any { KeyAction::StartEditPlaybook } else { KeyAction::Nothing }
    } else if key == KeyInput::Char('t') || key == KeyInput::Char('T') {
        if any { KeyAction::StartThesisEdit } else { KeyAction::Nothing }
    } else if key == KeyInput::Down || key == KeyInput::Char('j') {
        KeyAction::NavDown
    } else if key == KeyInput::Up || key == KeyInput::Char('k') {
        KeyAction::NavUp
    } else if let Some(a) = scroll(key) {
        a
    } else if key == KeyInput::PageDown {
        KeyAction::NavDownPage
    } else if key == KeyInput::PageUp {
        KeyAction::NavUpPage
    } else if key == KeyInput::Home && any {
        KeyAction::PlaybookFirst
    } else if key == KeyInput::End && any {
        KeyAction::PlaybookLast
    } else {
        KeyAction::Nothing
    }
}

/// Keys of the Dashboard and Performance tabs: moving and scrolling.
pub open spec fn shared_tab_spec(key: KeyInput) -> KeyAction {
    if key == KeyInput::Down || key == KeyInput::Char('j') {
        KeyAction::NavDown
    } else if key == KeyInput::Up || key == KeyInput::Char('k') {
        KeyAction::NavUp
    } else if scroll_spec(key) is Some {
        scroll_spec(key).unwrap()
    } else if key == KeyInput::PageDown {
        KeyAction::NavDownPage
    } else if key == KeyInput::PageUp {
        KeyAction::NavUpPage
    } else {
        KeyAction::Nothing
    }
}

fn shared_tab(key: KeyInput) -> (r: KeyAction)
    ensures
        r == shared_tab_spec(key),
{
    if key == KeyInput::Down || key == KeyInput::Char('j') {
        KeyAction::NavDown
    } else if key == KeyInput::Up || key == KeyInput::Char('k') {
        KeyAction::NavUp
    } else if let Some(a) = scroll(key) {
        a
    } else if key == KeyInput::PageDown {
        KeyAction::NavDownPage
    } else if key == KeyInput::PageUp {
        KeyAction::NavUpPage
    } else {
        KeyAction::Nothing
    }
}

/// Keys with no form open: `q` quits, Tab and Shift-Tab switch tabs, `r`
/// reloads, `i` on the Dashboard shows the strategy mix; every other key
/// goes to the selected tab.
pub open spec fn normal_spec(key: KeyInput, ctx: KeyContext) -> KeyAction {
    if key == KeyInput::Char('q') || key == KeyInput::Char('Q') {
        KeyAction::Quit
    } else if key == KeyInput::Tab {
        KeyAction::SwitchTab(next_tab_spec(ctx.tab, true))
    } else if key == KeyInput::BackTab {
        KeyAction::SwitchTab(next_tab_spec(ctx.tab, false))
    } else if key == KeyInput::Char('r') || key == KeyInput::Char('R') {
        KeyAction::Reload
    } else if (key == KeyInput::Char('i') || key == KeyInput::Char('I')) && ctx.tab == 0 {
        KeyAction::ToggleKpiPopup
    } else if ctx.tab == 4 {
        if key == KeyInput::Char('e') || key == KeyInput::Char('E') || key == KeyInput::Enter {
            KeyAction::StartAdminSettings
        } else {
            KeyAction::Nothing
        }
    } else if ctx.tab == 1 {
        journal_tab_spec(key, ctx)
    } else if ctx.tab == 3 {
        actions_tab_spec(key, ctx)
    } else if ctx.tab == 2 {
        playbooks_tab_spec(key, ctx)
    } else {
        shared_tab_spec(key)
    }
}

/// The action for `key` in `mode`.
pub open spec fn key_action_spec(mode: AppMode, key: KeyInput, ctx: KeyContext) -> KeyAction {
    match mode {
        AppMode::Normal => normal_spec(key, ctx),
        AppMode::FilterInput => filter_input_spec(key),
        AppMode::DatePicker => date_picker_spec(key),
        AppMode::EditTrade => edit_trade_spec(key, ctx),
        AppMode::CloseTrade => close_trade_spec(key, ctx),
        AppMode::ConfirmDelete => confirm_delete_spec(key),
        AppMode::AnalyzeTrade => if key == KeyInput::Esc { KeyAction::Cancel } else { KeyAction::Nothing },
        AppMode::AdminSettings => admin_form_spec(key, ctx),
        AppMode::EditThesis => thesis_spec(key, ctx),
        AppMode::EditPlaybook => playbook_form_spec(key, ctx),
    }
}

/// Decides what a key press does in the current mode.
pub fn key_action(mode: AppMode, key: KeyInput, ctx: KeyContext) -> (r: KeyAction)
    requires
        ctx.tab < 6,
    ensures
        r == key_action_spec(mode, key, ctx),
{
    match mode {
        AppMode::Normal => {
            if key == KeyInput::Char('q') || key == KeyInput::Char('Q') {
                KeyAction::Quit
            } else if key == KeyInput::Tab {
                KeyAction::SwitchTab(next_tab(ctx.tab, true))
            } else if key == KeyInput::BackTab {
                KeyAction::SwitchTab(next_tab(ctx.tab, false))
            } else if key == KeyInput::Char('r') || key == KeyInput::Char('R') {
                KeyAction::Reload
            } else if (key == KeyInput::Char('i') || key == KeyInput::Char('I')) && ctx.tab == 0 {
                KeyAction::ToggleKpiPopup
            } else if ctx.tab == 4 {
                if key == KeyInput::Char('e') || key == KeyInput::Char('E') || key == KeyInput::Enter {
                    KeyAction::StartAdminSettings
                } else {
                    KeyAction::Nothing
                }
            } else if ctx.tab == 1 {
                journal_tab(key, &ctx)
            } else if ctx.tab == 3 {
                actions_tab(key, &ctx)
            } else if ctx.tab == 2 {
                playbooks_tab(key, &ctx)
            } else {
                shared_tab(key)
            }
        },
        AppMode::FilterInput => filter_input(key),
        AppMode::DatePicker => date_picker(key),
        AppMode::EditTrade => edit_trade(key, &ctx),
        AppMode::CloseTrade => close_trade(key, &ctx),
        AppMode::ConfirmDelete => {
            if key == KeyInput::Char('y') || key == KeyInput::Char('Y') || key == KeyInput::Enter {
                KeyAction::ConfirmDelete
            } else {
                KeyAction::Cancel
            }
        },
        AppMode::AnalyzeTrade => if key == KeyInput::Esc { KeyAction::Cancel } else { KeyAction::Nothing },
        AppMode::AdminSettings => admin_form(key, &ctx),
        AppMode::EditThesis => {
            match key {
                KeyInput::Esc => KeyAction::ReturnToNormal,
                KeyInput::Enter => KeyAction::FieldNewline,
                KeyInput::Backspace => KeyAction::FieldBackspace,
                KeyInput::Char(c) => if ctx.ctrl && c == 's' { KeyAction::SaveForm } else { KeyAction::FieldChar(c) },
                _ => KeyAction::Nothing,
            }
        },
        AppMode::EditPlaybook => playbook_form(key, &ctx),
    }
}

// ─────────────────────────────── laws ───────────────────────────────

/// `q` quits exactly when no form, dialog or input is open; in every other
/// mode it is typed, cancels, or does nothing.
pub proof fn lemma_quit_only_in_normal_mode(mode: AppMode, ctx: KeyContext)
    ensures
        key_action_spec(mode, KeyInput::Char('q'), ctx) == KeyAction::Quit <==> mode == AppMode::Normal,
{
}

/// Tab and Shift-Tab with no form open switch to the next and previous
/// tab, wrapping around, and undo each other.
pub proof fn lemma_tab_keys_switch_tabs(ctx: KeyContext)
    requires
        ctx.tab < 6,
    ensures
        key_action_spec(AppMode::Normal, KeyInput::Tab, ctx) == KeyAction::SwitchTab(next_tab_spec(ctx.tab, true)),
        key_action_spec(AppMode::Normal, KeyInput::BackTab, ctx) == KeyAction::SwitchTab(next_tab_spec(ctx.tab, false)),
        next_tab_spec(ctx.tab, true) < 6 && next_tab_spec(ctx.tab, false) < 6,
        next_tab_spec(next_tab_spec(ctx.tab, true), false) == ctx.tab,
        next_tab_spec(next_tab_spec(ctx.tab, false), true) == ctx.tab,
{
}

/// Esc leaves every form, dialog, picker and input: it cancels, returns to
/// normal mode, or closes the date picker.
pub proof fn lemma_escape_leaves_every_mode(mode: AppMode, ctx: KeyContext)
    requires
        mode != AppMode::Normal,
    ensures
        key_action_spec(mode, KeyInput::Esc, ctx) == KeyAction::Cancel
            || key_action_spec(mode, KeyInput::Esc, ctx) == KeyAction::ReturnToNormal
            || key_action_spec(mode, KeyInput::Esc, ctx) == KeyAction::CloseDatePicker,
{
}


/// In the date picker the paired keys move the day in opposite directions:
/// `]` and PageDown move one month forward and `[` and PageUp one month
/// back; Right and `l` move one day forward, Left and `h` one day back;
/// Down and `j` move one week forward, Up and `k` one week back.
pub proof fn lemma_date_picker_keys_pair_up(ctx: KeyContext)
    ensures
        key_action_spec(AppMode::DatePicker, KeyInput::Char(']'), ctx) == KeyAction::CalendarMonths(1i32),
        key_action_spec(AppMode::DatePicker, KeyInput::PageDown, ctx) == KeyAction::CalendarMonths(1i32),
        key_action_spec(AppMode::DatePicker, KeyInput::Char('['), ctx) == KeyAction::CalendarMonths(-1i32),
        key_action_spec(AppMode::DatePicker, KeyInput::PageUp, ctx) == KeyAction::CalendarMonths(-1i32),
        key_action_spec(AppMode::DatePicker, KeyInput::Right, ctx) == KeyAction::CalendarDays(1i64),
        key_action_spec(AppMode::DatePicker, KeyInput::Char('l'), ctx) == KeyAction::CalendarDays(1i64),
        key_action_spec(AppMode::DatePicker, KeyInput::Left, ctx) == KeyAction::CalendarDays(-1i64),
        key_action_spec(AppMode::DatePicker, KeyInput::Char('h'), ctx) == KeyAction::CalendarDays(-1i64),
        key_action_spec(AppMode::DatePicker, KeyInput::Down, ctx) == KeyAction::CalendarDays(7i64),
        key_action_spec(AppMode::DatePicker, KeyInput::Char('j'), ctx) == KeyAction::CalendarDays(7i64),
        key_action_spec(AppMode::DatePicker, KeyInput::Up, ctx) == KeyAction::CalendarDays(-7i64),
        key_action_spec(AppMode::DatePicker, KeyInput::Char('k'), ctx) == KeyAction::CalendarDays(-7i64),
        forall|key: KeyInput| #[trigger] key_action_spec(AppMode::DatePicker, key, ctx) matches KeyAction::CalendarMonths(n)
            ==> n == 1 || n == -1,
        forall|key: KeyInput| #[trigger] key_action_spec(AppMode::DatePicker, key, ctx) matches KeyAction::CalendarDays(n)
            ==> n == 1 || n == -1 || n == 7 || n == -7,
{
}

} // verus!
