//! Moving the focus and the scroll positions of the terminal interface with
//! the up and down keys.
use vstd::prelude::*;
use crate::app::AppMode;

verus! {

/// The scroll offset after the focus moved to field `idx` in a viewport of
/// `visible` lines: scrolled up to the field when it is above, just far
/// enough down when it is below, unchanged otherwise. The field index is
/// taken as a `u16`, cut to its low 16 bits.
pub open spec fn follow_focus_spec(idx: usize, scroll: u16, visible: u16) -> u16 {
    let i = idx as u16;
    if i < scroll {
        i
    } else if i >= scroll + visible {
        (i - visible + 1) as u16
    } else {
        scroll
    }
}

/// Keeps the focused field of a form inside a viewport of `visible` lines.
pub fn follow_focus(idx: usize, scroll: u16, visible: u16) -> (r: u16)
    requires
        visible >= 1,
        (idx as u16) < scroll || scroll + visible <= u16::MAX,
    ensures
        r == follow_focus_spec(idx, scroll, visible),
{
    let i = idx as u16;
    if i < scroll {
        i
    } else if i >= scroll + visible {
        i - visible + 1
    } else {
        scroll
    }
}

/// After following the focus, the focused field lies in the viewport.
pub proof fn lemma_follow_focus_shows_field(idx: usize, scroll: u16, visible: u16)
    requires
        visible >= 1,
        (idx as u16) < scroll || scroll + visible <= u16::MAX,
    ensures
        follow_focus_spec(idx, scroll, visible) <= (idx as u16) < follow_focus_spec(idx, scroll, visible) + visible,
{
}

/// Lines of the trade form shown at once.
pub const EDIT_VISIBLE: u16 = 10;
/// Lines of the settings form shown at once.
pub const ADMIN_VISIBLE: u16 = 12;
/// Lines of the playbook form shown at once.
pub const PLAYBOOK_EDIT_VISIBLE: u16 = 10;

/// What the up and down keys read and move: the tab and mode, the form
/// focus, the list selections (with the list lengths) and the scroll
/// positions (with their limits).
#[derive(Clone, Copy, Debug, PartialEq, Eq, Structural)]
pub struct NavState {
    pub selected_tab: usize,
    pub app_mode: AppMode,
    pub show_detail: bool,
    pub edit_field_idx: usize,
    pub edit_fields_len: usize,
    pub edit_scroll: u16,
    pub close_field_idx: usize,
    pub close_fields_len: usize,
    pub detail_scroll: u16,
    pub detail_max_scroll: u16,
    pub journal_selected: Option<usize>,
    pub journal_rows: usize,
    pub playbook_selected: Option<usize>,
    pub playbooks: usize,
    pub thesis_scroll: u16,
    pub thesis_max_scroll: u16,
    pub actions_selected: Option<usize>,
    pub action_rows: usize,
    pub dash_open_scroll: usize,
    pub dash_open_max_scroll: usize,
    pub perf_scroll: u16,
    pub perf_max_scroll: u16,
}

/// The selection after moving down a list of `len` rows: the next row,
/// wrapping to the first; nothing selected counts as the first row.
pub open spec fn wrap_down(selected: Option<usize>, len: usize) -> usize {
    let i: int = match selected { Some(i) => i as int, None => 0 };
    if i + 1 >= len { 0 } else { (i + 1) as usize }
}

/// The selection after moving up a list of `len` rows (`len > 0`): the
/// previous row, wrapping to the last.
pub open spec fn wrap_up(selected: Option<usize>, len: usize) -> usize {
    let i: int = match selected { Some(i) => i as int, None => 0 };
    if i == 0 { (len - 1) as usize } else { (i - 1) as usize }
}

fn next_row(selected: Option<usize>, len: usize) -> (r: usize)
    requires
        len > 0,
    ensures
        r == wrap_down(selected, len),
{
    let i = match selected {
        Some(i) => i,
        None => 0,
    };
    if i >= len - 1 { 0 } else { i + 1 }
}

fn prev_row(selected: Option<usize>, len: usize) -> (r: usize)
    requires
        len > 0,
    ensures
        r == wrap_up(selected, len),
{
    let i = match selected {
        Some(i) => i,
        None => 0,
    };
    if i == 0 { len - 1 } else { i - 1 }
}

/// The state after the down key.
pub open spec fn nav_down_spec(s: NavState) -> NavState {
    if s.selected_tab == 1 {
        if s.app_mode == AppMode::EditTrade {
            if s.edit_field_idx + 1 < s.edit_fields_len {
                let idx = (s.edit_field_idx + 1) as usize;
                NavState { edit_field_idx: idx, edit_scroll: follow_focus_spec(idx, s.edit_scroll, EDIT_VISIBLE), ..s }
            } else {
                s
            }
        } else if s.app_mode == AppMode::CloseTrade {
            if s.close_field_idx + 1 < s.close_fields_len {
                NavState { close_field_idx: (s.close_field_idx + 1) as usize, ..s }
            } else {
                s
            }
        } else if s.show_detail {
            let up: int = if s.detail_scroll + 1 <= u16::MAX { s.detail_scroll + 1 } else { u16::MAX as int };
            let capped: int = if up < s.detail_max_scroll { up } else { s.detail_max_scroll as int };
            NavState { detail_scroll: capped as u16, ..s }
        } else if s.journal_rows == 0 {
            s
        } else {
            NavState { journal_selected: Some(wrap_down(s.journal_selected, s.journal_rows)), detail_scroll: 0, ..s }
        }
    } else if s.selected_tab == 2 {
        if s.playbooks == 0 {
            s
        } else {
            NavState { playbook_selected: Some(wrap_down(s.playbook_selected, s.playbooks)), thesis_scroll: 0, ..s }
        }
    } else if s.selected_tab == 3 {
        if s.action_rows == 0 {
            s
        } else {
            NavState { actions_selected: Some(wrap_down(s.actions_selected, s.action_rows)), ..s }
        }
    } else if s.selected_tab == 0 {
        if s.dash_open_scroll < s.dash_open_max_scroll {
            NavState { dash_open_scroll: (s.dash_open_scroll + 1) as usize, ..s }
        } else {
            s
        }
    } else if s.selected_tab == 5 {
        if s.perf_scroll < s.perf_max_scroll {
            NavState { perf_scroll: (s.perf_scroll + 1) as u16, ..s }
        } else {
            s
        }
    } else {
        s
    }
}

/// The state after the up key.
pub open spec fn nav_up_spec(s: NavState) -> NavState {
    if s.selected_tab == 1 {
        if s.app_mode == AppMode::EditTrade {
            if s.edit_field_idx > 0 {
                let idx = (s.edit_field_idx - 1) as usize;
                NavState { edit_field_idx: idx, edit_scroll: follow_focus_spec(idx, s.edit_scroll, EDIT_VISIBLE), ..s }
            } else {
                s
            }
        } else if s.app_mode == AppMode::CloseTrade {
            if s.close_field_idx > 0 {
                NavState { close_field_idx: (s.close_field_idx - 1) as usize, ..s }
            } else {
                s
            }
        } else if s.show_detail {
            NavState { detail_scroll: (if s.detail_scroll > 0 { s.detail_scroll - 1 } else { 0 }) as u16, ..s }
        } else if s.journal_rows == 0 {
            s
        } else {
            NavState { journal_selected: Some(wrap_up(s.journal_selected, s.journal_rows)), detail_scroll: 0, ..s }
        }
    } else if s.selected_tab == 2 {
        if s.playbooks == 0 {
            s
        } else {
            NavState { playbook_selected: Some(wrap_up(s.playbook_selected, s.playbooks)), thesis_scroll: 0, ..s }
        }
    } else if s.selected_tab == 3 {
        if s.action_rows == 0 {
            s
        } else {
            NavState { actions_selected: Some(wrap_up(s.actions_selected, s.action_rows)), ..s }
        }
    } else if s.selected_tab == 0 {
        NavState { dash_open_scroll: (if s.dash_open_scroll > 0 { s.dash_open_scroll - 1 } else { 0 }) as usize, ..s }
    } else if s.selected_tab == 5 {
        NavState { perf_scroll: (if s.perf_scroll > 0 { s.perf_scroll - 1 } else { 0 }) as u16, ..s }
    } else {
        s
    }
}

/// Whether the trade form's scroll can follow the focus to field `idx`
/// without overflowing its `u16` arithmetic.
pub open spec fn edit_scroll_ok(s: NavState, idx: usize) -> bool {
    (idx as u16) < s.edit_scroll || s.edit_scroll + EDIT_VISIBLE <= u16::MAX
}

impl NavState {
    /// The down key: next form field, more detail, next list row (wrapping)
    /// or more scroll, depending on the tab and mode.
    pub fn nav_down(&mut self)
        requires
            old(self).selected_tab == 1 && old(self).app_mode == AppMode::EditTrade
                && old(self).edit_field_idx + 1 < old(self).edit_fields_len
                ==> edit_scroll_ok(*old(self), (old(self).edit_field_idx + 1) as usize),
        ensures
            *final(self) == nav_down_spec(*old(self)),
    {
        if self.selected_tab == 1 {
            if self.app_mode == AppMode::EditTrade {
                if self.edit_field_idx < self.edit_fields_len && self.edit_field_idx + 1 < self.edit_fields_len {
                    self.edit_field_idx = self.edit_field_idx + 1;
                    self.edit_scroll = follow_focus(self.edit_field_idx, self.edit_scroll, EDIT_VISIBLE);
                }
            } else if self.app_mode == AppMode::CloseTrade {
                if self.close_field_idx < self.close_fields_len && self.close_field_idx + 1 < self.close_fields_len {
                    self.close_field_idx = self.close_field_idx + 1;
                }
            } else if self.show_detail {
                let up = self.detail_scroll.saturating_add(1);
                self.detail_scroll = if up < self.detail_max_scroll { up } else { self.detail_max_scroll };
            } else if self.journal_rows > 0 {
                self.journal_selected = Some(next_row(self.journal_selected, self.journal_rows));
                self.detail_scroll = 0;
            }
        } else if self.selected_tab == 2 {
            if self.playbooks > 0 {
                self.playbook_selected = Some(next_row(self.playbook_selected, self.playbooks));
                self.thesis_scroll = 0;
            }
        } else if self.selected_tab == 3 {
            if self.action_rows > 0 {
                self.actions_selected = Some(next_row(self.actions_selected, self.action_rows));
            }
        } else if self.selected_tab == 0 {
            if self.dash_open_scroll < self.dash_open_max_scroll {
                self.dash_open_scroll = self.dash_open_scroll + 1;
            }
        } else if self.selected_tab == 5 {
            if self.perf_scroll < self.perf_max_scroll {
                self.perf_scroll = self.perf_scroll + 1;
            }
        }
    }

    /// The up key: previous form field, less detail, previous list row
    /// (wrapping) or less scroll, depending on the tab and mode.
    pub fn nav_up(&mut self)
        requires
            old(self).selected_tab == 1 && old(self).app_mode == AppMode::EditTrade && old(self).edit_field_idx > 0
                ==> edit_scroll_ok(*old(self), (old(self).edit_field_idx - 1) as usize),
        ensures
            *final(self) == nav_up_spec(*old(self)),
    {
        if self.selected_tab == 1 {
            if self.app_mode == AppMode::EditTrade {
                if self.edit_field_idx > 0 {
                    self.edit_field_idx = self.edit_field_idx - 1;
                    self.edit_scroll = follow_focus(self.edit_field_idx, self.edit_scroll, EDIT_VISIBLE);
                }
            } else if self.app_mode == AppMode::CloseTrade {
                if self.close_field_idx > 0 {
                    self.close_field_idx = self.close_field_idx - 1;
                }
            } else if self.show_detail {
                self.detail_scroll = self.detail_scroll.saturating_sub(1);
            } else if self.journal_rows > 0 {
                self.journal_selected = Some(prev_row(self.journal_selected, self.journal_rows));
                self.detail_scroll = 0;
            }
        } else if self.selected_tab == 2 {
            if self.playbooks > 0 {
                self.playbook_selected = Some(prev_row(self.playbook_selected, self.playbooks));
                self.thesis_scroll = 0;
            }
        } else if self.selected_tab == 3 {
            if self.action_rows > 0 {
                self.actions_selected = Some(prev_row(self.actions_selected, self.action_rows));
            }
        } else if self.selected_tab == 0 {
            self.dash_open_scroll = self.dash_open_scroll.saturating_sub(1);
        } else if self.selected_tab == 5 {
            self.perf_scroll = self.perf_scroll.saturating_sub(1);
        }
    }

    /// Scrolls the playbook thesis right (down), up to its limit.
    pub fn scroll_right(&mut self)
        ensures
            *final(self) == (if old(self).selected_tab == 2 && old(self).thesis_scroll < old(self).thesis_max_scroll {
                NavState { thesis_scroll: (old(self).thesis_scroll + 1) as u16, ..*old(self) }
            } else {
                *old(self)
            }),
    {
        if self.selected_tab == 2 && self.thesis_scroll < self.thesis_max_scroll {
            self.thesis_scroll = self.thesis_scroll + 1;
        }
    }

    /// Scrolls the playbook thesis left (up), down to zero.
    pub fn scroll_left(&mut self)
        ensures
            *final(self) == (if old(self).selected_tab == 2 {
                NavState { thesis_scroll: (if old(self).thesis_scroll > 0 { old(self).thesis_scroll - 1 } else { 0 }) as u16, ..*old(self) }
            } else {
                *old(self)
            }),
    {
        if self.selected_tab == 2 {
            self.thesis_scroll = self.thesis_scroll.saturating_sub(1);
        }
    }
}

/// Moving down and then up a non-empty list comes back to the row that was
/// selected.
pub proof fn lemma_wrap_down_up(i: usize, len: usize)
    requires
        i < len,
    ensures
        wrap_up(Some(wrap_down(Some(i), len)), len) == i,
{
}

/// Moving down from any selection lands inside a non-empty list, and so
/// does moving up from a selection inside it (or from none).
pub proof fn lemma_wrap_stays_inside(selected: Option<usize>, len: usize)
    requires
        len > 0,
    ensures
        wrap_down(selected, len) < len,
        (selected matches Some(i) ==> i < len) ==> wrap_up(selected, len) < len,
{
}

} // verus!
