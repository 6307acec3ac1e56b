use theta_vault_rust::app::AppMode;
use theta_vault_rust::navigation::{follow_focus, NavState, ADMIN_VISIBLE, EDIT_VISIBLE};

fn base() -> NavState {
    NavState {
        selected_tab: 1,
        app_mode: AppMode::Normal,
        show_detail: false,
        edit_field_idx: 0,
        edit_fields_len: 0,
        edit_scroll: 0,
        close_field_idx: 0,
        close_fields_len: 0,
        detail_scroll: 3,
        detail_max_scroll: 5,
        journal_selected: None,
        journal_rows: 3,
        playbook_selected: None,
        playbooks: 2,
        thesis_scroll: 4,
        thesis_max_scroll: 6,
        actions_selected: None,
        action_rows: 0,
        dash_open_scroll: 0,
        dash_open_max_scroll: 2,
        perf_scroll: 1,
        perf_max_scroll: 1,
    }
}

#[test]
fn focus_stays_visible() {
    assert_eq!(follow_focus(3, 5, EDIT_VISIBLE), 3);
    assert_eq!(follow_focus(12, 0, EDIT_VISIBLE), 3);
    assert_eq!(follow_focus(7, 0, EDIT_VISIBLE), 0);
    assert_eq!(follow_focus(20, 0, ADMIN_VISIBLE), 9);
    for idx in 0..40usize {
        for scroll in 0..30u16 {
            let s = follow_focus(idx, scroll, EDIT_VISIBLE);
            assert!(s as usize <= idx && idx < s as usize + EDIT_VISIBLE as usize);
        }
    }
}

#[test]
fn journal_selection_wraps() {
    let mut s = base();
    s.nav_down();
    assert_eq!(s.journal_selected, Some(1));
    assert_eq!(s.detail_scroll, 0);
    s.nav_down();
    s.nav_down();
    assert_eq!(s.journal_selected, Some(0));
    s.nav_up();
    assert_eq!(s.journal_selected, Some(2));
}

#[test]
fn down_then_up_returns() {
    for i in 0..3usize {
        let mut s = base();
        s.journal_selected = Some(i);
        s.nav_down();
        s.nav_up();
        assert_eq!(s.journal_selected, Some(i));
    }
}

#[test]
fn empty_lists_do_not_move() {
    let mut s = base();
    s.journal_rows = 0;
    let before = s;
    s.nav_down();
    assert_eq!(s, before);
    s.selected_tab = 3;
    s.nav_up();
    assert_eq!(s.actions_selected, None);
}

#[test]
fn detail_scroll_capped() {
    let mut s = base();
    s.show_detail = true;
    s.nav_down();
    assert_eq!(s.detail_scroll, 4);
    s.nav_down();
    s.nav_down();
    assert_eq!(s.detail_scroll, 5);
    s.detail_scroll = 0;
    s.nav_up();
    assert_eq!(s.detail_scroll, 0);
}

#[test]
fn edit_form_focus_moves_and_scrolls() {
    let mut s = base();
    s.app_mode = AppMode::EditTrade;
    s.edit_fields_len = 12;
    s.edit_field_idx = 9;
    s.nav_down();
    assert_eq!(s.edit_field_idx, 10);
    assert_eq!(s.edit_scroll, 1);
    s.nav_down();
    s.nav_down();
    assert_eq!(s.edit_field_idx, 11);
    s.edit_field_idx = 1;
    s.nav_up();
    assert_eq!(s.edit_field_idx, 0);
    assert_eq!(s.edit_scroll, 0);
}

#[test]
fn close_form_focus_moves() {
    let mut s = base();
    s.app_mode = AppMode::CloseTrade;
    s.close_fields_len = 2;
    s.nav_down();
    assert_eq!(s.close_field_idx, 1);
    s.nav_down();
    assert_eq!(s.close_field_idx, 1);
    s.nav_up();
    s.nav_up();
    assert_eq!(s.close_field_idx, 0);
}

#[test]
fn other_tabs() {
    let mut s = base();
    s.selected_tab = 2;
    s.nav_down();
    assert_eq!(s.playbook_selected, Some(1));
    assert_eq!(s.thesis_scroll, 0);
    s.selected_tab = 0;
    s.nav_down();
    s.nav_down();
    s.nav_down();
    assert_eq!(s.dash_open_scroll, 2);
    s.nav_up();
    assert_eq!(s.dash_open_scroll, 1);
    s.selected_tab = 5;
    s.nav_down();
    assert_eq!(s.perf_scroll, 1);
    s.nav_up();
    s.nav_up();
    assert_eq!(s.perf_scroll, 0);
    s.selected_tab = 4;
    let before = s;
    s.nav_down();
    assert_eq!(s, before);
}

#[test]
fn thesis_scrolling() {
    let mut s = base();
    s.selected_tab = 2;
    s.scroll_right();
    s.scroll_right();
    s.scroll_right();
    assert_eq!(s.thesis_scroll, 6);
    s.scroll_left();
    assert_eq!(s.thesis_scroll, 5);
    s.selected_tab = 1;
    s.scroll_left();
    assert_eq!(s.thesis_scroll, 5);
}
