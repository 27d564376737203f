use tui_logger::Level;
use tui_logger::LevelCell;
use tui_logger::LevelFilter;
use tui_logger::TuiWidgetEvent;
use tui_logger::TuiWidgetInnerState;
use tui_logger::level_cell;
use tui_logger::list_offset;

#[test]
fn toggles() {
    let mut st = TuiWidgetInnerState::new();
    assert!(!st.hide_off);
    st.transition(TuiWidgetEvent::SpaceKey);
    assert!(st.hide_off);
    st.transition(TuiWidgetEvent::SpaceKey);
    assert!(!st.hide_off);
    st.transition(TuiWidgetEvent::HideKey);
    assert!(st.hide_target);
    st.transition(TuiWidgetEvent::FocusKey);
    assert!(st.focus_selected);
}

#[test]
fn selection_moves_clamped() {
    let mut st = TuiWidgetInnerState::new();
    st.nr_items = 3;
    st.transition(TuiWidgetEvent::UpKey);
    assert_eq!(st.selected, 0);
    st.transition(TuiWidgetEvent::DownKey);
    assert_eq!(st.selected, 1);
    st.transition(TuiWidgetEvent::DownKey);
    assert_eq!(st.selected, 2);
    st.transition(TuiWidgetEvent::DownKey);
    assert_eq!(st.selected, 2);
    st.transition(TuiWidgetEvent::UpKey);
    assert_eq!(st.selected, 1);
    // a hidden target pane freezes the selection
    st.hide_target = true;
    st.transition(TuiWidgetEvent::DownKey);
    assert_eq!(st.selected, 1);
}

#[test]
fn display_level_keys_update_own_table() {
    let mut st = TuiWidgetInnerState::new();
    st.opt_selected_target = Some("t".to_string());
    st.opt_selected_visibility_less = Some(LevelFilter::Warn);
    let action = st.transition(TuiWidgetEvent::LeftKey);
    assert_eq!(action, None);
    assert_eq!(st.config.get("t"), Some(LevelFilter::Warn));
    assert_eq!(st.opt_selected_target, None);
    assert_eq!(st.opt_selected_visibility_less, None);
}

#[test]
fn recording_level_keys_return_action() {
    let mut st = TuiWidgetInnerState::new();
    st.opt_selected_target = Some("t".to_string());
    st.opt_selected_recording_more = Some(LevelFilter::Trace);
    let action = st.transition(TuiWidgetEvent::PlusKey);
    assert_eq!(action, Some(("t".to_string(), LevelFilter::Trace)));
    // nothing changed in the widget's own table
    assert_eq!(st.config.get("t"), None);
    // without a selection nothing happens
    let action = st.transition(TuiWidgetEvent::MinusKey);
    assert_eq!(action, None);
}

#[test]
fn paging_keys_move_anchor() {
    let mut st = TuiWidgetInnerState::new();
    let prev = tui_logger::LinePointer { event_index: 4, subline: 1 };
    let next = tui_logger::LinePointer { event_index: 7, subline: 0 };
    st.opt_line_pointer_prev_page = Some(prev);
    st.opt_line_pointer_next_page = Some(next);
    st.transition(TuiWidgetEvent::PrevPageKey);
    assert_eq!(st.opt_line_pointer_center, Some(prev));
    st.transition(TuiWidgetEvent::NextPageKey);
    assert_eq!(st.opt_line_pointer_center, Some(next));
    st.transition(TuiWidgetEvent::EscapeKey);
    assert_eq!(st.opt_line_pointer_center, None);
}

#[test]
fn level_cells() {
    assert_eq!(
        level_cell(LevelFilter::Info, LevelFilter::Info, Level::Info, true),
        LevelCell::Show
    );
    assert_eq!(
        level_cell(LevelFilter::Info, LevelFilter::Warn, Level::Info, true),
        LevelCell::Hide
    );
    assert_eq!(
        level_cell(LevelFilter::Info, LevelFilter::Info, Level::Info, false),
        LevelCell::Hide
    );
    assert_eq!(
        level_cell(LevelFilter::Warn, LevelFilter::Trace, Level::Info, true),
        LevelCell::Off
    );
}

#[test]
fn list_offsets() {
    // selection below the visible range scrolls down to it
    assert_eq!(list_offset(5, 6, 3, 6, 0), 3);
    // selection above the current offset scrolls up to it
    assert_eq!(list_offset(1, 6, 3, 6, 3), 1);
    // offset never leaves a gap at the bottom
    assert_eq!(list_offset(2, 6, 3, 6, 4), 2);
    assert_eq!(list_offset(3, 6, 3, 6, 3), 3);
}
