//! Shared per-viewport widget state and its input-event state machine.

use vstd::prelude::*;
use crate::TuiWidgetEvent;
use crate::config::LevelConfig;
use crate::levels::LevelFilter;

verus! {

/// A pointer to one rendered line: the absolute index of the event in
/// the cold store, and which of the event's wrapped lines it is.
#[derive(Clone, Copy, Debug, PartialEq, Eq, Structural)]
pub struct LinePointer {
    /// Absolute index of the event in the cold event buffer.
    pub event_index: usize,
    /// Index of the wrapped line within the event's rendering.
    pub subline: usize,
}

/// The state a log-view widget and a target-selector widget share: the
/// widget's own level table, the target selection, the scroll anchor and
/// the cached page pointers, and the hide and focus toggles.
pub struct TuiWidgetInnerState {
    /// The widget's own display-level table, merged from the logger
    /// core's recording table on each render pass.
    pub config: LevelConfig,
    /// Number of entries in the target list at the last render.
    pub nr_items: usize,
    /// Index of the selected target in the target list.
    pub selected: usize,
    /// Scroll anchor, or `None` to follow the bottom.
    pub opt_line_pointer_center: Option<LinePointer>,
    /// Anchor that a page-down jumps to, cached by the render pass.
    pub opt_line_pointer_next_page: Option<LinePointer>,
    /// Anchor that a page-up jumps to, cached by the render pass.
    pub opt_line_pointer_prev_page: Option<LinePointer>,
    /// Name of the selected target, cached by the render pass.
    pub opt_selected_target: Option<String>,
    /// Next more verbose display level for the selected target.
    pub opt_selected_visibility_more: Option<LevelFilter>,
    /// Next less verbose display level for the selected target.
    pub opt_selected_visibility_less: Option<LevelFilter>,
    /// Next more verbose recording level for the selected target.
    pub opt_selected_recording_more: Option<LevelFilter>,
    /// Next less verbose recording level for the selected target.
    pub opt_selected_recording_less: Option<LevelFilter>,
    /// Scroll offset of the target list.
    pub offset: usize,
    /// Whether targets with display level `Off` are hidden.
    pub hide_off: bool,
    /// Whether the target selector pane is hidden.
    pub hide_target: bool,
    /// Whether only the selected target's events are shown.
    pub focus_selected: bool,
}

/// Everything of `post` equals `pre` except possibly the widget's level
/// table and the cached selection fields consumed by a transition.
pub open spec fn same_but_selection(pre: TuiWidgetInnerState, post: TuiWidgetInnerState) -> bool {
    &&& post.nr_items == pre.nr_items
    &&& post.selected == pre.selected
    &&& post.opt_line_pointer_center == pre.opt_line_pointer_center
    &&& post.opt_line_pointer_next_page == pre.opt_line_pointer_next_page
    &&& post.opt_line_pointer_prev_page == pre.opt_line_pointer_prev_page
    &&& post.offset == pre.offset
    &&& post.hide_off == pre.hide_off
    &&& post.hide_target == pre.hide_target
    &&& post.focus_selected == pre.focus_selected
}

/// The transition relation of the widget state machine: how `post` and
/// the returned recording `action` follow from `pre` and the input
/// `event`. No transition fails; events that do not apply leave the
/// state unchanged.
pub open spec fn transition_rel(
    pre: TuiWidgetInnerState,
    post: TuiWidgetInnerState,
    event: TuiWidgetEvent,
    action: Option<(String, LevelFilter)>,
) -> bool {
    match event {
        TuiWidgetEvent::SpaceKey => action is None && post == (TuiWidgetInnerState {
            hide_off: !pre.hide_off,
            ..pre
        }),
        TuiWidgetEvent::HideKey => action is None && post == (TuiWidgetInnerState {
            hide_target: !pre.hide_target,
            ..pre
        }),
        TuiWidgetEvent::FocusKey => action is None && post == (TuiWidgetInnerState {
            focus_selected: !pre.focus_selected,
            ..pre
        }),
        TuiWidgetEvent::UpKey => action is None && post == if !pre.hide_target && pre.selected > 0 {
            TuiWidgetInnerState { selected: (pre.selected - 1) as usize, ..pre }
        } else {
            pre
        },
        TuiWidgetEvent::DownKey => action is None && post == if !pre.hide_target && pre.selected + 1
            < pre.nr_items {
            TuiWidgetInnerState { selected: (pre.selected + 1) as usize, ..pre }
        } else {
            pre
        },
        TuiWidgetEvent::LeftKey => action is None && match pre.opt_selected_target {
            None => post == pre,
            Some(t) => match pre.opt_selected_visibility_less {
                None => post == (TuiWidgetInnerState { opt_selected_target: None, ..pre }),
                Some(lf) => {
                    &&& same_but_selection(pre, post)
                    &&& post.config@ == pre.config@.insert(t@, lf)
                    &&& post.config.spec_default_display_level()
                        == pre.config.spec_default_display_level()
                    &&& post.opt_selected_target is None
                    &&& post.opt_selected_visibility_less is None
                    &&& post.opt_selected_visibility_more == pre.opt_selected_visibility_more
                    &&& post.opt_selected_recording_more == pre.opt_selected_recording_more
                    &&& post.opt_selected_recording_less == pre.opt_selected_recording_less
                },
            },
        },
        TuiWidgetEvent::RightKey => action is None && match pre.opt_selected_target {
            None => post == pre,
            Some(t) => match pre.opt_selected_visibility_more {
                None => post == (TuiWidgetInnerState { opt_selected_target: None, ..pre }),
                Some(lf) => {
                    &&& same_but_selection(pre, post)
                    &&& post.config@ == pre.config@.insert(t@, lf)
                    &&& post.config.spec_default_display_level()
                        == pre.config.spec_default_display_level()
                    &&& post.opt_selected_target is None
                    &&& post.opt_selected_visibility_more is None
                    &&& post.opt_selected_visibility_less == pre.opt_selected_visibility_less
                    &&& post.opt_selected_recording_more == pre.opt_selected_recording_more
                    &&& post.opt_selected_recording_less == pre.opt_selected_recording_less
                },
            },
        },
        TuiWidgetEvent::PlusKey => match pre.opt_selected_target {
            None => action is None && post == pre,
            Some(t) => match pre.opt_selected_recording_more {
                None => action is None && post == (TuiWidgetInnerState {
                    opt_selected_target: None,
                    ..pre
                }),
                Some(lf) => action == Some((t, lf)) && post == (TuiWidgetInnerState {
                    opt_selected_target: None,
                    opt_selected_recording_more: None,
                    ..pre
                }),
            },
        },
        TuiWidgetEvent::MinusKey => match pre.opt_selected_target {
            None => action is None && post == pre,
            Some(t) => match pre.opt_selected_recording_less {
                None => action is None && post == (TuiWidgetInnerState {
                    opt_selected_target: None,
                    ..pre
                }),
                Some(lf) => action == Some((t, lf)) && post == (TuiWidgetInnerState {
                    opt_selected_target: None,
                    opt_selected_recording_less: None,
                    ..pre
                }),
            },
        },
        TuiWidgetEvent::PrevPageKey => action is None && post == (TuiWidgetInnerState {
            opt_line_pointer_center: pre.opt_line_pointer_prev_page,
            ..pre
        }),
        TuiWidgetEvent::NextPageKey => action is None && post == (TuiWidgetInnerState {
            opt_line_pointer_center: pre.opt_line_pointer_next_page,
            ..pre
        }),
        TuiWidgetEvent::EscapeKey => action is None && post == (TuiWidgetInnerState {
            opt_line_pointer_center: None,
            ..pre
        }),
    }
}

impl TuiWidgetInnerState {
    /// A fresh widget state: empty level table, no selection, no
    /// anchor, all toggles off.
    pub fn new() -> (r: TuiWidgetInnerState)
        ensures
            r.config.inv(),
            r.config@ == Map::<Seq<char>, LevelFilter>::empty(),
            r.config.spec_default_display_level() is None,
            r.nr_items == 0,
            r.selected == 0,
            r.opt_line_pointer_center is None,
            r.opt_line_pointer_next_page is None,
            r.opt_line_pointer_prev_page is None,
            r.opt_selected_target is None,
            r.opt_selected_visibility_more is None,
            r.opt_selected_visibility_less is None,
            r.opt_selected_recording_more is None,
            r.opt_selected_recording_less is None,
            r.offset == 0,
            r.hide_off == false,
            r.hide_target == false,
            r.focus_selected == false,
    {
        TuiWidgetInnerState {
            config: LevelConfig::new(),
            nr_items: 0,
            selected: 0,
            opt_line_pointer_center: None,
            opt_line_pointer_next_page: None,
            opt_line_pointer_prev_page: None,
            opt_selected_target: None,
            opt_selected_visibility_more: None,
            opt_selected_visibility_less: None,
            opt_selected_recording_more: None,
            opt_selected_recording_less: None,
            offset: 0,
            hide_off: false,
            hide_target: false,
            focus_selected: false,
        }
    }

    /// Apply one input event. The display-level keys mutate this
    /// state's own table; the recording-level keys return the change
    /// the caller must apply to the logger core's recording table.
    pub fn transition(&mut self, event: TuiWidgetEvent) -> (action: Option<(String, LevelFilter)>)
        requires
            old(self).config.inv(),
        ensures
            final(self).config.inv(),
            transition_rel(*old(self), *final(self), event, action),
    {
        match event {
            TuiWidgetEvent::SpaceKey => {
                self.hide_off = !self.hide_off;
                None
            },
            TuiWidgetEvent::HideKey => {
                self.hide_target = !self.hide_target;
                None
            },
            TuiWidgetEvent::FocusKey => {
                self.focus_selected = !self.focus_selected;
                None
            },
            TuiWidgetEvent::UpKey => {
                if !self.hide_target && self.selected > 0 {
                    self.selected = self.selected - 1;
                }
                None
            },
            TuiWidgetEvent::DownKey => {
                if !self.hide_target && self.selected < self.nr_items && self.nr_items
                    - self.selected > 1 {
                    self.selected = self.selected + 1;
                }
                None
            },
            TuiWidgetEvent::LeftKey => {
                if let Some(selected_target) = self.opt_selected_target.take() {
                    if let Some(less) = self.opt_selected_visibility_less.take() {
                        self.config.set(selected_target.as_str(), less);
                    }
                }
                None
            },
            TuiWidgetEvent::RightKey => {
                if let Some(selected_target) = self.opt_selected_target.take() {
                    if let Some(more) = self.opt_selected_visibility_more.take() {
                        self.config.set(selected_target.as_str(), more);
                    }
                }
                None
            },
            TuiWidgetEvent::PlusKey => {
                if let Some(selected_target) = self.opt_selected_target.take() {
                    if let Some(more) = self.opt_selected_recording_more.take() {
                        Some((selected_target, more))
                    } else {
                        None
                    }
                } else {
                    None
                }
            },
            TuiWidgetEvent::MinusKey => {
                if let Some(selected_target) = self.opt_selected_target.take() {
                    if let Some(less) = self.opt_selected_recording_less.take() {
                        Some((selected_target, less))
                    } else {
                        None
                    }
                } else {
                    None
                }
            },
            TuiWidgetEvent::PrevPageKey => {
                self.opt_line_pointer_center = self.opt_line_pointer_prev_page;
                None
            },
            TuiWidgetEvent::NextPageKey => {
                self.opt_line_pointer_center = self.opt_line_pointer_next_page;
                None
            },
            TuiWidgetEvent::EscapeKey => {
                self.opt_line_pointer_center = None;
                None
            },
        }
    }
}

/// How one level cell of the target selector is drawn: shown when both
/// the recording and the display filter admit the level (and focus does
/// not exclude the target), dimmed when only recording admits it, off
/// otherwise.
#[derive(Clone, Copy, Debug, PartialEq, Eq, Structural)]
pub enum LevelCell {
    Show,
    Hide,
    Off,
}

/// The cell state for one level of one target line.
pub fn level_cell(
    hot: LevelFilter,
    display: LevelFilter,
    level: crate::levels::Level,
    focus_passes: bool,
) -> (r: LevelCell)
    ensures
        r == (if crate::levels::level_passes(level, hot) {
            if crate::levels::level_passes(level, display) && focus_passes {
                LevelCell::Show
            } else {
                LevelCell::Hide
            }
        } else {
            LevelCell::Off
        }),
{
    if level.passes(hot) {
        if level.passes(display) && focus_passes {
            LevelCell::Show
        } else {
            LevelCell::Hide
        }
    } else {
        LevelCell::Off
    }
}

/// The scroll offset of the target list: keep the selection visible,
/// scrolling as little as possible, and never leave a gap at the
/// bottom.
pub open spec fn spec_list_offset(
    selected: int,
    nr_items: int,
    list_height: int,
    targets_len: int,
    offset: int,
) -> int {
    if list_height > targets_len {
        0
    } else if selected < nr_items {
        let low = if selected < offset {
            selected
        } else {
            offset
        };
        if selected >= offset + list_height {
            selected - list_height + 1
        } else if low + list_height > targets_len {
            targets_len - list_height
        } else {
            low
        }
    } else {
        0
    }
}

/// Compute the scroll offset of the target list.
pub fn list_offset(
    selected: usize,
    nr_items: usize,
    list_height: usize,
    targets_len: usize,
    offset: usize,
) -> (r: usize)
    requires
        list_height <= targets_len,
    ensures
        r == spec_list_offset(
            selected as int,
            nr_items as int,
            list_height as int,
            targets_len as int,
            offset as int,
        ),
{
    if selected < nr_items {
        let low = if selected < offset {
            selected
        } else {
            offset
        };
        if selected >= list_height && selected - list_height >= offset {
            selected - list_height + 1
        } else if low > targets_len - list_height {
            targets_len - list_height
        } else {
            low
        }
    } else {
        0
    }
}

} // verus!
