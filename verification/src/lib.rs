//! Log capture and paging engine for a terminal log viewer.
//!
//! The crate records structured log events into a bounded double-buffer
//! scheme (a small hot buffer written by producers and a larger cold store
//! consolidated in the background), filters them per target with
//! independently configurable recording and display levels, and serves
//! windowed views into the event history for rendering, including centered
//! scroll paging by wrapped line.

use vstd::prelude::*;

mod circular;
mod config;
mod fast_hash;
mod file;
mod formatter;
mod laws;
mod levels;
mod logger;
mod paging;
mod record;
mod trusted;
mod widget;

pub use circular::CircularBuffer;
pub use config::LevelConfig;
pub use config::clip_to_default;
pub use config::merged_level;
pub use fast_hash::fast_str_hash;
pub use file::TuiLoggerFile;
pub use formatter::LogFormatter;
pub use formatter::LogStandardFormatter;
pub use laws::lemma_iteration_order;
pub use laws::lemma_merge_monotonic;
pub use laws::lemma_ring_addressability;
pub use levels::Level;
pub use levels::LevelFilter;
pub use levels::filter_ord;
pub use levels::level_ord;
pub use levels::level_passes;
pub use logger::HotLog;
pub use logger::HotSelect;
pub use logger::TuiLogger;
pub use logger::TuiLoggerInner;
pub use logger::is_overrun_record;
pub use paging::flat_all;
pub use paging::flat_pos;
pub use paging::lemma_anchor_in_window;
pub use paging::line_views;
pub use paging::next_visible_down;
pub use paging::next_visible_up;
pub use paging::render_window;
pub use paging::spec_visible;
pub use paging::window_hi;
pub use paging::window_lo;
pub use record::ExtLogRecord;
pub use record::TuiLoggerLevelOutput;
pub use record::dec_digits;
pub use record::decimal_string;
pub use record::overrun_msg;
pub use widget::LevelCell;
pub use widget::LinePointer;
pub use widget::TuiWidgetInnerState;
pub use widget::level_cell;
pub use widget::list_offset;

verus! {

/// Spec-level description of `advance_levelfilter`: the next more verbose
/// level filter, if any.
pub open spec fn spec_more_verbose(levelfilter: LevelFilter) -> Option<LevelFilter> {
    match levelfilter {
        LevelFilter::Trace => None,
        LevelFilter::Debug => Some(LevelFilter::Trace),
        LevelFilter::Info => Some(LevelFilter::Debug),
        LevelFilter::Warn => Some(LevelFilter::Info),
        LevelFilter::Error => Some(LevelFilter::Warn),
        LevelFilter::Off => Some(LevelFilter::Error),
    }
}

/// Spec-level description of `advance_levelfilter`: the next less verbose
/// level filter, if any.
pub open spec fn spec_less_verbose(levelfilter: LevelFilter) -> Option<LevelFilter> {
    match levelfilter {
        LevelFilter::Trace => Some(LevelFilter::Debug),
        LevelFilter::Debug => Some(LevelFilter::Info),
        LevelFilter::Info => Some(LevelFilter::Warn),
        LevelFilter::Warn => Some(LevelFilter::Error),
        LevelFilter::Error => Some(LevelFilter::Off),
        LevelFilter::Off => None,
    }
}

/// For a given level filter return the pair of neighbouring filters:
/// first the next more verbose one (`None` for `Trace`), then the next
/// less verbose one (`None` for `Off`).
pub fn advance_levelfilter(levelfilter: LevelFilter) -> (r: (
    Option<LevelFilter>,
    Option<LevelFilter>,
))
    ensures
        r.0 == spec_more_verbose(levelfilter),
        r.1 == spec_less_verbose(levelfilter),
{
    match levelfilter {
        LevelFilter::Trace => (None, Some(LevelFilter::Debug)),
        LevelFilter::Debug => (Some(LevelFilter::Trace), Some(LevelFilter::Info)),
        LevelFilter::Info => (Some(LevelFilter::Debug), Some(LevelFilter::Warn)),
        LevelFilter::Warn => (Some(LevelFilter::Info), Some(LevelFilter::Error)),
        LevelFilter::Error => (Some(LevelFilter::Warn), Some(LevelFilter::Off)),
        LevelFilter::Off => (Some(LevelFilter::Error), None),
    }
}

/// Input events understood by the widget state machine.
#[derive(Clone, Copy, Debug, PartialEq, Eq, Structural, Hash)]
pub enum TuiWidgetEvent {
    SpaceKey,
    UpKey,
    DownKey,
    LeftKey,
    RightKey,
    PlusKey,
    MinusKey,
    HideKey,
    FocusKey,
    PrevPageKey,
    NextPageKey,
    EscapeKey,
}

} // verus!
