use tui_logger::CircularBuffer;
use tui_logger::ExtLogRecord;
use tui_logger::Level;
use tui_logger::LinePointer;
use tui_logger::LogFormatter;
use tui_logger::TuiWidgetEvent;
use tui_logger::TuiWidgetInnerState;
use tui_logger::render_window;

// A formatter rendering each event as the single line "Hello <msg>".
struct TestFormatter;

impl LogFormatter for TestFormatter {
    fn min_width(&self) -> u16 {
        1
    }

    fn format(&self, _width: usize, evt: &ExtLogRecord) -> Vec<String> {
        vec![format!("Hello {}", evt.msg())]
    }
}

fn history(n: u64) -> CircularBuffer<ExtLogRecord> {
    let mut events: CircularBuffer<ExtLogRecord> = CircularBuffer::new(100);
    for i in 0..n {
        events.push(ExtLogRecord::new(
            i as i64,
            Level::Info,
            "t".to_string(),
            None,
            None,
            None,
            format!("{}", i),
        ));
    }
    events
}

fn texts(lines: &[(LinePointer, String)]) -> Vec<String> {
    lines.iter().map(|l| l.1.clone()).collect()
}

// Scenario: a three-line viewport over six single-line events numbered
// 0..5. The initial bottom-follow render shows 3..5; each page-up
// scrolls roughly half a viewport; page-down returns; escape goes back
// to the bottom.
#[test]
fn test_scroll() {
    let events = history(6);
    let mut state = TuiWidgetInnerState::new();
    let fmt = TestFormatter;

    // Initial draw
    let lines = render_window(&events, &mut state, &fmt, 10, 3);
    assert_eq!(texts(&lines), vec!["Hello 3", "Hello 4", "Hello 5"]);

    // Scroll up
    state.transition(TuiWidgetEvent::PrevPageKey);
    let lines = render_window(&events, &mut state, &fmt, 10, 3);
    assert_eq!(texts(&lines), vec!["Hello 2", "Hello 3", "Hello 4"]);

    // Scroll up again
    state.transition(TuiWidgetEvent::PrevPageKey);
    let lines = render_window(&events, &mut state, &fmt, 10, 3);
    assert_eq!(texts(&lines), vec!["Hello 1", "Hello 2", "Hello 3"]);

    // Scroll down
    state.transition(TuiWidgetEvent::NextPageKey);
    let lines = render_window(&events, &mut state, &fmt, 10, 3);
    assert_eq!(texts(&lines), vec!["Hello 2", "Hello 3", "Hello 4"]);

    // Escape returns to bottom-follow
    state.transition(TuiWidgetEvent::EscapeKey);
    let lines = render_window(&events, &mut state, &fmt, 10, 3);
    assert_eq!(texts(&lines), vec!["Hello 3", "Hello 4", "Hello 5"]);
}

// Scrolling up at the top of the history stays put.
#[test]
fn test_scroll_top_is_stable() {
    let events = history(4);
    let mut state = TuiWidgetInnerState::new();
    let fmt = TestFormatter;

    let _ = render_window(&events, &mut state, &fmt, 10, 3);
    for _ in 0..10 {
        state.transition(TuiWidgetEvent::PrevPageKey);
        let _ = render_window(&events, &mut state, &fmt, 10, 3);
    }
    state.transition(TuiWidgetEvent::PrevPageKey);
    let lines = render_window(&events, &mut state, &fmt, 10, 3);
    assert_eq!(texts(&lines), vec!["Hello 0", "Hello 1", "Hello 2"]);
}

// Anchor stability: the anchor captured from the top visible line of a
// bottom-follow render stays in view when re-rendered anchored, at the
// viewport's center row, with the same (event, subline) pointer.
#[test]
fn anchor_round_trip() {
    let events = history(8);
    let mut state = TuiWidgetInnerState::new();
    let fmt = TestFormatter;

    let lines = render_window(&events, &mut state, &fmt, 10, 5);
    let top = lines[0].0;
    assert_eq!(top, LinePointer { event_index: 3, subline: 0 });

    state.transition(TuiWidgetEvent::PrevPageKey);
    let lines = render_window(&events, &mut state, &fmt, 10, 5);
    // The anchored line sits at the center row of the viewport.
    assert_eq!(lines[2].0, top);
}

// A multi-line event is trimmed by lines, not excluded as a whole.
struct TwoLineFormatter;

impl LogFormatter for TwoLineFormatter {
    fn min_width(&self) -> u16 {
        1
    }

    fn format(&self, _width: usize, evt: &ExtLogRecord) -> Vec<String> {
        vec![format!("{} a", evt.msg()), format!("{} b", evt.msg())]
    }
}

#[test]
fn partial_event_at_viewport_edge() {
    let events = history(3);
    let mut state = TuiWidgetInnerState::new();
    let fmt = TwoLineFormatter;

    // Six lines of history, viewport of three: the top event's first
    // line is cut, its second line remains.
    let lines = render_window(&events, &mut state, &fmt, 10, 3);
    assert_eq!(texts(&lines), vec!["1 b", "2 a", "2 b"]);
    assert_eq!(lines[0].0, LinePointer { event_index: 1, subline: 1 });
}

// Filtered events are skipped without disturbing the anchor pointers.
#[test]
fn focus_filters_events() {
    let mut events: CircularBuffer<ExtLogRecord> = CircularBuffer::new(100);
    for i in 0..6 {
        let target = if i % 2 == 0 { "even" } else { "odd" };
        events.push(ExtLogRecord::new(
            i,
            Level::Info,
            target.to_string(),
            None,
            None,
            None,
            format!("{}", i),
        ));
    }
    let mut state = TuiWidgetInnerState::new();
    state.focus_selected = true;
    state.opt_selected_target = Some("even".to_string());
    let fmt = TestFormatter;
    let lines = render_window(&events, &mut state, &fmt, 10, 10);
    assert_eq!(texts(&lines), vec!["Hello 0", "Hello 2", "Hello 4"]);
    assert_eq!(lines[2].0, LinePointer { event_index: 4, subline: 0 });
}

// Each event renders to four lines; anchors address single wrapped
// lines, so scrolling moves line by line across event boundaries.
struct FourLineFormatter;

impl LogFormatter for FourLineFormatter {
    fn min_width(&self) -> u16 {
        1
    }

    fn format(&self, _width: usize, evt: &ExtLogRecord) -> Vec<String> {
        vec![
            format!("Hello {}", evt.msg()),
            format!(" wrap {} 1", evt.msg()),
            format!(" wrap {} 2", evt.msg()),
            format!(" wrap {} 3", evt.msg()),
        ]
    }
}

#[test]
fn scroll_long_wrap() {
    let events = history(3);
    let mut state = TuiWidgetInnerState::new();
    let fmt = FourLineFormatter;

    // Initial draw
    let lines = render_window(&events, &mut state, &fmt, 10, 3);
    assert_eq!(texts(&lines), vec![" wrap 2 1", " wrap 2 2", " wrap 2 3"]);

    // Scroll up
    state.transition(TuiWidgetEvent::PrevPageKey);
    let lines = render_window(&events, &mut state, &fmt, 10, 3);
    assert_eq!(texts(&lines), vec!["Hello 2", " wrap 2 1", " wrap 2 2"]);

    // Scroll up across the event boundary
    state.transition(TuiWidgetEvent::PrevPageKey);
    let lines = render_window(&events, &mut state, &fmt, 10, 3);
    assert_eq!(texts(&lines), vec![" wrap 1 3", "Hello 2", " wrap 2 1"]);
}

// An empty history renders an empty viewport in both modes.
#[test]
fn render_empty_history() {
    let events: CircularBuffer<ExtLogRecord> = CircularBuffer::new(10);
    let mut state = TuiWidgetInnerState::new();
    let fmt = TestFormatter;
    let lines = render_window(&events, &mut state, &fmt, 10, 3);
    assert!(lines.is_empty());
    assert_eq!(state.opt_line_pointer_prev_page, None);
    assert_eq!(state.opt_line_pointer_next_page, None);
}

// An anchor whose event was overwritten in the ring renders nothing
// until escape returns to bottom-follow.
#[test]
fn anchor_dropped_from_ring() {
    let mut events: CircularBuffer<ExtLogRecord> = CircularBuffer::new(4);
    for i in 0..10 {
        events.push(ExtLogRecord::new(
            i,
            Level::Info,
            "t".to_string(),
            None,
            None,
            None,
            format!("{}", i),
        ));
    }
    let mut state = TuiWidgetInnerState::new();
    state.opt_line_pointer_center = Some(LinePointer { event_index: 2, subline: 0 });
    let fmt = TestFormatter;
    let lines = render_window(&events, &mut state, &fmt, 10, 3);
    assert!(lines.is_empty());
    state.transition(TuiWidgetEvent::EscapeKey);
    let lines = render_window(&events, &mut state, &fmt, 10, 3);
    assert_eq!(texts(&lines), vec!["Hello 7", "Hello 8", "Hello 9"]);
}
