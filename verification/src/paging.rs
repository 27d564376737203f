//! The paging and windowing algorithm: turn the cold event store, the
//! widget state and a formatter into the ordered lines of one viewport.
//!
//! Two modes: bottom-follow (no scroll anchor) shows the last lines of
//! the filtered history; centered-scroll places the anchored event line
//! in the middle of the viewport and rebalances against whichever end
//! of the history it runs into. Anchors are (event, line-within-event)
//! pairs, so re-filtering does not make the remembered position jump.

use vstd::prelude::*;
use crate::circular::CircularBuffer;
use crate::formatter::LogFormatter;
use crate::levels::level_passes;
use crate::record::ExtLogRecord;
use crate::widget::LinePointer;
use crate::widget::TuiWidgetInnerState;

verus! {

/// Whether the widget state shows this event: its level passes the
/// target's display filter (or the table's default display level, or
/// everything when neither is set), and, under focus, its target is
/// the selected one.
pub open spec fn spec_visible(state: TuiWidgetInnerState, evt: ExtLogRecord) -> bool {
    let lvl_ok = if state.config@.contains_key(evt.target@) {
        level_passes(evt.level, state.config@[evt.target@])
    } else if state.config.spec_default_display_level() is Some {
        level_passes(evt.level, state.config.spec_default_display_level()->0)
    } else {
        true
    };
    let focus_ok = if state.focus_selected && state.opt_selected_target is Some {
        state.opt_selected_target->0@ == evt.target@
    } else {
        true
    };
    lvl_ok && focus_ok
}

/// The smallest index of a visible addressable event at or above `i`,
/// if any.
pub open spec fn next_visible_up(
    events: CircularBuffer<ExtLogRecord>,
    state: TuiWidgetInnerState,
    i: int,
) -> Option<int>
    decreases events.total() - i,
{
    if !(events.first_live() <= i < events.total()) {
        None
    } else if spec_visible(state, events@[i]) {
        Some(i)
    } else {
        next_visible_up(events, state, i + 1)
    }
}

/// The largest index of a visible addressable event at or below `i`,
/// if any.
pub open spec fn next_visible_down(
    events: CircularBuffer<ExtLogRecord>,
    state: TuiWidgetInnerState,
    i: int,
) -> Option<int>
    decreases i,
{
    if !(events.first_live() <= i < events.total()) {
        None
    } else if spec_visible(state, events@[i]) {
        Some(i)
    } else if i == 0 {
        None
    } else {
        next_visible_down(events, state, i - 1)
    }
}

/// The lines of one event, each tagged with its (event, subline)
/// pointer.
pub open spec fn tag_lines(e: int, lines: Seq<Seq<char>>) -> Seq<(int, int, Seq<char>)> {
    Seq::new(lines.len(), |s: int| (e, s, lines[s]))
}

/// The display lines of all visible addressable events below index
/// `j`, in display order.
pub open spec fn flat_upto<F: LogFormatter>(
    events: CircularBuffer<ExtLogRecord>,
    state: TuiWidgetInnerState,
    f: F,
    width: usize,
    j: int,
) -> Seq<(int, int, Seq<char>)>
    decreases j - events.first_live(),
{
    if j <= events.first_live() || j > events.total() {
        Seq::<(int, int, Seq<char>)>::empty()
    } else {
        let prev = flat_upto(events, state, f, width, j - 1);
        if spec_visible(state, events@[j - 1]) {
            prev + tag_lines(j - 1, f.spec_format(width, events@[j - 1]))
        } else {
            prev
        }
    }
}

/// The display lines of all visible addressable events at or above
/// index `i`, in display order.
pub open spec fn flat_from<F: LogFormatter>(
    events: CircularBuffer<ExtLogRecord>,
    state: TuiWidgetInnerState,
    f: F,
    width: usize,
    i: int,
) -> Seq<(int, int, Seq<char>)>
    decreases events.total() - i,
{
    if !(events.first_live() <= i < events.total()) {
        Seq::<(int, int, Seq<char>)>::empty()
    } else {
        let rest = flat_from(events, state, f, width, i + 1);
        if spec_visible(state, events@[i]) {
            tag_lines(i, f.spec_format(width, events@[i])) + rest
        } else {
            rest
        }
    }
}

/// The whole filtered display sequence.
pub open spec fn flat_all<F: LogFormatter>(
    events: CircularBuffer<ExtLogRecord>,
    state: TuiWidgetInnerState,
    f: F,
    width: usize,
) -> Seq<(int, int, Seq<char>)> {
    flat_upto(events, state, f, width, events.total() as int)
}

/// The position of line `s` of visible event `e` in the flat display
/// sequence.
pub open spec fn flat_pos<F: LogFormatter>(
    events: CircularBuffer<ExtLogRecord>,
    state: TuiWidgetInnerState,
    f: F,
    width: usize,
    e: int,
    s: int,
) -> int {
    flat_upto(events, state, f, width, e).len() + s
}

/// First line of the centered window around flat position `aidx`: the
/// anchor sits at row `height / 2`, clamped against both ends of the
/// flat sequence, rebalancing the shortfall to the other side.
pub open spec fn window_lo(aidx: int, len: int, height: int) -> int {
    let l = aidx - height / 2;
    let l = if l < 0 {
        0
    } else {
        l
    };
    if l + height > len {
        if len - height > 0 {
            len - height
        } else {
            0
        }
    } else {
        l
    }
}

/// One past the last line of the centered window.
pub open spec fn window_hi(aidx: int, len: int, height: int) -> int {
    let l = window_lo(aidx, len, height);
    if l + height > len {
        len
    } else {
        l + height
    }
}

/// The (pointer, text) views of rendered lines.
pub open spec fn line_views(v: Seq<(LinePointer, String)>) -> Seq<(int, int, Seq<char>)> {
    v.map(|i: int, e: (LinePointer, String)| (e.0.event_index as int, e.0.subline as int, e.1@))
}

/// Everything a downward search passed over on its way to a found
/// index is invisible.
pub proof fn lemma_down_skipped(
    events: CircularBuffer<ExtLogRecord>,
    state: TuiWidgetInnerState,
    i: int,
    k: int,
)
    requires
        next_visible_down(events, state, i) is Some,
        next_visible_down(events, state, i)->0 < k <= i,
        events.first_live() <= k < events.total(),
    ensures
        !spec_visible(state, events@[k]),
    decreases i,
{
    let r = next_visible_down(events, state, i)->0;
    if events.first_live() <= i < events.total() {
        if spec_visible(state, events@[i]) {
        } else {
            if k < i {
                lemma_down_skipped(events, state, i - 1, k);
            }
        }
    }
}

/// Everything an upward search passed over on its way to a found
/// index is invisible.
pub proof fn lemma_up_skipped(
    events: CircularBuffer<ExtLogRecord>,
    state: TuiWidgetInnerState,
    i: int,
    k: int,
)
    requires
        next_visible_up(events, state, i) is Some,
        i <= k < next_visible_up(events, state, i)->0,
        events.first_live() <= k < events.total(),
    ensures
        !spec_visible(state, events@[k]),
    decreases events.total() - i,
{
    if events.first_live() <= i < events.total() {
        if spec_visible(state, events@[i]) {
        } else {
            if k > i {
                lemma_up_skipped(events, state, i + 1, k);
            }
        }
    }
}

/// A found search result is a visible addressable event.
pub proof fn lemma_down_found(
    events: CircularBuffer<ExtLogRecord>,
    state: TuiWidgetInnerState,
    i: int,
)
    requires
        next_visible_down(events, state, i) is Some,
    ensures
        events.first_live() <= next_visible_down(events, state, i)->0 <= i,
        next_visible_down(events, state, i)->0 < events.total(),
        spec_visible(state, events@[next_visible_down(events, state, i)->0]),
    decreases i,
{
    if events.first_live() <= i < events.total() {
        if !spec_visible(state, events@[i]) && i != 0 {
            lemma_down_found(events, state, i - 1);
        }
    }
}

pub proof fn lemma_up_found(
    events: CircularBuffer<ExtLogRecord>,
    state: TuiWidgetInnerState,
    i: int,
)
    requires
        next_visible_up(events, state, i) is Some,
    ensures
        i <= next_visible_up(events, state, i)->0,
        events.first_live() <= next_visible_up(events, state, i)->0 < events.total(),
        spec_visible(state, events@[next_visible_up(events, state, i)->0]),
    decreases events.total() - i,
{
    if events.first_live() <= i < events.total() {
        if !spec_visible(state, events@[i]) {
            lemma_up_found(events, state, i + 1);
        }
    }
}

/// `flat_upto` does not change across invisible events.
pub proof fn lemma_flat_upto_invisible<F: LogFormatter>(
    events: CircularBuffer<ExtLogRecord>,
    state: TuiWidgetInnerState,
    f: F,
    width: usize,
    a: int,
    b: int,
)
    requires
        a <= b <= events.total(),
        forall|k: int|
            a <= k < b && events.first_live() <= k ==> !spec_visible(state, events@[k]),
    ensures
        flat_upto(events, state, f, width, a) == flat_upto(events, state, f, width, b),
    decreases b - a,
{
    if a < b {
        lemma_flat_upto_invisible(events, state, f, width, a, b - 1);
    }
}

/// `flat_from` does not change across invisible events.
pub proof fn lemma_flat_from_invisible<F: LogFormatter>(
    events: CircularBuffer<ExtLogRecord>,
    state: TuiWidgetInnerState,
    f: F,
    width: usize,
    a: int,
    b: int,
)
    requires
        events.first_live() <= a <= b,
        forall|k: int|
            a <= k < b && events.first_live() <= k < events.total() ==> !spec_visible(
                state,
                events@[k],
            ),
    ensures
        flat_from(events, state, f, width, a) == flat_from(events, state, f, width, b),
    decreases b - a,
{
    if a < b {
        if a >= events.total() {
            assert(flat_from(events, state, f, width, a) =~= Seq::<(int, int, Seq<char>)>::empty());
            assert(flat_from(events, state, f, width, b) =~= Seq::<(int, int, Seq<char>)>::empty());
        } else {
            lemma_flat_from_invisible(events, state, f, width, a + 1, b);
        }
    }
}

/// The prefix below `j` and the suffix from `j` make up the whole
/// filtered display sequence.
pub proof fn lemma_flat_split<F: LogFormatter>(
    events: CircularBuffer<ExtLogRecord>,
    state: TuiWidgetInnerState,
    f: F,
    width: usize,
    j: int,
)
    requires
        events.first_live() <= j <= events.total(),
    ensures
        flat_upto(events, state, f, width, j) + flat_from(events, state, f, width, j) == flat_all(
            events,
            state,
            f,
            width,
        ),
    decreases events.total() - j,
{
    if j == events.total() {
        assert(flat_upto(events, state, f, width, j) + flat_from(events, state, f, width, j)
            =~= flat_all(events, state, f, width));
    } else {
        lemma_flat_split(events, state, f, width, j + 1);
        assert(flat_upto(events, state, f, width, j + 1) == if spec_visible(state, events@[j]) {
            flat_upto(events, state, f, width, j) + tag_lines(j, f.spec_format(width, events@[j]))
        } else {
            flat_upto(events, state, f, width, j)
        });
        assert(flat_upto(events, state, f, width, j) + flat_from(events, state, f, width, j)
            =~= flat_upto(events, state, f, width, j + 1) + flat_from(
            events,
            state,
            f,
            width,
            j + 1,
        ));
    }
}

/// The anchor line lies inside the centered window.
pub proof fn lemma_anchor_in_window(aidx: int, len: int, height: int)
    requires
        0 <= aidx < len,
        height >= 1,
    ensures
        window_lo(aidx, len, height) <= aidx < window_hi(aidx, len, height),
        window_hi(aidx, len, height) - window_lo(aidx, len, height) == if height < len {
            height
        } else {
            len
        },
{
}

/// Whether the widget state shows this event.
fn is_visible(state: &TuiWidgetInnerState, evt: &ExtLogRecord) -> (r: bool)
    requires
        state.config.inv(),
    ensures
        r == spec_visible(*state, *evt),
{
    let mut skip = false;
    let lvl = match state.config.get(evt.target.as_str()) {
        Some(l) => Some(l),
        None => state.config.get_default_display_level(),
    };
    if let Some(level) = lvl {
        if !evt.level.passes(level) {
            skip = true;
        }
    }
    if !skip && state.focus_selected {
        if let Some(target) = &state.opt_selected_target {
            if !(*target == evt.target) {
                skip = true;
            }
        }
    }
    !skip
}

/// Search for the nearest visible event from `index`, upward when
/// `increment` is set, else downward; `ignore_current` starts the
/// search one past `index`. Returns the continuation index for the
/// next search, the found index and the event.
fn next_event<'a>(
    events: &'a CircularBuffer<ExtLogRecord>,
    index: usize,
    ignore_current: bool,
    increment: bool,
    state: &TuiWidgetInnerState,
) -> (r: Option<(Option<usize>, usize, &'a ExtLogRecord)>)
    requires
        events.inv(),
        state.config.inv(),
    ensures
        ({
            let start: int = if ignore_current {
                if increment {
                    index + 1
                } else {
                    index - 1
                }
            } else {
                index as int
            };
            let found = if increment {
                next_visible_up(*events, *state, start)
            } else {
                next_visible_down(*events, *state, start)
            };
            match r {
                Some((next, idx, evt)) => {
                    &&& found == Some(idx as int)
                    &&& *evt == events@[idx as int]
                    &&& next == if increment {
                        Some((idx + 1) as usize)
                    } else if idx == 0 {
                        None::<usize>
                    } else {
                        Some((idx - 1) as usize)
                    }
                },
                None => found is None,
            }
        }),
{
    proof {
        events.lemma_total_bound();
    }
    let mut cur: usize = index;
    if ignore_current {
        if increment {
            if cur >= usize::MAX {
                return None;
            }
            cur = cur + 1;
        } else {
            if cur == 0 {
                return None;
            }
            cur = cur - 1;
        }
    }
    let ghost start = cur as int;
    loop
        invariant
            events.inv(),
            events.total() <= usize::MAX,
            state.config.inv(),
            0 <= cur,
            start == (if ignore_current {
                if increment {
                    index + 1
                } else {
                    index - 1
                }
            } else {
                index as int
            }),
            increment ==> next_visible_up(*events, *state, start) == next_visible_up(
                *events,
                *state,
                cur as int,
            ),
            !increment ==> next_visible_down(*events, *state, start) == next_visible_down(
                *events,
                *state,
                cur as int,
            ),
        ensures
            (if increment {
                next_visible_up(*events, *state, start)
            } else {
                next_visible_down(*events, *state, start)
            }) is None,
        decreases
                if increment {
                    events.total() - cur
                } else {
                    cur + 1
                },
    {
        match events.element_at_index(cur) {
            None => {
                break ;
            },
            Some(evt) => {
                if is_visible(state, evt) {
                    proof {
                        if increment {
                            assert(next_visible_up(*events, *state, cur as int) == Some(
                                cur as int,
                            ));
                        } else {
                            assert(next_visible_down(*events, *state, cur as int) == Some(
                                cur as int,
                            ));
                        }
                    }
                    let next: Option<usize> = if increment {
                        Some(cur + 1)
                    } else if cur == 0 {
                        None
                    } else {
                        Some(cur - 1)
                    };
                    return Some((next, cur, evt));
                }
                if increment {
                    cur = cur + 1;
                } else {
                    if cur == 0 {
                        break ;
                    }
                    cur = cur - 1;
                }
            },
        }
    }
    None
}

/// A failed downward search means nothing at or below `i` is visible.
pub proof fn lemma_down_none(
    events: CircularBuffer<ExtLogRecord>,
    state: TuiWidgetInnerState,
    i: int,
    k: int,
)
    requires
        next_visible_down(events, state, i) is None,
        i < events.total(),
        k <= i,
        events.first_live() <= k < events.total(),
    ensures
        !spec_visible(state, events@[k]),
    decreases i,
{
    if events.first_live() <= i < events.total() {
        if k < i {
            lemma_down_none(events, state, i - 1, k);
        }
    }
}

/// A failed upward search means nothing at or above `i` is visible.
pub proof fn lemma_up_none(
    events: CircularBuffer<ExtLogRecord>,
    state: TuiWidgetInnerState,
    i: int,
    k: int,
)
    requires
        next_visible_up(events, state, i) is None,
        events.first_live() <= i,
        i <= k,
        events.first_live() <= k < events.total(),
    ensures
        !spec_visible(state, events@[k]),
    decreases events.total() - i,
{
    if events.first_live() <= i < events.total() {
        if k > i {
            lemma_up_none(events, state, i + 1, k);
        }
    }
}

/// Reversing the first `c` elements of a reversed sequence yields the
/// last `c` elements of the original.
pub proof fn lemma_reverse_take<A>(s: Seq<A>, c: int)
    requires
        0 <= c <= s.len(),
    ensures
        s.reverse().take(c).reverse() == s.skip(s.len() - c),
{
    assert(s.reverse().take(c).reverse() =~= s.skip(s.len() - c));
}

/// The flat line at the position of line `s` of visible event `e`.
pub proof fn lemma_flat_pos<F: LogFormatter>(
    events: CircularBuffer<ExtLogRecord>,
    state: TuiWidgetInnerState,
    f: F,
    width: usize,
    e: int,
    s: int,
)
    requires
        events.first_live() <= e < events.total(),
        spec_visible(state, events@[e]),
        0 <= s < f.spec_format(width, events@[e]).len(),
    ensures
        0 <= flat_pos(events, state, f, width, e, s) < flat_all(events, state, f, width).len(),
        flat_all(events, state, f, width)[flat_pos(events, state, f, width, e, s)] == (
            e,
            s,
            f.spec_format(width, events@[e])[s],
        ),
{
    lemma_flat_split(events, state, f, width, e);
    let up = flat_upto(events, state, f, width, e);
    let from = flat_from(events, state, f, width, e);
    assert(from == tag_lines(e, f.spec_format(width, events@[e])) + flat_from(
        events,
        state,
        f,
        width,
        e + 1,
    ));
    assert((up + from)[up.len() + s] == from[s]);
}

/// Reverse a vector.
fn reversed<T>(v: Vec<T>) -> (r: Vec<T>)
    ensures
        r@ == v@.reverse(),
{
    let ghost v0 = v@;
    let mut v = v;
    let mut r: Vec<T> = Vec::new();
    while v.len() > 0
        invariant
            v@.len() <= v0.len(),
            v@ == v0.take(v@.len() as int),
            r@ =~= v0.skip(v@.len() as int).reverse(),
        decreases v@.len(),
    {
        let ghost k = v@.len() as int;
        let x = match v.pop() {
            Some(x) => x,
            None => vstd::pervasive::unreached(),
        };
        r.push(x);
        proof {
            assert(x == v0[k - 1]);
            assert(v@ =~= v0.take(k - 1));
            assert(r@ =~= v0.skip(k - 1).reverse());
        }
    }
    proof {
        assert(r@ =~= v0.reverse());
    }
    r
}

/// Collect the rendered lines of the visible events below `upper`,
/// newest line first, until at least `want` lines are gathered or the
/// history is exhausted.
fn collect_down<F: LogFormatter>(
    events: &CircularBuffer<ExtLogRecord>,
    state: &TuiWidgetInnerState,
    formatter: &F,
    width: usize,
    upper: usize,
    want: usize,
) -> (r: Vec<(LinePointer, String)>)
    requires
        events.inv(),
        state.config.inv(),
        upper <= events.total(),
    ensures
        ({
            let fl = flat_upto(*events, *state, *formatter, width, upper as int);
            &&& r@.len() <= fl.len()
            &&& line_views(r@) == fl.reverse().take(r@.len() as int)
            &&& r@.len() == vstd::math::min(want as int, fl.len() as int)
        }),
{
    proof {
        events.lemma_total_bound();
    }
    let ghost fl = flat_upto(*events, *state, *formatter, width, upper as int);
    let mut rev: Vec<(LinePointer, String)> = Vec::new();
    if upper == 0 {
        proof {
            assert(fl =~= Seq::<(int, int, Seq<char>)>::empty());
            assert(line_views(rev@) =~= fl.reverse().take(0));
        }
        return rev;
    }
    let mut cursor: usize = upper - 1;
    let mut more = true;
    while more && rev.len() < want
        invariant
            events.inv(),
            events.total() <= usize::MAX,
            state.config.inv(),
            fl == flat_upto(*events, *state, *formatter, width, upper as int),
            upper <= events.total(),
            rev@.len() <= want,
            rev@.len() <= fl.len(),
            line_views(rev@) =~= fl.reverse().take(rev@.len() as int),
            more ==> cursor < upper,
            more && rev@.len() < want ==> fl.reverse().skip(rev@.len() as int) =~= flat_upto(
                *events,
                *state,
                *formatter,
                width,
                cursor + 1,
            ).reverse(),
            !more ==> rev@.len() == fl.len(),
        decreases (if more { cursor + 1 } else { 0 }), want - rev@.len(),
    {
        let ghost pre_len = rev@.len() as int;
        match next_event(events, cursor, false, false, state) {
            None => {
                proof {
                    let up1 = flat_upto(*events, *state, *formatter, width, cursor + 1);
                    assert forall|k: int|
                        events.first_live() <= k < cursor + 1 && events.first_live() <= k
                            implies !spec_visible(*state, events@[k]) by {
                        if k < events.total() {
                            lemma_down_none(*events, *state, cursor as int, k);
                        }
                    }
                    lemma_flat_upto_invisible(
                        *events,
                        *state,
                        *formatter,
                        width,
                        if events.first_live() < cursor + 1 {
                            events.first_live()
                        } else {
                            cursor + 1
                        },
                        cursor + 1,
                    );
                    assert(up1 =~= Seq::<(int, int, Seq<char>)>::empty());
                    assert(rev@.len() == fl.len());
                }
                more = false;
            },
            Some((next, idx, evt)) => {
                proof {
                    let up1 = flat_upto(*events, *state, *formatter, width, cursor + 1);
                    let upi1 = flat_upto(*events, *state, *formatter, width, idx + 1);
                    assert forall|k: int| idx + 1 <= k < cursor + 1 && events.first_live() <= k
                        implies !spec_visible(*state, events@[k]) by {
                        lemma_down_found(*events, *state, cursor as int);
                        lemma_down_skipped(*events, *state, cursor as int, k);
                    }
                    lemma_down_found(*events, *state, cursor as int);
                    lemma_flat_upto_invisible(*events, *state, *formatter, width, idx + 1, cursor + 1);
                    assert(up1 == upi1);
                }
                let mut lines = formatter.format(width, evt);
                let ghost spec_lines = formatter.spec_format(width, events@[idx as int]);
                let ghost n = spec_lines.len() as int;
                proof {
                    let upi = flat_upto(*events, *state, *formatter, width, idx as int);
                    let upi1 = flat_upto(*events, *state, *formatter, width, idx + 1);
                    assert(upi1 == upi + tag_lines(idx as int, spec_lines));
                    assert(upi1.reverse() =~= tag_lines(idx as int, spec_lines).reverse()
                        + upi.reverse());
                }
                while lines.len() > 0 && rev.len() < want
                    invariant
                        events.inv(),
                        state.config.inv(),
                        fl == flat_upto(*events, *state, *formatter, width, upper as int),
                        events.first_live() <= idx < events.total(),
                        idx < upper <= events.total(),
                        n == spec_lines.len(),
                        n >= 1,
                        lines@.len() <= n,
                        lines.deep_view() =~~= spec_lines.take(lines@.len() as int),
                        flat_upto(*events, *state, *formatter, width, idx + 1) == flat_upto(
                            *events,
                            *state,
                            *formatter,
                            width,
                            idx as int,
                        ) + tag_lines(idx as int, spec_lines),
                        0 <= pre_len <= fl.len(),
                        fl.reverse().skip(pre_len) =~= flat_upto(
                            *events,
                            *state,
                            *formatter,
                            width,
                            idx + 1,
                        ).reverse(),
                        rev@.len() <= want,
                        rev@.len() <= fl.len(),
                        line_views(rev@) =~= fl.reverse().take(rev@.len() as int),
                        rev@.len() - pre_len == n - lines@.len(),
                        rev@.len() >= pre_len,
                    decreases lines@.len(),
                {
                    let ghost lcount = lines@.len() as int;
                    let ghost pre_deep = lines.deep_view();
                    let line = match lines.pop() {
                        Some(x) => x,
                        None => vstd::pervasive::unreached(),
                    };
                    let sub = lines.len();
                    rev.push((LinePointer { event_index: idx, subline: sub }, line));
                    proof {
                        let upi = flat_upto(*events, *state, *formatter, width, idx as int);
                        let upi1 = flat_upto(*events, *state, *formatter, width, idx + 1);
                        let t = tag_lines(idx as int, spec_lines);
                        assert forall|q: int| 0 <= q < lines@.len() implies lines.deep_view()[q]
                            == pre_deep[q] by {
                        }
                        assert(lines.deep_view() =~~= spec_lines.take(lines@.len() as int));
                        assert(line@ == pre_deep[lcount - 1]);
                        assert(line@ == spec_lines[sub as int]);
                        assert(upi1.reverse() =~= t.reverse() + upi.reverse());
                        assert(fl.reverse()[rev@.len() - 1] == upi1.reverse()[
                            rev@.len() - 1 - pre_len
                        ]);
                        assert(upi1.reverse()[rev@.len() - 1 - pre_len] == t.reverse()[
                            rev@.len() - 1 - pre_len
                        ]);
                        assert(t.reverse()[rev@.len() - 1 - pre_len] == t[sub as int]);
                        assert(line_views(rev@) =~= fl.reverse().take(rev@.len() as int));
                    }
                }
                if lines.len() == 0 {
                    proof {
                        let upi = flat_upto(*events, *state, *formatter, width, idx as int);
                        let upi1 = flat_upto(*events, *state, *formatter, width, idx + 1);
                        let t = tag_lines(idx as int, spec_lines);
                        assert(upi1.reverse() =~= t.reverse() + upi.reverse());
                        assert forall|q: int| 0 <= q < fl.len() - rev@.len() implies fl.reverse()[
                            rev@.len() + q
                        ] == upi.reverse()[q] by {
                            assert(fl.reverse()[rev@.len() + q] == fl.reverse().skip(pre_len)[
                                n + q
                            ]);
                            assert(upi1.reverse()[n + q] == upi.reverse()[q]);
                        }
                        assert(fl.reverse().skip(rev@.len() as int) =~= upi.reverse());
                    }
                    match next {
                        Some(nx) => {
                            cursor = nx;
                            proof {
                                assert(cursor + 1 == idx as int);
                            }
                        },
                        None => {
                            proof {
                                let up0 = flat_upto(*events, *state, *formatter, width, 0);
                                assert(up0 =~= Seq::<(int, int, Seq<char>)>::empty());
                                assert(rev@.len() == fl.len());
                            }
                            more = false;
                        },
                    }
                }
            },
        }
    }
    proof {
        if rev@.len() == want {
        } else {
            assert(rev@.len() == fl.len());
        }
    }
    rev
}

/// Collect the rendered lines of the visible events at or above
/// `lower`, in display order, until at least `want` lines are gathered
/// or the history is exhausted.
fn collect_up<F: LogFormatter>(
    events: &CircularBuffer<ExtLogRecord>,
    state: &TuiWidgetInnerState,
    formatter: &F,
    width: usize,
    lower: usize,
    want: usize,
) -> (r: Vec<(LinePointer, String)>)
    requires
        events.inv(),
        state.config.inv(),
        events.first_live() <= lower,
        lower <= events.total(),
    ensures
        ({
            let fl = flat_from(*events, *state, *formatter, width, lower as int);
            &&& r@.len() <= fl.len()
            &&& line_views(r@) == fl.take(r@.len() as int)
            &&& r@.len() == vstd::math::min(want as int, fl.len() as int)
        }),
{
    proof {
        events.lemma_total_bound();
    }
    let ghost fl = flat_from(*events, *state, *formatter, width, lower as int);
    let mut out: Vec<(LinePointer, String)> = Vec::new();
    let mut cursor: usize = lower;
    let mut more = true;
    while more && out.len() < want
        invariant
            events.inv(),
            events.total() <= usize::MAX,
            state.config.inv(),
            fl == flat_from(*events, *state, *formatter, width, lower as int),
            events.first_live() <= lower,
            out@.len() <= want,
            out@.len() <= fl.len(),
            line_views(out@) =~= fl.take(out@.len() as int),
            more ==> lower <= cursor,
            more ==> cursor <= events.total(),
            more && out@.len() < want ==> fl.skip(out@.len() as int) =~= flat_from(
                *events,
                *state,
                *formatter,
                width,
                cursor as int,
            ),
            !more ==> out@.len() == fl.len(),
        decreases (if more { events.total() + 1 - cursor } else { 0 }), want - out@.len(),
    {
        let ghost pre_len = out@.len() as int;
        match next_event(events, cursor, false, true, state) {
            None => {
                proof {
                    assert forall|k: int|
                        cursor <= k && events.first_live() <= k < events.total()
                            implies !spec_visible(*state, events@[k]) by {
                        lemma_up_none(*events, *state, cursor as int, k);
                    }
                    lemma_flat_from_invisible(
                        *events,
                        *state,
                        *formatter,
                        width,
                        cursor as int,
                        events.total() as int,
                    );
                    assert(flat_from(*events, *state, *formatter, width, events.total() as int)
                        =~= Seq::<(int, int, Seq<char>)>::empty());
                    assert(out@.len() == fl.len());
                }
                more = false;
            },
            Some((next, idx, evt)) => {
                proof {
                    assert forall|k: int| cursor <= k < idx && events.first_live() <= k
                        implies !spec_visible(*state, events@[k]) by {
                        lemma_up_found(*events, *state, cursor as int);
                        lemma_up_skipped(*events, *state, cursor as int, k);
                    }
                    lemma_up_found(*events, *state, cursor as int);
                    lemma_flat_from_invisible(
                        *events,
                        *state,
                        *formatter,
                        width,
                        cursor as int,
                        idx as int,
                    );
                }
                let mut lines = formatter.format(width, evt);
                let ghost spec_lines = formatter.spec_format(width, events@[idx as int]);
                let ghost n = spec_lines.len() as int;
                proof {
                    assert(flat_from(*events, *state, *formatter, width, idx as int)
                        == tag_lines(idx as int, spec_lines) + flat_from(
                        *events,
                        *state,
                        *formatter,
                        width,
                        idx + 1,
                    ));
                    assert(fl.skip(pre_len) =~= tag_lines(idx as int, spec_lines) + flat_from(
                        *events,
                        *state,
                        *formatter,
                        width,
                        idx + 1,
                    ));
                    assert(fl.len() - pre_len >= spec_lines.len());
                }
                let mut sub: usize = 0;
                while sub < lines.len() && out.len() < want
                    invariant
                        events.inv(),
                        state.config.inv(),
                        fl == flat_from(*events, *state, *formatter, width, lower as int),
                        events.first_live() <= idx < events.total(),
                        n == spec_lines.len(),
                        n == lines@.len(),
                        lines.deep_view() =~~= spec_lines,
                        sub <= n,
                        0 <= pre_len,
                        out@.len() <= want,
                        out@.len() <= fl.len(),
                        fl.len() >= pre_len + n,
                        line_views(out@) =~= fl.take(out@.len() as int),
                        fl.skip(pre_len) =~= tag_lines(idx as int, spec_lines) + flat_from(
                            *events,
                            *state,
                            *formatter,
                            width,
                            idx + 1,
                        ),
                        out@.len() == pre_len + sub,
                    decreases n - sub,
                {
                    let line = lines[sub].clone();
                    out.push((LinePointer { event_index: idx, subline: sub }, line));
                    proof {
                        let t = tag_lines(idx as int, spec_lines);
                        assert(line@ == spec_lines[sub as int]);
                        assert(fl[out@.len() - 1] == fl.skip(pre_len)[sub as int]);
                        assert(fl.skip(pre_len)[sub as int] == t[sub as int]);
                        assert(line_views(out@) =~= fl.take(out@.len() as int));
                    }
                    sub = sub + 1;
                }
                if sub == lines.len() {
                    proof {
                        let t = tag_lines(idx as int, spec_lines);
                        let from1 = flat_from(*events, *state, *formatter, width, idx + 1);
                        assert forall|q: int| 0 <= q < fl.len() - out@.len() implies fl[
                            out@.len() + q
                        ] == from1[q] by {
                            assert(fl[out@.len() + q] == fl.skip(pre_len)[n + q]);
                            assert((t + from1)[n + q] == from1[q]);
                        }
                        assert(fl.skip(out@.len() as int) =~= from1);
                    }
                    cursor = idx + 1;
                }
            },
        }
    }
    proof {
        if out@.len() == want {
        } else {
            assert(out@.len() == fl.len());
        }
    }
    out
}


/// The centered window computed inside the bounded collected segment
/// equals the window on the whole flat sequence: the collected amounts
/// cap at `height` per side, which is all a window can use.
pub proof fn lemma_window_shift(
    uplen: int,
    fromlen: int,
    n: int,
    s: int,
    ca: int,
    cb: int,
    height: int,
)
    requires
        0 <= s < n,
        0 <= height,
        0 <= uplen,
        0 <= fromlen,
        ca == vstd::math::min(height, uplen),
        cb == vstd::math::min(height, fromlen),
    ensures
        ({
            let len = uplen + n + fromlen;
            let aidx = uplen + s;
            let shift = uplen - ca;
            let clen = ca + n + cb;
            let p = ca + s;
            let center = height / 2;
            let lo0 = if p >= center {
                p - center
            } else {
                0
            };
            let lo_c = if clen - lo0 > height {
                lo0
            } else if clen > height {
                clen - height
            } else {
                0
            };
            let hi_c = if clen - lo0 > height {
                lo0 + height
            } else {
                clen
            };
            &&& shift + lo_c == window_lo(aidx, len, height)
            &&& shift + hi_c == window_hi(aidx, len, height)
            &&& 0 <= lo_c <= hi_c <= clen
            &&& hi_c - lo_c <= height
        }),
{
}

/// Collect the window material around visible anchor event `e`: up to
/// `height` lines above it, its own lines, and up to `height` lines
/// below it, as one display-ordered segment of the flat sequence.
#[verifier::rlimit(100)]
fn build_combined<F: LogFormatter>(
    events: &CircularBuffer<ExtLogRecord>,
    state: &TuiWidgetInnerState,
    formatter: &F,
    width: usize,
    height: usize,
    e: usize,
    evt_ref: &ExtLogRecord,
) -> (r: (Vec<(LinePointer, String)>, usize, usize))
    requires
        events.inv(),
        state.config.inv(),
        events.first_live() <= e < events.total(),
        spec_visible(*state, events@[e as int]),
        *evt_ref == events@[e as int],
    ensures
        ({
            let st = *state;
            let up_e = flat_upto(*events, st, *formatter, width, e as int);
            let from_e1 = flat_from(*events, st, *formatter, width, e + 1);
            let n = formatter.spec_format(width, events@[e as int]).len() as int;
            let fl = flat_all(*events, st, *formatter, width);
            &&& r.1 == vstd::math::min(height as int, up_e.len() as int)
            &&& r.2 == vstd::math::min(height as int, from_e1.len() as int)
            &&& r.0@.len() == r.1 + n + r.2
            &&& n >= 1
            &&& fl.len() == up_e.len() + n + from_e1.len()
            &&& line_views(r.0@) == fl.subrange(
                up_e.len() - r.1,
                up_e.len() - r.1 + r.0@.len(),
            )
        }),
{
    proof {
        events.lemma_total_bound();
    }
    let ghost st = *state;
    let ghost fl = flat_all(*events, *state, *formatter, width);
    let alines = formatter.format(width, evt_ref);
    let n = alines.len();
    let ghost spec_lines = formatter.spec_format(
        width,
        events@[e as int],
    );
    let above_rev = collect_down(
        events,
        state,
        formatter,
        width,
        e,
        height,
    );
    let ca = above_rev.len();
    let below = collect_up(
        events,
        state,
        formatter,
        width,
        e + 1,
        height,
    );
    let cb = below.len();
    let ghost up_e = flat_upto(*events, st, *formatter, width, e as int);
    let ghost from_e1 = flat_from(*events, st, *formatter, width, e + 1);
    let ghost uplen = up_e.len() as int;
    let ghost fromlen = from_e1.len() as int;
    let ghost above_rev0 = above_rev@;
    let mut combined = reversed(above_rev);
    proof {
        lemma_reverse_take(up_e, ca as int);
        assert forall|i: int| 0 <= i < combined@.len() implies line_views(
            combined@,
        )[i] == up_e.skip(uplen - ca)[i] by {
            assert(combined@[i] == above_rev0[ca - 1 - i]);
            assert(line_views(above_rev0)[ca - 1 - i] == up_e.reverse().take(
                ca as int,
            )[ca - 1 - i]);
            assert(up_e.reverse()[ca - 1 - i] == up_e[uplen - ca + i]);
        }
        assert(line_views(combined@) =~= up_e.skip(uplen - ca));
    }
    let mut alines = alines;
    let mut s2: usize = 0;
    while alines.len() > 0
        invariant
            s2 + alines@.len() == n,
            n == spec_lines.len(),
            alines.deep_view() =~~= spec_lines.skip(s2 as int),
            e < events.total(),
            uplen == up_e.len(),
            line_views(combined@) =~= up_e.skip(uplen - ca) + tag_lines(
                e as int,
                spec_lines,
            ).take(s2 as int),
            combined@.len() == ca + s2,
            ca <= uplen,
        decreases alines@.len(),
    {
        let ghost pre_deep = alines.deep_view();
        let ghost comb_pre = combined@;
        let line = alines.remove(0);
        let ghost lv = line@;
        proof {
            assert(lv == pre_deep[0]);
            assert(pre_deep[0] == spec_lines.skip(s2 as int)[0]);
            assert(lv == spec_lines[s2 as int]);
        }
        combined.push(
            (LinePointer { event_index: e, subline: s2 }, line),
        );
        proof {
            assert forall|q: int| 0 <= q < alines@.len() implies
                alines.deep_view()[q] == pre_deep[q + 1] by {
            }
            assert(alines.deep_view() =~~= spec_lines.skip(s2 + 1));
            let t1 = tag_lines(e as int, spec_lines).take(s2 + 1);
            let target = up_e.skip(uplen - ca) + t1;
            assert(up_e.skip(uplen - ca).len() == ca);
            assert forall|q: int| 0 <= q < combined@.len() implies
                line_views(combined@)[q] == target[q] by {
                if q < comb_pre.len() {
                    assert(combined@[q] == comb_pre[q]);
                    assert(line_views(comb_pre)[q] == (up_e.skip(
                        uplen - ca,
                    ) + tag_lines(e as int, spec_lines).take(
                        s2 as int,
                    ))[q]);
                    if q >= ca {
                        assert(tag_lines(e as int, spec_lines).take(
                            s2 as int,
                        )[q - ca] == t1[q - ca]);
                    }
                } else {
                    assert(q == ca + s2);
                    assert(combined@[q].0.event_index == e);
                    assert(combined@[q].0.subline == s2);
                    assert(combined@[q].1@ == lv);
                    assert(t1[s2 as int] == (
                        e as int,
                        s2 as int,
                        spec_lines[s2 as int],
                    ));
                    assert(target[q] == t1[s2 as int]);
                }
            }
            assert(line_views(combined@) =~= target);
        }
        s2 = s2 + 1;
    }
    let mut below = below;
    combined.append(&mut below);
    let ghost comb0 = combined@;
    proof {
        assert(tag_lines(e as int, spec_lines).take(n as int)
            =~= tag_lines(e as int, spec_lines));
        lemma_flat_split(*events, st, *formatter, width, e as int);
        assert(flat_from(*events, st, *formatter, width, e as int)
            == tag_lines(e as int, spec_lines) + from_e1);
        assert(fl =~= up_e + tag_lines(e as int, spec_lines) + from_e1);
        assert(line_views(comb0) =~= up_e.skip(uplen - ca) + tag_lines(
            e as int,
            spec_lines,
        ) + from_e1.take(cb as int));
        assert forall|q: int| 0 <= q < comb0.len() implies line_views(
            comb0,
        )[q] == fl[(uplen - ca) + q] by {
            if q < ca {
                assert(fl[(uplen - ca) + q] == up_e[uplen - ca + q]);
            } else if q < ca + n {
                assert(fl[(uplen - ca) + q] == tag_lines(
                    e as int,
                    spec_lines,
                )[q - ca]);
            } else {
                assert(fl[(uplen - ca) + q] == from_e1[q - ca - n]);
            }
        }
        assert(line_views(comb0) =~= fl.subrange(
            uplen - ca,
            uplen - ca + comb0.len(),
        ));
    }
    (combined, ca, cb)
}

/// Taking a subrange commutes with taking the line views.
proof fn lemma_line_views_subrange(v: Seq<(LinePointer, String)>, a: int, b: int)
    requires
        0 <= a <= b <= v.len(),
    ensures
        line_views(v.subrange(a, b)) == line_views(v).subrange(a, b),
{
    assert(line_views(v.subrange(a, b)) =~= line_views(v).subrange(a, b));
}

/// A subrange of a subrange is a subrange.
proof fn lemma_subrange_twice<A>(s: Seq<A>, a: int, b: int, c: int, d: int)
    requires
        0 <= a <= b <= s.len(),
        0 <= c <= d <= b - a,
    ensures
        s.subrange(a, b).subrange(c, d) == s.subrange(a + c, a + d),
{
    assert(s.subrange(a, b).subrange(c, d) =~= s.subrange(a + c, a + d));
}

/// The window around a found visible anchor event.
#[verifier::rlimit(100)]
#[verifier::spinoff_prover]
fn centered_found<F: LogFormatter>(
    events: &CircularBuffer<ExtLogRecord>,
    state: &TuiWidgetInnerState,
    formatter: &F,
    width: usize,
    height: usize,
    lp: LinePointer,
    e: usize,
    evt_ref: &ExtLogRecord,
) -> (out: Vec<(LinePointer, String)>)
    requires
        events.inv(),
        state.config.inv(),
        events.first_live() <= e < events.total(),
        spec_visible(*state, events@[e as int]),
        *evt_ref == events@[e as int],
    ensures
        out@.len() <= height,
        ({
            let st = *state;
            let fl = flat_all(*events, st, *formatter, width);
            let evn = formatter.spec_format(width, events@[e as int]).len() as int;
            let sub = if (lp.subline as int) < evn - 1 {
                lp.subline as int
            } else {
                evn - 1
            };
            let aidx = flat_pos(*events, st, *formatter, width, e as int, sub);
            &&& line_views(out@) == fl.subrange(
                window_lo(aidx, fl.len() as int, height as int),
                window_hi(aidx, fl.len() as int, height as int),
            )
            &&& height >= 1 ==> out@[aidx - window_lo(aidx, fl.len() as int, height as int)].0
                == (LinePointer { event_index: e, subline: sub as usize })
        }),
{
    proof {
        events.lemma_total_bound();
    }
    let ghost st = *state;
    let ghost fl = flat_all(*events, *state, *formatter, width);
    let out: Vec<(LinePointer, String)>;
    let (combined, ca, cb) = build_combined(
        events,
        state,
        formatter,
        width,
        height,
        e,
        evt_ref,
    );
    let mut combined = combined;
    let ghost up_e = flat_upto(*events, st, *formatter, width, e as int);
    let ghost from_e1 = flat_from(*events, st, *formatter, width, e + 1);
    let ghost uplen = up_e.len() as int;
    let ghost fromlen = from_e1.len() as int;
    let ghost comb0 = combined@;
    let n = combined.len() - ca - cb;
    let anchor_sub = if lp.subline < n - 1 {
        lp.subline
    } else {
        n - 1
    };
    let clen = combined.len();
    let p = clen - cb - (n - anchor_sub);
    let center = height / 2;
    let lo0 = if p >= center {
        p - center
    } else {
        0
    };
    let lo: usize;
    let hi: usize;
    if clen - lo0 > height {
        lo = lo0;
        hi = lo0 + height;
    } else {
        hi = clen;
        lo = if clen > height {
            clen - height
        } else {
            0
        };
    }
    proof {
        lemma_window_shift(
            uplen,
            fromlen,
            n as int,
            anchor_sub as int,
            ca as int,
            cb as int,
            height as int,
        );
        assert(fl.len() == uplen + n + fromlen);
        assert((uplen - ca) + lo == window_lo(
            uplen + anchor_sub,
            fl.len() as int,
            height as int,
        ));
        assert((uplen - ca) + hi == window_hi(
            uplen + anchor_sub,
            fl.len() as int,
            height as int,
        ));
    }
    let mut tail = combined.split_off(lo);
    tail.truncate(hi - lo);
    out = tail;
    proof {
        assert(out@ =~= comb0.subrange(lo as int, hi as int));
        lemma_line_views_subrange(comb0, lo as int, hi as int);
        lemma_subrange_twice(
            fl,
            uplen - ca,
            uplen - ca + comb0.len(),
            lo as int,
            hi as int,
        );
        assert(line_views(out@) == fl.subrange(
            (uplen - ca) + lo,
            (uplen - ca) + hi,
        ));
        if height >= 1 {
            lemma_flat_pos(
                *events,
                st,
                *formatter,
                width,
                e as int,
                anchor_sub as int,
            );
            let wlo = window_lo(
                uplen + anchor_sub,
                fl.len() as int,
                height as int,
            );
            assert(line_views(out@)[(uplen + anchor_sub) - wlo] == fl[
                uplen + anchor_sub
            ]);
        }
    }
    out
}

/// The centered-scroll branch of `render_window`: the viewport lines
/// for an anchored widget state.
#[verifier::rlimit(100)]
#[verifier::spinoff_prover]
fn render_centered<F: LogFormatter>(
    events: &CircularBuffer<ExtLogRecord>,
    state: &TuiWidgetInnerState,
    formatter: &F,
    width: usize,
    height: usize,
    lp: LinePointer,
) -> (out: Vec<(LinePointer, String)>)
    requires
        events.inv(),
        state.config.inv(),
    ensures
        out@.len() <= height,
        ({
            let st = *state;
            let fl = flat_all(*events, st, *formatter, width);
            if events.total() == 0 || (lp.event_index as int) < events.first_live() {
                out@.len() == 0
            } else {
                match next_visible_up(*events, st, lp.event_index as int) {
                    None => out@.len() == 0,
                    Some(e) => {
                        let evn = formatter.spec_format(width, events@[e]).len() as int;
                        let sub = if (lp.subline as int) < evn - 1 {
                            lp.subline as int
                        } else {
                            evn - 1
                        };
                        let aidx = flat_pos(*events, st, *formatter, width, e, sub);
                        &&& line_views(out@) == fl.subrange(
                            window_lo(aidx, fl.len() as int, height as int),
                            window_hi(aidx, fl.len() as int, height as int),
                        )
                        &&& height >= 1 ==> out@[aidx - window_lo(
                            aidx,
                            fl.len() as int,
                            height as int,
                        )].0 == (LinePointer { event_index: e as usize, subline: sub as usize })
                    },
                }
            }
        }),
{
    proof {
        events.lemma_total_bound();
    }
    let mut out: Vec<(LinePointer, String)> = Vec::new();
    let total = events.total_elements();
    if total == 0 {
        // No events: nothing to show.
    } else {
        let first = match events.first_index() {
            Some(f) => f,
            None => 0,
        };
        if first > lp.event_index {
            // The anchored event is no longer addressable.
        } else {
            match next_event(events, lp.event_index, false, true, state) {
                None => {
                    // Nothing visible at or after the anchor.
                },
                Some((_next, e, evt_ref)) => {
                    proof {
                        lemma_up_found(*events, *state, lp.event_index as int);
                    }
                    out = centered_found(events, state, formatter, width, height, lp, e, evt_ref);
                },
            }
        }
    }
    out
}

/// Compute the lines of one viewport.
///
/// With no scroll anchor set, the viewport follows the bottom: the
/// last lines of the filtered history. With an anchor, the anchored
/// event line is placed at the middle row and the window grows in both
/// directions, rebalancing against whichever end of the history it
/// runs into; an anchor whose event has been dropped from the buffer
/// or is filtered out yields an empty viewport. The widget state's
/// page-up and page-down pointers are refreshed from the result: page
/// up jumps to the current top line, page down to the current bottom
/// line.
#[verifier::rlimit(100)]
pub fn render_window<F: LogFormatter>(
    events: &CircularBuffer<ExtLogRecord>,
    state: &mut TuiWidgetInnerState,
    formatter: &F,
    width: usize,
    height: usize,
) -> (lines: Vec<(LinePointer, String)>)
    requires
        events.inv(),
        old(state).config.inv(),
    ensures
        final(state).config == old(state).config,
        final(state).nr_items == old(state).nr_items,
        final(state).selected == old(state).selected,
        final(state).opt_line_pointer_center == old(state).opt_line_pointer_center,
        final(state).opt_selected_target == old(state).opt_selected_target,
        final(state).opt_selected_visibility_more == old(state).opt_selected_visibility_more,
        final(state).opt_selected_visibility_less == old(state).opt_selected_visibility_less,
        final(state).opt_selected_recording_more == old(state).opt_selected_recording_more,
        final(state).opt_selected_recording_less == old(state).opt_selected_recording_less,
        final(state).offset == old(state).offset,
        final(state).hide_off == old(state).hide_off,
        final(state).hide_target == old(state).hide_target,
        final(state).focus_selected == old(state).focus_selected,
        lines@.len() <= height,
        final(state).opt_line_pointer_prev_page == (if lines@.len() > 0 {
            Some(lines@[0].0)
        } else {
            None::<LinePointer>
        }),
        final(state).opt_line_pointer_next_page == (if old(state).opt_line_pointer_center is Some
            && lines@.len() > 0 {
            Some(lines@.last().0)
        } else {
            None::<LinePointer>
        }),
        ({
            let st = *old(state);
            let fl = flat_all(*events, st, *formatter, width);
            match st.opt_line_pointer_center {
                None => line_views(lines@) == fl.skip(
                    if fl.len() > height {
                        fl.len() - height
                    } else {
                        0
                    },
                ),
                Some(lp) => if events.total() == 0 || (lp.event_index as int)
                    < events.first_live() {
                    lines@.len() == 0
                } else {
                    match next_visible_up(*events, st, lp.event_index as int) {
                        None => lines@.len() == 0,
                        Some(e) => {
                            let evn = formatter.spec_format(width, events@[e]).len() as int;
                            let sub = if (lp.subline as int) < evn - 1 {
                                lp.subline as int
                            } else {
                                evn - 1
                            };
                            let aidx = flat_pos(*events, st, *formatter, width, e, sub);
                            &&& line_views(lines@) == fl.subrange(
                                window_lo(aidx, fl.len() as int, height as int),
                                window_hi(aidx, fl.len() as int, height as int),
                            )
                            &&& height >= 1 ==> lines@[aidx - window_lo(
                                aidx,
                                fl.len() as int,
                                height as int,
                            )].0 == (LinePointer { event_index: e as usize, subline: sub as usize })
                        },
                    }
                },
            }
        }),
{
    proof {
        events.lemma_total_bound();
    }
    let ghost st = *state;
    let ghost fl = flat_all(*events, *state, *formatter, width);
    let center_opt = state.opt_line_pointer_center;
    let mut out: Vec<(LinePointer, String)> = Vec::new();
    match center_opt {
        None => {
            let total = events.total_elements();
            let rev = collect_down(events, &*state, formatter, width, total, height);
            let ghost rev0 = rev@;
            let ghost c = rev0.len() as int;
            out = reversed(rev);
            proof {
                assert forall|i: int| 0 <= i < out@.len() implies line_views(out@)[i] == fl.skip(
                    fl.len() - c,
                )[i] by {
                    assert(out@[i] == rev0[c - 1 - i]);
                    assert(line_views(rev0)[c - 1 - i] == fl.reverse().take(c)[c - 1 - i]);
                    assert(fl.reverse()[c - 1 - i] == fl[fl.len() - c + i]);
                }
                assert(line_views(out@) =~= fl.skip(fl.len() - c));
                assert(fl.len() - c == if fl.len() > height {
                    fl.len() - height
                } else {
                    0int
                });
            }
        },
        Some(lp) => {
            out = render_centered(events, &*state, formatter, width, height, lp);
        },
    }
    let prev: Option<LinePointer> = if out.len() > 0 {
        Some(out[0].0)
    } else {
        None
    };
    let next: Option<LinePointer> = if center_opt.is_some() && out.len() > 0 {
        Some(out[out.len() - 1].0)
    } else {
        None
    };
    state.opt_line_pointer_prev_page = prev;
    state.opt_line_pointer_next_page = next;
    out
}

} // verus!
