//! The engine's cross-cutting guarantees, stated and proved once.

use vstd::prelude::*;
use crate::circular::CircularBuffer;
use crate::config::merged_level;
use crate::config::clip_to_default;
use crate::levels::LevelFilter;
use crate::levels::filter_ord;

verus! {

/// Ring addressability: after `N` pushes into a buffer of capacity
/// `C`, the buffer holds `min(N, C)` elements, it has wrapped exactly
/// when `N > C`, and the element pushed as number `i` is addressable
/// exactly when `max(0, N - C) <= i < N`.
pub proof fn lemma_ring_addressability<T>(buf: CircularBuffer<T>)
    ensures
        buf.live().len() == vstd::math::min(buf.total() as int, buf.spec_capacity() as int),
        forall|i: int|
            #[trigger] buf.addressable(i) <==> (if buf.total() > buf.spec_capacity() {
                buf.total() - buf.spec_capacity()
            } else {
                0int
            }) <= i < buf.total(),
{
}

/// Iteration order: the backward iteration of a buffer is exactly the
/// reverse of its forward iteration.
pub proof fn lemma_iteration_order<T>(
    buf: CircularBuffer<T>,
    forward: Seq<T>,
    backward: Seq<T>,
)
    requires
        forward == buf.live(),
        backward == buf.live().reverse(),
    ensures
        backward == forward.reverse(),
{
}

/// Merge monotonicity: whatever level a target of the origin table
/// carries after a merge, it is never more verbose than the origin's
/// level for that target; an existing stricter explicit entry is kept
/// unchanged.
pub proof fn lemma_merge_monotonic(
    m: Map<Seq<char>, LevelFilter>,
    dd: Option<LevelFilter>,
    olf: LevelFilter,
    k: Seq<char>,
)
    ensures
        filter_ord(merged_level(m, dd, olf, k)) <= filter_ord(olf),
        m.contains_key(k) && filter_ord(m[k]) <= filter_ord(olf) ==> merged_level(m, dd, olf, k)
            == m[k],
{
    let c = clip_to_default(dd, olf);
    assert(filter_ord(c) <= filter_ord(olf));
}

} // verus!
