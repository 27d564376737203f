//! Fixed-capacity ring buffer over the last elements of an endless
//! sequence of pushes.

use vstd::prelude::*;
use vstd::pervasive::VecAdditionalExecFns;
use vstd::arithmetic::div_mod::lemma_small_mod;
use vstd::arithmetic::div_mod::lemma_mod_bound;
use vstd::arithmetic::div_mod::lemma_mod_equivalence;
use vstd::arithmetic::div_mod::lemma_fundamental_div_mod;
use vstd::arithmetic::div_mod::lemma_fundamental_div_mod_converse_mod;

verus! {

/// A ring buffer of fixed capacity. Until the capacity is reached,
/// `push` appends; afterwards it overwrites the oldest element. The
/// buffer also counts how many elements were ever pushed, and an element
/// is addressable by its absolute push index as long as it is among the
/// most recent `capacity` pushes.
///
/// The view of the buffer is the entire push history; the addressable
/// suffix of that history is `self.live()`.
pub struct CircularBuffer<T> {
    buffer: Vec<T>,
    max_depth: usize,
    next_write_pos: usize,
    history: Ghost<Seq<T>>,
}

impl<T> View for CircularBuffer<T> {
    type V = Seq<T>;

    closed spec fn view(&self) -> Seq<T> {
        self.history@
    }
}

impl<T> CircularBuffer<T> {
    /// The fixed capacity the buffer was created with.
    pub closed spec fn spec_capacity(&self) -> nat {
        self.max_depth as nat
    }

    /// Total number of elements ever pushed.
    pub open spec fn total(&self) -> nat {
        self@.len()
    }

    /// Absolute index of the oldest element that is still addressable.
    pub open spec fn first_live(&self) -> int {
        if self.total() > self.spec_capacity() {
            self.total() - self.spec_capacity()
        } else {
            0
        }
    }

    /// Whether the element pushed as number `i` (counting from 0) is
    /// still addressable.
    pub open spec fn addressable(&self, i: int) -> bool {
        self.first_live() <= i < self.total()
    }

    /// The addressable suffix of the push history, oldest first.
    pub open spec fn live(&self) -> Seq<T> {
        self@.subrange(self.first_live(), self.total() as int)
    }

    /// Internal well-formedness: the vector holds the addressable
    /// elements at their index modulo the capacity.
    pub closed spec fn inv(&self) -> bool {
        &&& self.next_write_pos == self.history@.len()
        &&& self.buffer@.len() == self.live().len()
        &&& forall|i: int|
            self.first_live() <= i < self.total() ==> self.buffer@[i % (self.max_depth as int)]
                == self.history@[i]
    }

    /// The push history always fits the machine's count type.
    pub proof fn lemma_total_bound(&self)
        requires
            self.inv(),
        ensures
            self@.len() <= usize::MAX,
    {
    }

    /// Create a buffer that can hold `max_depth` elements.
    pub fn new(max_depth: usize) -> (r: CircularBuffer<T>)
        ensures
            r.inv(),
            r@ == Seq::<T>::empty(),
            r.spec_capacity() == max_depth,
    {
        CircularBuffer {
            buffer: Vec::new(),
            max_depth,
            next_write_pos: 0,
            history: Ghost(Seq::empty()),
        }
    }

    /// Number of elements present in the buffer.
    pub fn len(&self) -> (r: usize)
        requires
            self.inv(),
        ensures
            r == self.live().len(),
    {
        self.buffer.len()
    }

    /// Whether no element is present.
    pub fn is_empty(&self) -> (r: bool)
        requires
            self.inv(),
        ensures
            r == (self.live().len() == 0),
    {
        self.buffer.is_empty()
    }

    /// The fixed capacity.
    pub fn capacity(&self) -> (r: usize)
        requires
            self.inv(),
        ensures
            r == self.spec_capacity(),
    {
        self.max_depth
    }

    /// Total number of elements ever pushed.
    pub fn total_elements(&self) -> (r: usize)
        requires
            self.inv(),
        ensures
            r == self.total(),
    {
        self.next_write_pos
    }

    /// Whether elements have been overwritten.
    pub fn has_wrapped(&self) -> (r: bool)
        requires
            self.inv(),
        ensures
            r == (self.total() > self.spec_capacity()),
    {
        self.next_write_pos > self.max_depth
    }

    /// Absolute index of the oldest addressable element, or `None` if
    /// nothing was pushed yet.
    pub fn first_index(&self) -> (r: Option<usize>)
        requires
            self.inv(),
        ensures
            r == if self.total() == 0 {
                Option::<usize>::None
            } else {
                Option::<usize>::Some(self.first_live() as usize)
            },
    {
        if self.next_write_pos == 0 {
            None
        } else if self.next_write_pos < self.max_depth {
            Some(0)
        } else {
            Some(self.next_write_pos - self.max_depth)
        }
    }

    /// Absolute index of the newest element, or `None` if nothing was
    /// pushed yet.
    pub fn last_index(&self) -> (r: Option<usize>)
        requires
            self.inv(),
        ensures
            r == if self.total() == 0 {
                Option::<usize>::None
            } else {
                Option::<usize>::Some((self.total() - 1) as usize)
            },
    {
        if self.next_write_pos == 0 {
            None
        } else {
            Some(self.next_write_pos - 1)
        }
    }

    /// The element pushed as number `index`, if it is still addressable.
    pub fn element_at_index(&self, index: usize) -> (r: Option<&T>)
        requires
            self.inv(),
        ensures
            match r {
                Some(x) => self.addressable(index as int) && *x == self@[index as int],
                None => !self.addressable(index as int),
            },
    {
        if index >= self.next_write_pos {
            return None;
        }
        if self.next_write_pos - index > self.max_depth {
            return None;
        }
        proof {
            lemma_mod_bound(index as int, self.max_depth as int);
            if self.total() <= self.spec_capacity() {
                lemma_small_mod(index as nat, self.max_depth as nat);
            }
        }
        Some(&self.buffer[index % self.max_depth])
    }

    /// Push a new element. Until the capacity is reached elements are
    /// appended; afterwards the oldest element is overwritten. A buffer
    /// of capacity zero keeps counting but holds nothing.
    pub fn push(&mut self, elem: T)
        requires
            old(self).inv(),
            old(self).total() < usize::MAX,
        ensures
            final(self).inv(),
            final(self)@ == old(self)@.push(elem),
            final(self).spec_capacity() == old(self).spec_capacity(),
    {
        let max_depth = self.max_depth;
        let ghost old_total = self.history@.len() as int;
        if max_depth == 0 {
            // Degenerate capacity: nothing is retained.
        } else if self.buffer.len() < max_depth {
            self.buffer.push(elem);
            proof {
                lemma_small_mod(old_total as nat, max_depth as nat);
            }
        } else {
            let slot = self.next_write_pos % max_depth;
            proof {
                lemma_mod_bound(old_total, max_depth as int);
            }
            self.buffer.set(slot, elem);
        }
        self.next_write_pos = self.next_write_pos + 1;
        proof {
            self.history@ = self.history@.push(elem);
        }
        proof {
            let cap = max_depth as int;
            let total = old_total + 1;
            if max_depth > 0 {
                assert forall|i: int| self.first_live() <= i < total implies self.buffer@[i % cap]
                    == self.history@[i] by {
                    lemma_mod_bound(i, cap);
                    if old_total < cap {
                        // The buffer was not yet full: the new element sits
                        // at slot `old_total`, older elements keep theirs.
                        lemma_small_mod(i as nat, cap as nat);
                    } else if i == old_total {
                        lemma_mod_bound(old_total, cap);
                    } else {
                        // An older element in the addressable window keeps
                        // its slot: its index differs from the overwritten
                        // one by less than the capacity, so the two slots
                        // differ.
                        lemma_mod_bound(old_total, cap);
                        if i % cap == old_total % cap {
                            lemma_mod_equivalence(old_total, i, cap);
                            assert((old_total - i) % cap == 0);
                            lemma_small_mod((old_total - i) as nat, cap as nat);
                            assert(false);
                        }
                    }
                }
            }
        }
    }

    /// Take out all addressable elements, oldest first, leaving an empty
    /// buffer (capacity preserved, push counter reset).
    pub fn take(&mut self) -> (r: Vec<T>)
        requires
            old(self).inv(),
        ensures
            final(self).inv(),
            r@ == old(self).live(),
            final(self)@ == Seq::<T>::empty(),
            final(self).spec_capacity() == old(self).spec_capacity(),
    {
        let ghost old_self = *self;
        let mut consumed: Vec<T> = Vec::new();
        let max_depth = self.max_depth;
        if self.buffer.len() < max_depth || max_depth == 0 {
            consumed.append(&mut self.buffer);
            proof {
                assert forall|k: int| 0 <= k < consumed@.len() implies consumed@[k]
                    == old_self.live()[k] by {
                    lemma_small_mod(k as nat, max_depth as nat);
                }
                assert(consumed@ =~= old_self.live());
            }
        } else {
            let pos = self.next_write_pos % max_depth;
            proof {
                lemma_mod_bound(self.next_write_pos as int, max_depth as int);
            }
            let mut xvec = self.buffer.split_off(pos);
            consumed.append(&mut xvec);
            consumed.append(&mut self.buffer);
            proof {
                let cap = max_depth as int;
                let total = old_self.total() as int;
                let first = old_self.first_live();
                let q = total / cap;
                lemma_fundamental_div_mod(total, cap);
                assert forall|k: int| 0 <= k < consumed@.len() implies consumed@[k]
                    == old_self.live()[k] by {
                    // live[k] sits in slot (first + k) % cap; the first
                    // cap - pos entries of `consumed` came from the tail
                    // of the vector, the rest from its head.
                    let i = first + k;
                    assert(cap * (q - 1) == cap * q - cap) by (nonlinear_arith);
                    if k < cap - pos {
                        assert(i == (q - 1) * cap + (pos + k)) by (nonlinear_arith)
                            requires
                                i == first + k,
                                first == total - cap,
                                total == cap * q + pos,
                        ;
                        lemma_fundamental_div_mod_converse_mod(i, cap, q - 1, pos + k);
                    } else {
                        assert(i == q * cap + (pos + k - cap)) by (nonlinear_arith)
                            requires
                                i == first + k,
                                first == total - cap,
                                total == cap * q + pos,
                        ;
                        lemma_fundamental_div_mod_converse_mod(i, cap, q, pos + k - cap);
                    }
                }
                assert(consumed@ =~= old_self.live());
            }
        }
        self.next_write_pos = 0;
        proof {
            self.history@ = Seq::empty();
        }
        consumed
    }
}

impl<T: Copy> CircularBuffer<T> {
    /// All addressable elements in push order (oldest to newest).
    pub fn iter(&self) -> (r: Vec<T>)
        requires
            self.inv(),
        ensures
            r@ == self.live(),
    {
        let mut out: Vec<T> = Vec::new();
        let cap = self.max_depth;
        let total = self.next_write_pos;
        let first: usize = if total > cap {
            total - cap
        } else {
            0
        };
        let mut i: usize = first;
        while i < total
            invariant
                self.inv(),
                cap == self.spec_capacity(),
                total == self.total(),
                first == self.first_live(),
                first <= i <= total,
                out@ == self@.subrange(first as int, i as int),
            decreases total - i,
        {
            proof {
                lemma_mod_bound(i as int, cap as int);
                if total <= cap {
                    lemma_small_mod(i as nat, cap as nat);
                }
            }
            out.push(self.buffer[i % cap]);
            i = i + 1;
            proof {
                assert(out@ =~= self@.subrange(first as int, i as int));
            }
        }
        proof {
            assert(out@ =~= self.live());
        }
        out
    }

    /// All addressable elements in reverse push order (newest to oldest).
    pub fn rev_iter(&self) -> (r: Vec<T>)
        requires
            self.inv(),
        ensures
            r@ == self.live().reverse(),
    {
        let mut out: Vec<T> = Vec::new();
        let cap = self.max_depth;
        let total = self.next_write_pos;
        let first: usize = if total > cap {
            total - cap
        } else {
            0
        };
        let mut i: usize = total;
        while i > first
            invariant
                self.inv(),
                cap == self.spec_capacity(),
                total == self.total(),
                first == self.first_live(),
                first <= i <= total,
                out@.len() == total - i,
                forall|k: int|
                    0 <= k < out@.len() ==> out@[k] == self@[total - 1 - k],
            decreases i - first,
        {
            i = i - 1;
            proof {
                lemma_mod_bound(i as int, cap as int);
                if total <= cap {
                    lemma_small_mod(i as nat, cap as nat);
                }
            }
            out.push(self.buffer[i % cap]);
        }
        proof {
            assert(out@ =~= self.live().reverse());
        }
        out
    }
}

} // verus!
