//! Per-target level filter table with generation-based change detection.

use vstd::prelude::*;
use crate::levels::LevelFilter;
use crate::levels::filter_ord;

verus! {

/// Whether some entry of `s` has the key `k`.
pub open spec fn has_key(s: Seq<(Seq<char>, LevelFilter)>, k: Seq<char>) -> bool {
    exists|i: int| 0 <= i < s.len() && s[i].0 == k
}

/// The level stored under key `k` (meaningful only when `has_key` holds
/// and keys are unique).
pub open spec fn value_of(s: Seq<(Seq<char>, LevelFilter)>, k: Seq<char>) -> LevelFilter {
    s[choose|i: int| 0 <= i < s.len() && s[i].0 == k].1
}

/// A generation counter bumped by one, held at the top of its range.
pub open spec fn bump_gen(g: u64) -> u64 {
    if g < u64::MAX {
        (g + 1) as u64
    } else {
        g
    }
}

/// Whether the keys of `s` are pairwise distinct.
pub open spec fn unique_keys(s: Seq<(Seq<char>, LevelFilter)>) -> bool {
    forall|i: int, j: int| 0 <= i < j < s.len() ==> s[i].0 != s[j].0
}

/// The level an origin entry of level `olf` is imported as, clipped to
/// the default display level when that is stricter.
pub open spec fn clip_to_default(dd: Option<LevelFilter>, olf: LevelFilter) -> LevelFilter {
    match dd {
        Some(d) => if filter_ord(d) > filter_ord(olf) {
            olf
        } else {
            d
        },
        None => olf,
    }
}

/// The level a target `k` of an origin table ends up with after a merge:
/// an existing entry at most as verbose as the origin's is kept, anything
/// else is replaced by the origin's level clipped to the default display
/// level.
pub open spec fn merged_level(
    m: Map<Seq<char>, LevelFilter>,
    dd: Option<LevelFilter>,
    olf: LevelFilter,
    k: Seq<char>,
) -> LevelFilter {
    if m.contains_key(k) && filter_ord(m[k]) <= filter_ord(olf) {
        m[k]
    } else {
        clip_to_default(dd, olf)
    }
}

/// Table mapping a target name to a level filter, with a generation
/// counter that is bumped on every effective change, and a record of the
/// last generation of an upstream table that was merged in.
///
/// The view of the table is the map from target names to levels.
pub struct LevelConfig {
    entries: Vec<(String, LevelFilter)>,
    generation: u64,
    origin_generation: u64,
    default_display_level: Option<LevelFilter>,
}

impl View for LevelConfig {
    type V = Map<Seq<char>, LevelFilter>;

    closed spec fn view(&self) -> Map<Seq<char>, LevelFilter> {
        Map::new(
            |k: Seq<char>| has_key(self.entry_seq(), k),
            |k: Seq<char>| value_of(self.entry_seq(), k),
        )
    }
}

proof fn lemma_unique_value(s: Seq<(Seq<char>, LevelFilter)>, i: int)
    requires
        unique_keys(s),
        0 <= i < s.len(),
    ensures
        has_key(s, s[i].0),
        value_of(s, s[i].0) == s[i].1,
{
    let k = s[i].0;
    assert(has_key(s, k));
    let j = choose|j: int| 0 <= j < s.len() && s[j].0 == k;
    if i < j {
        assert(s[i].0 != s[j].0);
    } else if j < i {
        assert(s[j].0 != s[i].0);
    }
}

impl LevelConfig {
    /// The entries as a sequence of (key, level) pairs, in insertion
    /// order.
    pub closed spec fn entry_seq(&self) -> Seq<(Seq<char>, LevelFilter)> {
        self.entries@.map(|i: int, e: (String, LevelFilter)| (e.0@, e.1))
    }

    /// The keys in insertion order.
    pub open spec fn spec_keys(&self) -> Seq<Seq<char>> {
        self.entry_seq().map(|i: int, e: (Seq<char>, LevelFilter)| e.0)
    }

    /// Generation counter, bumped on every effective change.
    pub closed spec fn spec_generation(&self) -> u64 {
        self.generation
    }

    /// Generation of the upstream table at the last merge.
    pub closed spec fn spec_origin_generation(&self) -> u64 {
        self.origin_generation
    }

    /// The default display level for targets seeded by a merge.
    pub closed spec fn spec_default_display_level(&self) -> Option<LevelFilter> {
        self.default_display_level
    }

    /// Internal well-formedness: target keys are pairwise distinct.
    pub closed spec fn inv(&self) -> bool {
        unique_keys(self.entry_seq())
    }

    /// Create an empty table.
    pub fn new() -> (r: LevelConfig)
        ensures
            r.inv(),
            r@ == Map::<Seq<char>, LevelFilter>::empty(),
            r.spec_keys() == Seq::<Seq<char>>::empty(),
            r.spec_generation() == 0,
            r.spec_origin_generation() == 0,
            r.spec_default_display_level() is None,
    {
        let r = LevelConfig {
            entries: Vec::new(),
            generation: 0,
            origin_generation: 0,
            default_display_level: None,
        };
        proof {
            assert(r@ =~= Map::<Seq<char>, LevelFilter>::empty());
            assert(r.spec_keys() =~= Seq::<Seq<char>>::empty());
        }
        r
    }

    /// Set the default display level for targets first seen in a merge,
    /// independent from recording.
    pub fn set_default_display_level(&mut self, level: LevelFilter)
        requires
            old(self).inv(),
        ensures
            final(self).inv(),
            final(self)@ == old(self)@,
            final(self).spec_keys() == old(self).spec_keys(),
            final(self).spec_generation() == old(self).spec_generation(),
            final(self).spec_origin_generation() == old(self).spec_origin_generation(),
            final(self).spec_default_display_level() == Some(level),
    {
        self.default_display_level = Some(level);
    }

    /// The default display level for targets first seen in a merge.
    pub fn get_default_display_level(&self) -> (r: Option<LevelFilter>)
        ensures
            r == self.spec_default_display_level(),
    {
        self.default_display_level
    }

    /// The index of the entry with the given key, if present.
    fn position_of(&self, key: &String) -> (r: Option<usize>)
        ensures
            match r {
                Some(i) => i < self.entry_seq().len() && self.entry_seq()[i as int].0 == key@,
                None => !has_key(self.entry_seq(), key@),
            },
    {
        let n = self.entries.len();
        let mut i: usize = 0;
        while i < n
            invariant
                n == self.entry_seq().len(),
                i <= n,
                forall|j: int| 0 <= j < i ==> self.entry_seq()[j].0 != key@,
            decreases n - i,
        {
            if self.entries[i].0 == *key {
                return Some(i);
            }
            i = i + 1;
        }
        None
    }

    /// The level filter configured for a target, or `None` for an
    /// unknown target.
    pub fn get(&self, target: &str) -> (r: Option<LevelFilter>)
        requires
            self.inv(),
        ensures
            r == if self@.contains_key(target@) {
                Some(self@[target@])
            } else {
                None::<LevelFilter>
            },
    {
        let key: String = target.to_owned();
        match self.position_of(&key) {
            Some(i) => {
                proof {
                    lemma_unique_value(self.entry_seq(), i as int);
                }
                Some(self.entries[i].1)
            },
            None => None,
        }
    }

    /// Set the level filter for a target. The generation is bumped only
    /// on an effective change.
    pub fn set(&mut self, target: &str, level: LevelFilter)
        requires
            old(self).inv(),
        ensures
            final(self).inv(),
            final(self)@ == old(self)@.insert(target@, level),
            final(self).spec_keys() == if old(self)@.contains_key(target@) {
                old(self).spec_keys()
            } else {
                old(self).spec_keys().push(target@)
            },
            final(self).spec_generation() == if old(self)@.contains_key(target@) && old(self)@[target@]
                == level {
                old(self).spec_generation()
            } else {
                bump_gen(old(self).spec_generation())
            },
            final(self).spec_origin_generation() == old(self).spec_origin_generation(),
            final(self).spec_default_display_level() == old(self).spec_default_display_level(),
    {
        let key: String = target.to_owned();
        match self.position_of(&key) {
            Some(i) => {
                proof {
                    lemma_unique_value(self.entry_seq(), i as int);
                }
                if self.entries[i].1 == level {
                    proof {
                        assert(self@ =~= old(self)@.insert(target@, level));
                        assert(self.spec_keys() =~= old(self).spec_keys());
                    }
                } else {
                    self.entries.set(i, (key, level));
                    if self.generation < u64::MAX {
                        self.generation = self.generation + 1;
                    }
                    proof {
                        let s_old = old(self).entry_seq();
                        let s_new = self.entry_seq();
                        assert(s_new =~= s_old.update(i as int, (target@, level)));
                        assert forall|k2: Seq<char>| true implies #[trigger] self@.contains_key(k2)
                            == old(self)@.insert(target@, level).contains_key(k2) by {
                            if has_key(s_old, k2) {
                                let w = choose|w: int| 0 <= w < s_old.len() && s_old[w].0 == k2;
                                assert(s_new[w].0 == k2);
                            }
                            if has_key(s_new, k2) {
                                let w = choose|w: int| 0 <= w < s_new.len() && s_new[w].0 == k2;
                                assert(s_old[w].0 == k2 || k2 == target@);
                            }
                        }
                        assert forall|k2: Seq<char>| self@.contains_key(k2) implies #[trigger] self@[k2]
                            == old(self)@.insert(target@, level)[k2] by {
                            let w = choose|w: int| 0 <= w < s_new.len() && s_new[w].0 == k2;
                            lemma_unique_value(s_new, w);
                            if k2 == target@ {
                                lemma_unique_value(s_new, i as int);
                            } else {
                                assert(w != i);
                                lemma_unique_value(s_old, w);
                            }
                        }
                        assert(self@ =~= old(self)@.insert(target@, level));
                        assert(self.spec_keys() =~= old(self).spec_keys());
                    }
                }
            },
            None => {
                self.entries.push((key, level));
                if self.generation < u64::MAX {
                    self.generation = self.generation + 1;
                }
                proof {
                    let s_old = old(self).entry_seq();
                    let s_new = self.entry_seq();
                    let n = s_old.len() as int;
                    assert(s_new =~= s_old.push((target@, level)));
                    assert forall|k2: Seq<char>| true implies #[trigger] self@.contains_key(k2)
                        == old(self)@.insert(target@, level).contains_key(k2) by {
                        if has_key(s_old, k2) {
                            let w = choose|w: int| 0 <= w < s_old.len() && s_old[w].0 == k2;
                            assert(s_new[w].0 == k2);
                        }
                        if k2 == target@ {
                            assert(s_new[n].0 == k2);
                        }
                        if has_key(s_new, k2) {
                            let w = choose|w: int| 0 <= w < s_new.len() && s_new[w].0 == k2;
                            assert(s_old[w].0 == k2 || k2 == target@);
                        }
                    }
                    assert forall|k2: Seq<char>| self@.contains_key(k2) implies #[trigger] self@[k2]
                        == old(self)@.insert(target@, level)[k2] by {
                        let w = choose|w: int| 0 <= w < s_new.len() && s_new[w].0 == k2;
                        lemma_unique_value(s_new, w);
                        if k2 == target@ {
                            lemma_unique_value(s_new, n);
                        } else {
                            assert(w != n);
                            lemma_unique_value(s_old, w);
                        }
                    }
                    assert(self@ =~= old(self)@.insert(target@, level));
                    assert(self.spec_keys() =~= old(self).spec_keys().push(target@));
                }
            },
        }
    }

    /// All configured targets, in insertion order.
    pub fn keys(&self) -> (r: Vec<String>)
        ensures
            r@.len() == self.spec_keys().len(),
            forall|i: int| 0 <= i < r@.len() ==> r@[i]@ == self.spec_keys()[i],
    {
        let n = self.entries.len();
        let mut out: Vec<String> = Vec::new();
        let mut i: usize = 0;
        while i < n
            invariant
                n == self.entry_seq().len(),
                i <= n,
                out@.len() == i,
                forall|j: int| 0 <= j < i ==> out@[j]@ == self.spec_keys()[j],
            decreases n - i,
        {
            out.push(self.entries[i].0.clone());
            i = i + 1;
        }
        out
    }

    /// All entries as (target, level) pairs, in insertion order.
    pub fn iter(&self) -> (r: Vec<(String, LevelFilter)>)
        ensures
            r@.len() == self.entry_seq().len(),
            forall|i: int|
                0 <= i < r@.len() ==> r@[i].0@ == self.entry_seq()[i].0 && r@[i].1
                    == self.entry_seq()[i].1,
    {
        let n = self.entries.len();
        let mut out: Vec<(String, LevelFilter)> = Vec::new();
        let mut i: usize = 0;
        while i < n
            invariant
                n == self.entry_seq().len(),
                i <= n,
                out@.len() == i,
                forall|j: int|
                    0 <= j < i ==> out@[j].0@ == self.entry_seq()[j].0 && out@[j].1
                        == self.entry_seq()[j].1,
            decreases n - i,
        {
            let e = &self.entries[i];
            out.push((e.0.clone(), e.1));
            i = i + 1;
        }
        out
    }

    /// Insert without touching the generation counter; used by `merge`,
    /// which accounts for its changes as a whole.
    fn set_entry(&mut self, key: String, level: LevelFilter)
        requires
            old(self).inv(),
        ensures
            final(self).inv(),
            final(self)@ == old(self)@.insert(key@, level),
            final(self).spec_keys() == if old(self)@.contains_key(key@) {
                old(self).spec_keys()
            } else {
                old(self).spec_keys().push(key@)
            },
            final(self).spec_generation() == old(self).spec_generation(),
            final(self).spec_origin_generation() == old(self).spec_origin_generation(),
            final(self).spec_default_display_level() == old(self).spec_default_display_level(),
    {
        let ghost kview = key@;
        match self.position_of(&key) {
            Some(i) => {
                proof {
                    lemma_unique_value(self.entry_seq(), i as int);
                }
                self.entries.set(i, (key, level));
                proof {
                    let s_old = old(self).entry_seq();
                    let s_new = self.entry_seq();
                    assert(s_new =~= s_old.update(i as int, (kview, level)));
                    assert forall|k2: Seq<char>| true implies #[trigger] self@.contains_key(k2)
                        == old(self)@.insert(kview, level).contains_key(k2) by {
                        if has_key(s_old, k2) {
                            let w = choose|w: int| 0 <= w < s_old.len() && s_old[w].0 == k2;
                            assert(s_new[w].0 == k2);
                        }
                        if has_key(s_new, k2) {
                            let w = choose|w: int| 0 <= w < s_new.len() && s_new[w].0 == k2;
                            assert(s_old[w].0 == k2 || k2 == kview);
                        }
                    }
                    assert forall|k2: Seq<char>| self@.contains_key(k2) implies #[trigger] self@[k2]
                        == old(self)@.insert(kview, level)[k2] by {
                        let w = choose|w: int| 0 <= w < s_new.len() && s_new[w].0 == k2;
                        lemma_unique_value(s_new, w);
                        if k2 == kview {
                            lemma_unique_value(s_new, i as int);
                        } else {
                            assert(w != i);
                            lemma_unique_value(s_old, w);
                        }
                    }
                    assert(self@ =~= old(self)@.insert(kview, level));
                    assert(self.spec_keys() =~= old(self).spec_keys());
                }
            },
            None => {
                self.entries.push((key, level));
                proof {
                    let s_old = old(self).entry_seq();
                    let s_new = self.entry_seq();
                    let n = s_old.len() as int;
                    assert(s_new =~= s_old.push((kview, level)));
                    assert forall|k2: Seq<char>| true implies #[trigger] self@.contains_key(k2)
                        == old(self)@.insert(kview, level).contains_key(k2) by {
                        if has_key(s_old, k2) {
                            let w = choose|w: int| 0 <= w < s_old.len() && s_old[w].0 == k2;
                            assert(s_new[w].0 == k2);
                        }
                        if k2 == kview {
                            assert(s_new[n].0 == k2);
                        }
                        if has_key(s_new, k2) {
                            let w = choose|w: int| 0 <= w < s_new.len() && s_new[w].0 == k2;
                            assert(s_old[w].0 == k2 || k2 == kview);
                        }
                    }
                    assert forall|k2: Seq<char>| self@.contains_key(k2) implies #[trigger] self@[k2]
                        == old(self)@.insert(kview, level)[k2] by {
                        let w = choose|w: int| 0 <= w < s_new.len() && s_new[w].0 == k2;
                        lemma_unique_value(s_new, w);
                        if k2 == kview {
                            lemma_unique_value(s_new, n);
                        } else {
                            assert(w != n);
                            lemma_unique_value(s_old, w);
                        }
                    }
                    assert(self@ =~= old(self)@.insert(kview, level));
                    assert(self.spec_keys() =~= old(self).spec_keys().push(kview));
                }
            },
        }
    }

    /// Merge an origin table into this one.
    ///
    /// The origin defines the verbosity ceiling: for every target of the
    /// origin, an existing entry that is at most as verbose is kept,
    /// anything else (including unknown targets) is set to the origin's
    /// level, clipped to the default display level when that is
    /// stricter. The whole import is skipped when the origin's
    /// generation has not changed since the last merge.
    pub fn merge(&mut self, origin: &LevelConfig)
        requires
            old(self).inv(),
            origin.inv(),
        ensures
            final(self).inv(),
            final(self).spec_default_display_level() == old(self).spec_default_display_level(),
            old(self).spec_origin_generation() == origin.spec_generation() ==> *final(self)
                == *old(self),
            old(self).spec_origin_generation() != origin.spec_generation() ==> {
                &&& final(self).spec_origin_generation() == origin.spec_generation()
                &&& forall|k: Seq<char>|
                    #[trigger] final(self)@.contains_key(k) <==> old(self)@.contains_key(k)
                        || origin@.contains_key(k)
                &&& forall|k: Seq<char>|
                    !origin@.contains_key(k) && old(self)@.contains_key(k)
                        ==> #[trigger] final(self)@[k] == old(self)@[k]
                &&& forall|k: Seq<char>|
                    #[trigger] origin@.contains_key(k) ==> final(self)@[k] == merged_level(
                        old(self)@,
                        old(self).spec_default_display_level(),
                        origin@[k],
                        k,
                    )
                &&& old(self).spec_generation() <= final(self).spec_generation()
                &&& final(self).spec_generation() <= bump_gen(old(self).spec_generation())
                &&& old(self).spec_generation() < u64::MAX ==> (final(self).spec_generation()
                    == old(self).spec_generation() <==> final(self)@ =~= old(self)@)
            },
    {
        if self.origin_generation == origin.generation {
            return ;
        }
        let ghost m_old = self@;
        let ghost dd = self.default_display_level;
        let n = origin.entries.len();
        let mut changed = false;
        let mut j: usize = 0;
        while j < n
            invariant
                self.inv(),
                n == origin.entry_seq().len(),
                j <= n,
                unique_keys(origin.entry_seq()),
                m_old == old(self)@,
                dd == old(self).spec_default_display_level(),
                self.spec_generation() == old(self).spec_generation(),
                self.spec_origin_generation() == old(self).spec_origin_generation(),
                self.spec_default_display_level() == dd,
                forall|k: Seq<char>|
                    #[trigger] self@.contains_key(k) <==> m_old.contains_key(k) || exists|i: int|
                        0 <= i < j && origin.entry_seq()[i].0 == k,
                forall|k: Seq<char>|
                    self@.contains_key(k) && !(exists|i: int|
                        0 <= i < j && origin.entry_seq()[i].0 == k) ==> #[trigger] self@[k]
                        == m_old[k],
                forall|i: int|
                    0 <= i < j ==> #[trigger] self@[origin.entry_seq()[i].0] == merged_level(
                        m_old,
                        dd,
                        origin.entry_seq()[i].1,
                        origin.entry_seq()[i].0,
                    ),
                changed <==> !(self@ =~= m_old),
            decreases n - j,
        {
            let ghost s_orig = origin.entry_seq();
            let ghost k = s_orig[j as int].0;
            let ghost m_pre = self@;
            let olf = origin.entries[j].1;
            let cur = self.get(origin.entries[j].0.as_str());
            let keep = match cur {
                Some(lf) => lf.le(olf),
                None => false,
            };
            if !keep {
                let newlf = match self.default_display_level {
                    Some(d) => if olf.ord() < d.ord() {
                        olf
                    } else {
                        d
                    },
                    None => olf,
                };
                let was_same = match cur {
                    Some(lf) => lf == newlf,
                    None => false,
                };
                let key = origin.entries[j].0.clone();
                self.set_entry(key, newlf);
                if !was_same {
                    changed = true;
                    proof {
                        assert(self@[k] != m_pre[k] || !m_pre.contains_key(k));
                        assert(!(self@ =~= m_old));
                    }
                } else {
                    proof {
                        assert(self@ =~= m_pre);
                    }
                }
            }
            proof {
                // The value now stored under this origin key is the merged
                // level; keys of earlier iterations are untouched because
                // the origin's keys are unique.
                assert(self@.contains_key(k));
                assert(self@[k] == merged_level(m_old, dd, s_orig[j as int].1, k));
                assert forall|i: int| 0 <= i < j + 1 implies #[trigger] self@[s_orig[i].0]
                    == merged_level(m_old, dd, s_orig[i].1, s_orig[i].0) by {
                    if i < j {
                        assert(s_orig[i].0 != k);
                    }
                }
            }
            j = j + 1;
        }
        if changed && self.generation < u64::MAX {
            self.generation = self.generation + 1;
        }
        self.origin_generation = origin.generation;
        proof {
            assert forall|k: Seq<char>| #[trigger] origin@.contains_key(k) implies self@[k]
                == merged_level(m_old, dd, origin@[k], k) by {
                let w = choose|w: int|
                    0 <= w < origin.entry_seq().len() && origin.entry_seq()[w].0 == k;
                lemma_unique_value(origin.entry_seq(), w);
            }
            assert forall|k: Seq<char>| #[trigger] self@.contains_key(k) <==> (m_old.contains_key(k)
                || origin@.contains_key(k)) by {
                if exists|i: int|
                    0 <= i < origin.entry_seq().len() && origin.entry_seq()[i].0 == k {
                    let w = choose|w: int|
                        0 <= w < origin.entry_seq().len() && origin.entry_seq()[w].0 == k;
                    lemma_unique_value(origin.entry_seq(), w);
                }
            }
            assert forall|k: Seq<char>| !origin@.contains_key(k) && self@.contains_key(k) implies self@[k]
                == m_old[k] by {
                if exists|i: int|
                    0 <= i < origin.entry_seq().len() && origin.entry_seq()[i].0 == k {
                    let w = choose|w: int|
                        0 <= w < origin.entry_seq().len() && origin.entry_seq()[w].0 == k;
                    lemma_unique_value(origin.entry_seq(), w);
                }
            }
        }
    }
}

} // verus!
