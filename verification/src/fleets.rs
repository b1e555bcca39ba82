//! Fleets on the move, keyed by their shared destination point.
//!
//! When a group of ships is sent to one point in space they form a fleet:
//! the map remembers, under that point, every ship of the group. When one of
//! them arrives, the whole fleet is looked up and everyone still bound for
//! that point stops.

use vstd::prelude::*;

use crate::geom::Vec3Fix;

verus! {

/// The mathematical contents of an association list: later entries win.
pub open spec fn entries_map(s: Seq<(Vec3Fix, Vec<u64>)>) -> Map<Vec3Fix, Seq<u64>>
    decreases s.len(),
{
    if s.len() == 0 {
        Map::empty()
    } else {
        entries_map(s.drop_last()).insert(s.last().0, s.last().1@)
    }
}

/// The map contains exactly the keys of the list.
proof fn lemma_entries_map_dom(s: Seq<(Vec3Fix, Vec<u64>)>, k: Vec3Fix)
    ensures
        entries_map(s).contains_key(k) <==> exists|i: int|
            0 <= i < s.len() && (#[trigger] s[i]).0 == k,
    decreases s.len(),
{
    if s.len() > 0 {
        lemma_entries_map_dom(s.drop_last(), k);
        if s.last().0 == k {
            assert(s[s.len() - 1].0 == k);
        } else if entries_map(s).contains_key(k) {
            let i = choose|i: int| 0 <= i < s.drop_last().len() && (#[trigger] s.drop_last()[i]).0 == k;
            assert(s[i].0 == k);
        } else {
            assert forall|i: int| 0 <= i < s.len() && (#[trigger] s[i]).0 == k implies false by {
                if i < s.len() - 1 {
                    assert(s.drop_last()[i].0 == k);
                }
            }
        }
    }
}

/// Removing the entry at `i` (the only one with its key) removes that key.
proof fn lemma_entries_map_remove(s: Seq<(Vec3Fix, Vec<u64>)>, i: int)
    requires
        0 <= i < s.len(),
        forall|a: int, b: int|
            0 <= a < b < s.len() ==> (#[trigger] s[a]).0 != (#[trigger] s[b]).0,
    ensures
        entries_map(s.remove(i)) == entries_map(s).remove(s[i].0),
    decreases s.len(),
{
    let k = s[i].0;
    if i == s.len() - 1 {
        assert(s.remove(i) =~= s.drop_last());
        lemma_entries_map_dom(s.drop_last(), k);
        assert(forall|a: int|
            0 <= a < s.drop_last().len() ==> (#[trigger] s.drop_last()[a]).0 == s[a].0);
        assert(!entries_map(s.drop_last()).contains_key(k));
        assert(entries_map(s.drop_last()) =~= entries_map(s).remove(k));
    } else {
        lemma_entries_map_remove(s.drop_last(), i);
        assert(s.remove(i).drop_last() =~= s.drop_last().remove(i));
        assert(s.remove(i).last() == s.last());
        assert(entries_map(s.remove(i))
            == entries_map(s.drop_last()).remove(k).insert(s.last().0, s.last().1@));
        assert(s.last().0 != k);
        assert(entries_map(s.drop_last()).remove(k).insert(s.last().0, s.last().1@)
            =~= entries_map(s).remove(k));
    }
}

/// Ships under way, grouped by the point they were all sent to.
pub struct MovingFleets {
    entries: Vec<(Vec3Fix, Vec<u64>)>,
}

impl View for MovingFleets {
    type V = Map<Vec3Fix, Seq<u64>>;

    closed spec fn view(&self) -> Map<Vec3Fix, Seq<u64>> {
        entries_map(self.entries@)
    }
}

impl MovingFleets {
    /// Each destination point appears at most once.
    pub closed spec fn wf(self) -> bool {
        forall|a: int, b: int|
            0 <= a < b < self.entries@.len()
                ==> (#[trigger] self.entries@[a]).0 != (#[trigger] self.entries@[b]).0
    }

    /// No fleet is under way.
    pub fn new() -> (r: MovingFleets)
        ensures
            r.wf(),
            r@ == Map::<Vec3Fix, Seq<u64>>::empty(),
    {
        MovingFleets { entries: Vec::new() }
    }

    /// The index of the entry for `key`, if there is one.
    fn find_index(&self, key: Vec3Fix) -> (r: Option<usize>)
        requires
            self.wf(),
        ensures
            r matches Some(i) ==> i < self.entries@.len() && self.entries@[i as int].0 == key,
            r is None ==> forall|i: int|
                0 <= i < self.entries@.len() ==> (#[trigger] self.entries@[i]).0 != key,
    {
        let n = self.entries.len();
        let mut i: usize = 0;
        while i < n
            invariant
                i <= n == self.entries@.len(),
                forall|j: int| 0 <= j < i ==> (#[trigger] self.entries@[j]).0 != key,
            decreases n - i,
        {
            if self.entries[i].0 == key {
                return Some(i);
            }
            i = i + 1;
        }
        None
    }

    /// Takes the fleet registered under `key` out of the map, if any.
    pub fn remove(&mut self, key: Vec3Fix) -> (r: Option<Vec<u64>>)
        requires
            old(self).wf(),
        ensures
            final(self).wf(),
            final(self)@ == old(self)@.remove(key),
            r matches Some(f) ==> old(self)@.contains_key(key) && f@ == old(self)@[key],
            r is None ==> !old(self)@.contains_key(key),
    {
        proof {
            lemma_entries_map_dom(self.entries@, key);
        }
        match self.find_index(key) {
            Some(i) => {
                proof {
                    lemma_entries_map_remove(self.entries@, i as int);
                    lemma_entries_map_at(self.entries@, i as int);
                    self.entries@.remove_ensures(i as int);
                }
                let f = self.entries.remove(i);
                proof {
                    assert forall|a: int, b: int| 0 <= a < b < self.entries@.len()
                        implies (#[trigger] self.entries@[a]).0
                            != (#[trigger] self.entries@[b]).0 by {
                        let oa: int = if a < i { a } else { a + 1 };
                        let ob: int = if b < i { b } else { b + 1 };
                        assert(self.entries@[a] == old(self).entries@[oa]);
                        assert(self.entries@[b] == old(self).entries@[ob]);
                    }
                }
                Some(f.1)
            },
            None => {
                proof {
                    assert(!old(self)@.contains_key(key));
                    assert(old(self)@.remove(key) =~= old(self)@);
                }
                None
            },
        }
    }

    /// Registers (or replaces) the fleet sent to `key`.
    pub fn insert(&mut self, key: Vec3Fix, fleet: Vec<u64>)
        requires
            old(self).wf(),
        ensures
            final(self).wf(),
            final(self)@ == old(self)@.insert(key, fleet@),
    {
        let _ = self.remove(key);
        proof {
            lemma_entries_map_dom(self.entries@, key);
        }
        let ghost mid = self.entries@;
        self.entries.push((key, fleet));
        proof {
            assert(self.entries@.drop_last() =~= mid);
            assert(self.entries@.last() == (key, fleet));
            assert(entries_map(mid).insert(key, fleet@) =~= old(self)@.insert(key, fleet@));
            assert forall|a: int, b: int| 0 <= a < b < self.entries@.len()
                implies (#[trigger] self.entries@[a]).0 != (#[trigger] self.entries@[b]).0 by {
                assert(self.entries@[a] == mid[a]);
                if b < self.entries@.len() - 1 {
                    assert(self.entries@[b] == mid[b]);
                } else {
                    assert(mid[a].0 != key);
                }
            }
        }
    }
}

/// The entry at a unique key gives the map's value for it.
proof fn lemma_entries_map_at(s: Seq<(Vec3Fix, Vec<u64>)>, i: int)
    requires
        0 <= i < s.len(),
        forall|a: int, b: int|
            0 <= a < b < s.len() ==> (#[trigger] s[a]).0 != (#[trigger] s[b]).0,
    ensures
        entries_map(s).contains_key(s[i].0),
        entries_map(s)[s[i].0] == s[i].1@,
    decreases s.len(),
{
    if i == s.len() - 1 {
        lemma_entries_map_dom(s, s[i].0);
    } else {
        lemma_entries_map_at(s.drop_last(), i);
        assert(s.drop_last()[i] == s[i]);
        assert(s.last().0 != s[i].0);
    }
}

} // verus!
