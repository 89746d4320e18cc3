//! Per-entity contact bookkeeping.
//!
//! A sensor keeps the set of body identifiers it currently overlaps;
//! a climber additionally remembers, per climbable body, a snapshot of that
//! body's horizontal anchor taken when the overlap began, used later to snap
//! the climber onto the ladder. Both containers treat the removal of an
//! absent identifier as a no-op, never as an error, because overlap events
//! may arrive for bodies that despawned in the meantime.

use vstd::prelude::*;
use vstd::seq_lib::*;

verus! {

/// A set of body identifiers currently overlapping one sensor.
pub struct ContactSet {
    ids: Vec<u64>,
}

impl View for ContactSet {
    type V = Set<u64>;

    closed spec fn view(&self) -> Set<u64> {
        Set::new(|id: u64| exists|i: int| 0 <= i < self.ids@.len() && self.ids@[i] == id)
    }
}

impl ContactSet {
    /// The identifier list holds no duplicates.
    pub closed spec fn wf(&self) -> bool {
        forall|i: int, j: int|
            0 <= i < j < self.ids@.len() ==> self.ids@[i] != self.ids@[j]
    }

    /// An empty contact set.
    pub fn new() -> (s: ContactSet)
        ensures
            s.wf(),
            s@ == Set::<u64>::empty(),
    {
        let s = ContactSet { ids: Vec::new() };
        proof {
            assert(s@ =~= Set::<u64>::empty());
        }
        s
    }

    /// Whether `id` is currently in contact.
    pub fn contains(&self, id: u64) -> (r: bool)
        ensures
            r == self@.contains(id),
    {
        let mut i: usize = 0;
        while i < self.ids.len()
            invariant
                i <= self.ids@.len(),
                forall|k: int| 0 <= k < i ==> self.ids@[k] != id,
            decreases self.ids@.len() - i,
        {
            if self.ids[i] == id {
                return true;
            }
            i = i + 1;
        }
        false
    }

    /// Records the begin of an overlap; inserting an identifier already in
    /// contact changes nothing.
    pub fn insert(&mut self, id: u64)
        requires
            old(self).wf(),
        ensures
            final(self).wf(),
            final(self)@ == old(self)@.insert(id),
    {
        if !self.contains(id) {
            self.ids.push(id);
            proof {
                assert forall|q: u64| #[trigger] self@.contains(q) implies old(self)@.insert(
                    id,
                ).contains(q) by {
                    let k = choose|k: int| 0 <= k < self.ids@.len() && self.ids@[k] == q;
                    if k < self.ids@.len() - 1 {
                        assert(old(self).ids@[k] == q);
                    }
                }
                assert forall|q: u64| #[trigger] old(self)@.insert(id).contains(q)
                    implies self@.contains(q) by {
                    if q == id {
                        assert(self.ids@[self.ids@.len() - 1] == q);
                    } else {
                        let k = choose|k: int|
                            0 <= k < old(self).ids@.len() && old(self).ids@[k] == q;
                        assert(self.ids@[k] == q);
                    }
                }
                assert(self@ =~= old(self)@.insert(id));
            }
        } else {
            proof {
                assert(old(self)@.contains(id));
                assert(self@ =~= old(self)@.insert(id));
            }
        }
    }

    /// Records the end of an overlap; removing an identifier that is not in
    /// contact leaves the set unchanged.
    pub fn remove(&mut self, id: u64)
        requires
            old(self).wf(),
        ensures
            final(self).wf(),
            final(self)@ == old(self)@.remove(id),
            !old(self)@.contains(id) ==> final(self)@ == old(self)@,
    {
        let mut i: usize = 0;
        while i < self.ids.len()
            invariant
                old(self).wf(),
                self == old(self),
                i <= self.ids@.len(),
                forall|k: int| 0 <= k < i ==> self.ids@[k] != id,
            decreases self.ids@.len() - i,
        {
            if self.ids[i] == id {
                let ghost pre = self.ids@;
                self.ids.remove(i);
                proof {
                    pre.remove_ensures(i as int);
                    assert forall|a: int, b: int|
                        0 <= a < b < self.ids@.len() implies self.ids@[a] != self.ids@[b] by {
                        let pa: int = if a < i { a } else { a + 1 };
                        let pb: int = if b < i { b } else { b + 1 };
                        assert(self.ids@[a] == pre[pa]);
                        assert(self.ids@[b] == pre[pb]);
                    }
                    assert forall|q: u64| #[trigger] self@.contains(q) implies old(self)@.remove(
                        id,
                    ).contains(q) by {
                        let k = choose|k: int| 0 <= k < self.ids@.len() && self.ids@[k] == q;
                        let pk: int = if k < i { k } else { k + 1 };
                        assert(pre[pk] == q);
                        if q == id {
                            assert(pre[pk] == id && pre[i as int] == id && pk != i);
                            assert(false);
                        }
                    }
                    assert forall|q: u64| #[trigger] old(self)@.remove(id).contains(q)
                        implies self@.contains(q) by {
                        let k = choose|k: int| 0 <= k < pre.len() && pre[k] == q;
                        if k < i {
                            assert(self.ids@[k] == q);
                        } else {
                            assert(k != i);
                            assert(self.ids@[k - 1] == q);
                        }
                    }
                    assert(self@ =~= old(self)@.remove(id));
                }
                return;
            }
            i = i + 1;
        }
        proof {
            assert(!old(self)@.contains(id));
            assert(self@ =~= old(self)@.remove(id));
        }
    }

    /// Whether no body is currently in contact.
    pub fn is_empty(&self) -> (r: bool)
        ensures
            r == self@.is_empty(),
    {
        let r = self.ids.len() == 0;
        proof {
            if r {
                assert(self@ =~= Set::<u64>::empty());
            } else {
                assert(self@.contains(self.ids@[0]));
            }
        }
        r
    }
}

/// One remembered climbable contact: the body and the snapshot of its
/// horizontal anchor, in world units, taken when the overlap began.
#[derive(Clone, Copy, Debug, PartialEq, Eq, Structural)]
pub struct ClimbContact {
    pub id: u64,
    pub anchor_x: i64,
}

/// The climbable bodies a climber currently overlaps, each with its
/// recorded anchor. Keys are unique; re-inserting a key replaces its
/// snapshot.
pub struct ClimbContacts {
    entries: Vec<ClimbContact>,
}

impl View for ClimbContacts {
    type V = Map<u64, i64>;

    closed spec fn view(&self) -> Map<u64, i64> {
        Map::new(
            |id: u64| exists|i: int| 0 <= i < self.entries@.len() && self.entries@[i].id == id,
            |id: u64| {
                let i = choose|i: int|
                    0 <= i < self.entries@.len() && self.entries@[i].id == id;
                self.entries@[i].anchor_x
            },
        )
    }
}

impl ClimbContacts {
    /// The key list holds no duplicates.
    pub closed spec fn wf(&self) -> bool {
        forall|i: int, j: int|
            0 <= i < j < self.entries@.len()
                ==> (#[trigger] self.entries@[i]).id != (#[trigger] self.entries@[j]).id
    }

    /// With unique keys, the view maps each stored entry to its anchor.
    proof fn lemma_view_entry(&self, i: int)
        requires
            self.wf(),
            0 <= i < self.entries@.len(),
        ensures
            self@.dom().contains(self.entries@[i].id),
            self@[self.entries@[i].id] == self.entries@[i].anchor_x,
    {
        let id = self.entries@[i].id;
        let j = choose|j: int| 0 <= j < self.entries@.len() && self.entries@[j].id == id;
        if i < j {
            assert(self.entries@[i].id != self.entries@[j].id);
        } else if j < i {
            assert(self.entries@[j].id != self.entries@[i].id);
        }
    }

    /// An empty contact map.
    pub fn new() -> (s: ClimbContacts)
        ensures
            s.wf(),
            s@ == Map::<u64, i64>::empty(),
    {
        let s = ClimbContacts { entries: Vec::new() };
        proof {
            assert(s@ =~= Map::<u64, i64>::empty());
        }
        s
    }

    /// Records an overlap with climbable `id`, remembering its anchor; a
    /// repeated begin refreshes the snapshot.
    pub fn insert(&mut self, id: u64, anchor_x: i64)
        requires
            old(self).wf(),
        ensures
            final(self).wf(),
            final(self)@ == old(self)@.insert(id, anchor_x),
    {
        let ghost pre = old(self).entries@;
        let mut i: usize = 0;
        while i < self.entries.len()
            invariant
                old(self).wf(),
                self == old(self),
                pre == old(self).entries@,
                i <= self.entries@.len(),
                forall|k: int| 0 <= k < i ==> (#[trigger] self.entries@[k]).id != id,
            decreases self.entries@.len() - i,
        {
            if self.entries[i].id == id {
                self.entries.set(i, ClimbContact { id, anchor_x });
                proof {
                    assert forall|a: int, b: int|
                        0 <= a < b < self.entries@.len() implies (#[trigger] self.entries@[a]).id
                            != (#[trigger] self.entries@[b]).id by {
                        assert(self.entries@[a].id == pre[a].id);
                        assert(self.entries@[b].id == pre[b].id);
                    }
                    assert forall|q: u64| #[trigger] self@.dom().contains(q)
                        implies old(self)@.insert(id, anchor_x).dom().contains(q) by {
                        let j = choose|j: int|
                            0 <= j < self.entries@.len() && self.entries@[j].id == q;
                        if j != i {
                            assert(pre[j].id == q);
                        }
                    }
                    assert forall|q: u64|
                        #[trigger] old(self)@.insert(id, anchor_x).dom().contains(q)
                        implies self@.dom().contains(q) by {
                        if q == id {
                            assert(self.entries@[i as int].id == id);
                        } else {
                            let j = choose|j: int| 0 <= j < pre.len() && pre[j].id == q;
                            assert(self.entries@[j].id == q);
                        }
                    }
                    assert forall|q: u64| #[trigger] self@.dom().contains(q) implies self@[q]
                        == old(self)@.insert(id, anchor_x)[q] by {
                        let j = choose|j: int|
                            0 <= j < self.entries@.len() && self.entries@[j].id == q;
                        self.lemma_view_entry(j);
                        if j == i {
                            assert(q == id);
                            assert(self@[q] == anchor_x);
                        } else {
                            assert(pre[j].id == q);
                            old(self).lemma_view_entry(j);
                            if q == id {
                                assert(pre[j].id == pre[i as int].id && j != i);
                                assert(false);
                            }
                        }
                    }
                    assert(self@ =~= old(self)@.insert(id, anchor_x));
                }
                return;
            }
            i = i + 1;
        }
        self.entries.push(ClimbContact { id, anchor_x });
        proof {
            assert forall|q: u64| #[trigger] self@.dom().contains(q) implies old(self)@.insert(
                id,
                anchor_x,
            ).dom().contains(q) by {
                let j = choose|j: int| 0 <= j < self.entries@.len() && self.entries@[j].id == q;
                if j < self.entries@.len() - 1 {
                    assert(pre[j].id == q);
                }
            }
            assert forall|q: u64| #[trigger] old(self)@.insert(id, anchor_x).dom().contains(q)
                implies self@.dom().contains(q) by {
                if q == id {
                    assert(self.entries@[self.entries@.len() - 1].id == id);
                } else {
                    let j = choose|j: int| 0 <= j < pre.len() && pre[j].id == q;
                    assert(self.entries@[j].id == q);
                }
            }
            assert forall|q: u64| #[trigger] self@.dom().contains(q) implies self@[q]
                == old(self)@.insert(id, anchor_x)[q] by {
                let j = choose|j: int| 0 <= j < self.entries@.len() && self.entries@[j].id == q;
                self.lemma_view_entry(j);
                if j == self.entries@.len() - 1 {
                    assert(q == id);
                    assert(self@[q] == anchor_x);
                } else {
                    assert(pre[j].id == q);
                    old(self).lemma_view_entry(j);
                }
            }
            assert(self@ =~= old(self)@.insert(id, anchor_x));
        }
    }

    /// Forgets the overlap with `id`; removing an absent key leaves the map
    /// unchanged.
    pub fn remove(&mut self, id: u64)
        requires
            old(self).wf(),
        ensures
            final(self).wf(),
            final(self)@ == old(self)@.remove(id),
            !old(self)@.dom().contains(id) ==> final(self)@ == old(self)@,
    {
        let ghost pre = old(self).entries@;
        let mut i: usize = 0;
        while i < self.entries.len()
            invariant
                old(self).wf(),
                self == old(self),
                pre == old(self).entries@,
                i <= self.entries@.len(),
                forall|k: int| 0 <= k < i ==> (#[trigger] self.entries@[k]).id != id,
            decreases self.entries@.len() - i,
        {
            if self.entries[i].id == id {
                self.entries.remove(i);
                proof {
                    pre.remove_ensures(i as int);
                    assert forall|a: int, b: int|
                        0 <= a < b < self.entries@.len() implies (#[trigger] self.entries@[a]).id
                            != (#[trigger] self.entries@[b]).id by {
                        let pa: int = if a < i { a } else { a + 1 };
                        let pb: int = if b < i { b } else { b + 1 };
                        assert(self.entries@[a] == pre[pa]);
                        assert(self.entries@[b] == pre[pb]);
                    }
                    assert forall|q: u64| #[trigger] self@.dom().contains(q)
                        implies old(self)@.remove(id).dom().contains(q) by {
                        let j = choose|j: int|
                            0 <= j < self.entries@.len() && self.entries@[j].id == q;
                        let pj: int = if j < i { j } else { j + 1 };
                        assert(self.entries@[j] == pre[pj]);
                        if q == id {
                            assert(pre[pj].id == pre[i as int].id && pj != i);
                            assert(false);
                        }
                    }
                    assert forall|q: u64| #[trigger] old(self)@.remove(id).dom().contains(q)
                        implies self@.dom().contains(q) by {
                        let j = choose|j: int| 0 <= j < pre.len() && pre[j].id == q;
                        if j < i {
                            assert(self.entries@[j] == pre[j]);
                            assert(self.entries@[j].id == q);
                        } else {
                            assert(j != i);
                            assert(self.entries@[j - 1] == pre[j]);
                            assert(self.entries@[j - 1].id == q);
                        }
                    }
                    assert forall|q: u64| #[trigger] self@.dom().contains(q) implies self@[q]
                        == old(self)@.remove(id)[q] by {
                        let j = choose|j: int|
                            0 <= j < self.entries@.len() && self.entries@[j].id == q;
                        let pj: int = if j < i { j } else { j + 1 };
                        assert(self.entries@[j] == pre[pj]);
                        self.lemma_view_entry(j);
                        old(self).lemma_view_entry(pj);
                    }
                    assert(self@ =~= old(self)@.remove(id));
                }
                return;
            }
            i = i + 1;
        }
        proof {
            assert(!old(self)@.dom().contains(id));
            assert(self@ =~= old(self)@.remove(id));
        }
    }

    /// The recorded anchor of `id`, if it is a current contact.
    pub fn get(&self, id: u64) -> (r: Option<i64>)
        requires
            self.wf(),
        ensures
            match r {
                Option::Some(x) => self@.dom().contains(id) && self@[id] == x,
                Option::None => !self@.dom().contains(id),
            },
    {
        let mut i: usize = 0;
        while i < self.entries.len()
            invariant
                self.wf(),
                i <= self.entries@.len(),
                forall|k: int| 0 <= k < i ==> (#[trigger] self.entries@[k]).id != id,
            decreases self.entries@.len() - i,
        {
            if self.entries[i].id == id {
                proof {
                    self.lemma_view_entry(i as int);
                }
                return Some(self.entries[i].anchor_x);
            }
            i = i + 1;
        }
        None
    }

    /// Whether no climbable is currently overlapped.
    pub fn is_empty(&self) -> (r: bool)
        ensures
            r == self@.dom().is_empty(),
    {
        let r = self.entries.len() == 0;
        proof {
            if r {
                assert(self@.dom() =~= Set::<u64>::empty());
            } else {
                assert(self@.dom().contains(self.entries@[0].id));
            }
        }
        r
    }

    /// Some current contact, if any: the longest-standing one. Which entry
    /// is returned is an implementation choice; callers may rely only on it
    /// being a current contact.
    pub fn first(&self) -> (r: Option<ClimbContact>)
        requires
            self.wf(),
        ensures
            match r {
                Option::Some(c) => self@.dom().contains(c.id) && self@[c.id] == c.anchor_x,
                Option::None => self@.dom().is_empty(),
            },
    {
        if self.entries.len() > 0 {
            proof {
                self.lemma_view_entry(0);
            }
            Some(self.entries[0])
        } else {
            proof {
                assert(self@.dom() =~= Set::<u64>::empty());
            }
            None
        }
    }
}

} // verus!
