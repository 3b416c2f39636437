use vstd::prelude::*;

verus! {

/// One stored value with its absolute deadline and the time-to-live that set it.
pub struct Entry<V> {
    pub value: V,
    /// The instant, in milliseconds, at and after which the entry is expired.
    pub expires: u64,
    /// The time-to-live, in milliseconds, that a refresh adds to the current time.
    pub ttl_ms: u64,
}

pub(crate) struct Slot<V> {
    pub(crate) key: String,
    pub(crate) entry: Entry<V>,
}

/// The map from keys to entries, kept as a vector of slots with distinct keys.
pub(crate) struct Table<V> {
    slots: Vec<Slot<V>>,
    map: Ghost<Map<Seq<char>, Entry<V>>>,
}

impl<V> View for Table<V> {
    type V = Map<Seq<char>, Entry<V>>;

    closed spec fn view(&self) -> Map<Seq<char>, Entry<V>> {
        self.map@
    }
}

impl<V> Table<V> {
    pub(crate) closed spec fn wf(&self) -> bool {
        &&& forall|i: int, j: int|
            0 <= i < j < self.slots@.len() ==> #[trigger] self.slots@[i].key@
                != #[trigger] self.slots@[j].key@
        &&& forall|i: int|
            0 <= i < self.slots@.len() ==> self.map@.contains_key(#[trigger] self.slots@[i].key@)
                && self.map@[self.slots@[i].key@] == self.slots@[i].entry
        &&& forall|k: Seq<char>|
            #[trigger] self.map@.contains_key(k) ==> exists|i: int|
                0 <= i < self.slots@.len() && (#[trigger] self.slots@[i]).key@ == k
    }

    pub(crate) fn new() -> (t: Self)
        ensures
            t.wf(),
            t@ == Map::<Seq<char>, Entry<V>>::empty(),
    {
        Table { slots: Vec::new(), map: Ghost(Map::empty()) }
    }

    /// The index of the slot that holds `key`, if any.
    fn locate(&self, key: &String) -> (r: Option<usize>)
        requires
            self.wf(),
        ensures
            match r {
                Some(i) => i < self.slots@.len() && self.slots@[i as int].key@ == key@
                    && self@.contains_key(key@),
                None => !self@.contains_key(key@),
            },
    {
        let mut i: usize = 0;
        while i < self.slots.len()
            invariant
                self.wf(),
                i <= self.slots@.len(),
                forall|j: int| 0 <= j < i ==> (#[trigger] self.slots@[j]).key@ != key@,
            decreases self.slots@.len() - i,
        {
            if self.slots[i].key == *key {
                return Some(i);
            }
            i = i + 1;
        }
        None
    }

    /// Takes out the slot at index `i`, and with it the key it holds.
    fn remove_at(&mut self, i: usize) -> (s: Slot<V>)
        requires
            old(self).wf(),
            i < old(self).slots@.len(),
        ensures
            final(self).wf(),
            s == old(self).slots@[i as int],
            final(self)@ == old(self)@.remove(s.key@),
            final(self).slots@ == old(self).slots@.remove(i as int),
    {
        let ghost old_slots = self.slots@;
        let ghost old_map = self.map@;
        let s = self.slots.remove(i);
        self.map = Ghost(old_map.remove(s.key@));
        let ghost n = self.slots@.len();
        assert forall|a: int, b: int| 0 <= a < b < n implies #[trigger] self.slots@[a].key@
            != #[trigger] self.slots@[b].key@ by {
            let a0 = if a < i { a } else { a + 1 };
            let b0 = if b < i { b } else { b + 1 };
            assert(self.slots@[a] == old_slots[a0]);
            assert(self.slots@[b] == old_slots[b0]);
        }
        assert forall|a: int| 0 <= a < n implies self.map@.contains_key(
            #[trigger] self.slots@[a].key@,
        ) && self.map@[self.slots@[a].key@] == self.slots@[a].entry by {
            let a0 = if a < i { a } else { a + 1 };
            assert(self.slots@[a] == old_slots[a0]);
            assert(old_slots[a0].key@ != old_slots[i as int].key@);
        }
        assert forall|k: Seq<char>| #[trigger] self.map@.contains_key(k) implies exists|a: int|
            0 <= a < n && (#[trigger] self.slots@[a]).key@ == k by {
            assert(old_map.contains_key(k));
            let a0 = choose|a0: int| 0 <= a0 < old_slots.len() && (#[trigger] old_slots[a0]).key@ == k;
            assert(a0 != i);
            let a = if a0 < i { a0 } else { a0 - 1 };
            assert(self.slots@[a] == old_slots[a0]);
        }
        s
    }

    /// Adds a slot whose key is not yet in the table.
    fn push_new(&mut self, s: Slot<V>)
        requires
            old(self).wf(),
            !old(self)@.contains_key(s.key@),
        ensures
            final(self).wf(),
            final(self)@ == old(self)@.insert(s.key@, s.entry),
    {
        let ghost old_slots = self.slots@;
        let ghost old_map = self.map@;
        let ghost k = s.key@;
        let ghost e = s.entry;
        self.slots.push(s);
        self.map = Ghost(old_map.insert(k, e));
        let ghost n = self.slots@.len();
        assert(self.slots@[n - 1].key@ == k);
        assert forall|a: int, b: int| 0 <= a < b < n implies #[trigger] self.slots@[a].key@
            != #[trigger] self.slots@[b].key@ by {
            assert(self.slots@[a] == old_slots[a] || a == n - 1);
            if b == n - 1 {
                assert(old_map.contains_key(old_slots[a].key@));
            } else {
                assert(self.slots@[b] == old_slots[b]);
            }
        }
        assert forall|a: int| 0 <= a < n implies self.map@.contains_key(
            #[trigger] self.slots@[a].key@,
        ) && self.map@[self.slots@[a].key@] == self.slots@[a].entry by {
            if a < n - 1 {
                assert(self.slots@[a] == old_slots[a]);
                assert(old_map.contains_key(old_slots[a].key@));
            }
        }
        assert forall|q: Seq<char>| #[trigger] self.map@.contains_key(q) implies exists|a: int|
            0 <= a < n && (#[trigger] self.slots@[a]).key@ == q by {
            if q == k {
                assert(self.slots@[n - 1].key@ == q);
            } else {
                let a = choose|a: int| 0 <= a < old_slots.len() && (#[trigger] old_slots[a]).key@ == q;
                assert(self.slots@[a] == old_slots[a]);
            }
        }
    }

    /// The entry stored under `key`, if any.
    pub(crate) fn lookup(&self, key: &String) -> (r: Option<&Entry<V>>)
        requires
            self.wf(),
        ensures
            r == if self@.contains_key(key@) {
                Some(&self@[key@])
            } else {
                None::<&Entry<V>>
            },
    {
        match self.locate(key) {
            Some(i) => Some(&self.slots[i].entry),
            None => None,
        }
    }

    /// Stores `entry` under `key`, replacing what was there.
    pub(crate) fn insert(&mut self, key: String, entry: Entry<V>)
        requires
            old(self).wf(),
        ensures
            final(self).wf(),
            final(self)@ == old(self)@.insert(key@, entry),
    {
        let ghost old_map = self@;
        match self.locate(&key) {
            Some(i) => {
                self.remove_at(i);
            },
            None => {},
        }
        self.push_new(Slot { key, entry });
        assert(self@ =~= old_map.insert(key@, entry));
    }

    /// Deletes the entry stored under `key`, if there is one.
    pub(crate) fn remove(&mut self, key: &String)
        requires
            old(self).wf(),
        ensures
            final(self).wf(),
            final(self)@ == old(self)@.remove(key@),
    {
        match self.locate(key) {
            Some(i) => {
                self.remove_at(i);
            },
            None => {
                assert(self@ =~= self@.remove(key@));
            },
        }
    }
    /// Moves the deadline of the entry under `key` to `expires`.
    pub(crate) fn set_expires(&mut self, key: &String, expires: u64)
        requires
            old(self).wf(),
            old(self)@.contains_key(key@),
        ensures
            final(self).wf(),
            final(self)@ == old(self)@.insert(key@, Entry { expires, ..old(self)@[key@] }),
    {
        let ghost old_map = self@;
        match self.locate(key) {
            Some(i) => {
                let mut s = self.remove_at(i);
                s.entry.expires = expires;
                self.push_new(s);
                assert(self@ =~= old_map.insert(key@, Entry { expires, ..old_map[key@] }));
            },
            None => {},
        }
    }

    /// Evicts every entry whose deadline is at or before `now`, and returns the
    /// earliest deadline among the entries that stay, if any stay.
    pub(crate) fn sweep(&mut self, now: u64) -> (r: Option<u64>)
        requires
            old(self).wf(),
        ensures
            final(self).wf(),
            forall|k: Seq<char>|
                #[trigger] final(self)@.contains_key(k) <==> old(self)@.contains_key(k)
                    && old(self)@[k].expires > now,
            forall|k: Seq<char>|
                #[trigger] final(self)@.contains_key(k) ==> final(self)@[k] == old(self)@[k],
            match r {
                None => forall|k: Seq<char>| !(#[trigger] final(self)@.contains_key(k)),
                Some(w) => (exists|k: Seq<char>|
                    #[trigger] final(self)@.contains_key(k) && final(self)@[k].expires == w)
                    && forall|k: Seq<char>|
                    #[trigger] final(self)@.contains_key(k) ==> w <= final(self)@[k].expires,
            },
    {
        let ghost m0 = self@;
        let mut i: usize = 0;
        let mut low: Option<u64> = None;
        while i < self.slots.len()
            invariant
                self.wf(),
                i <= self.slots@.len(),
                forall|j: int| 0 <= j < i ==> (#[trigger] self.slots@[j]).entry.expires > now,
                forall|k: Seq<char>|
                    #[trigger] self@.contains_key(k) ==> m0.contains_key(k) && self@[k] == m0[k],
                forall|k: Seq<char>|
                    #[trigger] m0.contains_key(k) && m0[k].expires > now ==> self@.contains_key(k),
                match low {
                    None => i == 0,
                    Some(w) => (exists|j: int|
                        0 <= j < i && (#[trigger] self.slots@[j]).entry.expires == w) && forall|j: int|
                        0 <= j < i ==> w <= (#[trigger] self.slots@[j]).entry.expires,
                },
            decreases self.slots@.len() - i,
        {
            if self.slots[i].entry.expires <= now {
                let ghost before = self.slots@;
                let ghost map_before = self@;
                let s = self.remove_at(i);
                assert(map_before[s.key@] == s.entry);
                assert forall|j: int| 0 <= j < i implies self.slots@[j] == before[j] by {}
                proof {
                    match low {
                        Some(w) => {
                            let j = choose|j: int| 0 <= j < i && (#[trigger] before[j]).entry.expires == w;
                            assert(self.slots@[j] == before[j]);
                        },
                        None => {},
                    }
                }
            } else {
                let e = self.slots[i].entry.expires;
                let ghost prev = low;
                low = match low {
                    None => Some(e),
                    Some(w) => if e < w {
                        Some(e)
                    } else {
                        Some(w)
                    },
                };
                proof {
                    match prev {
                        Some(w) => {
                            let j = choose|j: int|
                                0 <= j < i && (#[trigger] self.slots@[j]).entry.expires == w;
                            if e < w {
                                assert(self.slots@[i as int].entry.expires == e);
                            } else {
                                assert(self.slots@[j].entry.expires == w);
                            }
                        },
                        None => {
                            assert(self.slots@[i as int].entry.expires == e);
                        },
                    }
                }
                i = i + 1;
            }
        }
        assert forall|k: Seq<char>| #[trigger] self@.contains_key(k) implies m0[k].expires > now by {
            let j = choose|j: int| 0 <= j < self.slots@.len() && (#[trigger] self.slots@[j]).key@ == k;
            assert(self.slots@[j].entry.expires > now);
        }
        proof {
            match low {
                Some(w) => {
                    let j = choose|j: int| 0 <= j < i && (#[trigger] self.slots@[j]).entry.expires == w;
                    assert(self@.contains_key(self.slots@[j].key@));
                    assert forall|k: Seq<char>| #[trigger] self@.contains_key(k) implies w
                        <= self@[k].expires by {
                        let a = choose|a: int| 0 <= a < self.slots@.len() && (#[trigger] self.slots@[a]).key@ == k;
                        assert(w <= self.slots@[a].entry.expires);
                    }
                },
                None => {
                    assert forall|k: Seq<char>| !(#[trigger] self@.contains_key(k)) by {
                        if self@.contains_key(k) {
                            let a = choose|a: int| 0 <= a < self.slots@.len() && (#[trigger] self.slots@[a]).key@ == k;
                        }
                    }
                },
            }
        }
        low
    }
}

} // verus!
