use vstd::prelude::*;

use crate::keys::same_key;

verus! {

/// A finite map keyed by byte strings, held as a list of entries with
/// distinct keys.
///
/// vstd specifies std's `HashMap` only for keys of integer or `bool` type,
/// so a map keyed by byte strings is written here with its own proof.
pub struct ByteMap<V: View> {
    entries: Vec<(Vec<u8>, V)>,
    model: Ghost<Map<Seq<u8>, V::V>>,
}

impl<V: View> View for ByteMap<V> {
    type V = Map<Seq<u8>, V::V>;

    closed spec fn view(&self) -> Map<Seq<u8>, V::V> {
        self.model@
    }
}

impl<V: View> ByteMap<V> {
    /// The entries hold each key once and agree with the abstract map.
    pub closed spec fn wf(&self) -> bool {
        &&& forall|i: int, j: int|
            0 <= i < j < self.entries@.len() ==> #[trigger] self.entries@[i].0@
                != #[trigger] self.entries@[j].0@
        &&& forall|i: int|
            0 <= i < self.entries@.len() ==> {
                &&& self.model@.contains_key(#[trigger] self.entries@[i].0@)
                &&& self.model@[self.entries@[i].0@] == self.entries@[i].1@
            }
        &&& forall|k: Seq<u8>|
            #[trigger] self.model@.contains_key(k) ==> exists|i: int|
                0 <= i < self.entries@.len() && #[trigger] self.entries@[i].0@ == k
    }

    /// An empty map.
    pub fn new() -> (m: Self)
        ensures
            m.wf(),
            m@ == Map::<Seq<u8>, V::V>::empty(),
    {
        ByteMap { entries: Vec::new(), model: Ghost(Map::empty()) }
    }

    /// The number of keys.
    pub fn len(&self) -> (n: usize)
        requires
            self.wf(),
        ensures
            n == self@.dom().len(),
    {
        proof {
            self.lemma_dom_len();
        }
        self.entries.len()
    }

    proof fn lemma_dom_len(&self)
        requires
            self.wf(),
        ensures
            self@.dom().len() == self.entries@.len(),
    {
        let ks = self.entries@.map_values(|e: (Vec<u8>, V)| e.0@);
        assert forall|i: int, j: int| 0 <= i < ks.len() && 0 <= j < ks.len() && i != j implies ks[i]
            != ks[j] by {
            if i < j {
                assert(self.entries@[i].0@ != self.entries@[j].0@);
            } else {
                assert(self.entries@[j].0@ != self.entries@[i].0@);
            }
        }
        ks.unique_seq_to_set();
        assert(ks.to_set() =~= self@.dom()) by {
            assert forall|k: Seq<u8>| self@.dom().contains(k) implies ks.to_set().contains(k) by {
                let i = choose|i: int|
                    0 <= i < self.entries@.len() && #[trigger] self.entries@[i].0@ == k;
                assert(ks[i] == k);
            }
            assert forall|k: Seq<u8>| ks.to_set().contains(k) implies self@.dom().contains(k) by {
                let i = choose|i: int| 0 <= i < ks.len() && ks[i] == k;
                assert(self.entries@[i].0@ == k);
            }
        }
    }

    /// The position of `key` among the entries, if it is present.
    fn find(&self, key: &Vec<u8>) -> (r: Option<usize>)
        requires
            self.wf(),
        ensures
            match r {
                Some(i) => i < self.entries@.len() && self.entries@[i as int].0@ == key@,
                None => !self@.contains_key(key@),
            },
    {
        let mut i: usize = 0;
        while i < self.entries.len()
            invariant
                0 <= i <= self.entries@.len(),
                forall|j: int| 0 <= j < i ==> self.entries@[j].0@ != key@,
            decreases self.entries@.len() - i,
        {
            if same_key(&self.entries[i].0, key) {
                return Some(i);
            }
            i = i + 1;
        }
        None
    }

    /// The value of `key`, if present.
    pub fn get(&self, key: &Vec<u8>) -> (r: Option<&V>)
        requires
            self.wf(),
        ensures
            match r {
                Some(v) => self@.contains_key(key@) && v@ == self@[key@],
                None => !self@.contains_key(key@),
            },
    {
        match self.find(key) {
            Some(i) => Some(&self.entries[i].1),
            None => None,
        }
    }

    /// Removes the entry at `i`, handing back its value.
    fn remove_at(&mut self, i: usize) -> (v: V)
        requires
            old(self).wf(),
            i < old(self).entries@.len(),
        ensures
            final(self).wf(),
            v@ == old(self)@[old(self).entries@[i as int].0@],
            final(self)@ == old(self)@.remove(old(self).entries@[i as int].0@),
    {
        let ghost old_entries = self.entries@;
        let ghost k = self.entries@[i as int].0@;
        let e = self.entries.swap_remove(i);
        self.model = Ghost(self.model@.remove(k));
        let ghost n = self.entries@;
        assert forall|a: int, b: int| 0 <= a < b < n.len() implies #[trigger] n[a].0@
            != #[trigger] n[b].0@ by {
            let oa = if a == i { old_entries.len() - 1 } else { a };
            let ob = if b == i { old_entries.len() - 1 } else { b };
            if oa < ob {
                assert(old_entries[oa].0@ != old_entries[ob].0@);
            } else {
                assert(old_entries[ob].0@ != old_entries[oa].0@);
            }
        }
        assert forall|a: int| 0 <= a < n.len() implies {
            &&& self.model@.contains_key(#[trigger] n[a].0@)
            &&& self.model@[n[a].0@] == n[a].1@
        } by {
            let oa = if a == i { old_entries.len() - 1 } else { a };
            assert(n[a] == old_entries[oa]);
            assert(oa != i);
            if oa < i {
                assert(old_entries[oa].0@ != old_entries[i as int].0@);
            } else {
                assert(old_entries[i as int].0@ != old_entries[oa].0@);
            }
        }
        assert forall|kk: Seq<u8>| #[trigger] self.model@.contains_key(kk) implies exists|a: int|
            0 <= a < n.len() && #[trigger] n[a].0@ == kk by {
            let oa = choose|oa: int|
                0 <= oa < old_entries.len() && #[trigger] old_entries[oa].0@ == kk;
            assert(oa != i);
            if oa == old_entries.len() - 1 {
                assert(n[i as int].0@ == kk);
            } else {
                assert(n[oa].0@ == kk);
            }
        }
        e.1
    }

    /// Removes `key`, handing back its value if it was present.
    pub fn remove(&mut self, key: &Vec<u8>) -> (r: Option<V>)
        requires
            old(self).wf(),
        ensures
            final(self).wf(),
            final(self)@ == old(self)@.remove(key@),
            match r {
                Some(v) => old(self)@.contains_key(key@) && v@ == old(self)@[key@],
                None => !old(self)@.contains_key(key@),
            },
    {
        match self.find(key) {
            Some(i) => Some(self.remove_at(i)),
            None => {
                assert(self.model@ =~= self.model@.remove(key@));
                None
            },
        }
    }

    /// Sets the value of `key`, replacing any earlier one.
    pub fn insert(&mut self, key: Vec<u8>, value: V)
        requires
            old(self).wf(),
        ensures
            final(self).wf(),
            final(self)@ == old(self)@.insert(key@, value@),
    {
        let _ = self.remove(&key);
        let ghost before = self.entries@;
        let ghost mid = self.model@;
        let ghost k = key@;
        let ghost v = value@;
        self.entries.push((key, value));
        self.model = Ghost(self.model@.insert(k, v));
        let ghost n = self.entries@;
        assert forall|a: int, b: int| 0 <= a < b < n.len() implies #[trigger] n[a].0@
            != #[trigger] n[b].0@ by {
            if b == n.len() - 1 {
                if before[a].0@ == k {
                    assert(mid.contains_key(before[a].0@));
                }
            } else {
                assert(before[a].0@ != before[b].0@);
            }
        }
        assert forall|a: int| 0 <= a < n.len() implies {
            &&& self.model@.contains_key(#[trigger] n[a].0@)
            &&& self.model@[n[a].0@] == n[a].1@
        } by {
            if a < n.len() - 1 {
                assert(n[a] == before[a]);
                if before[a].0@ == k {
                    assert(mid.contains_key(before[a].0@));
                }
            }
        }
        assert forall|kk: Seq<u8>| #[trigger] self.model@.contains_key(kk) implies exists|a: int|
            0 <= a < n.len() && #[trigger] n[a].0@ == kk by {
            if kk == k {
                assert(n[n.len() - 1].0@ == kk);
            } else {
                let oa = choose|oa: int| 0 <= oa < before.len() && #[trigger] before[oa].0@ == kk;
                assert(n[oa].0@ == kk);
            }
        }
        assert(self.model@ =~= old(self)@.insert(k, v));
    }
}

} // verus!
