use vstd::prelude::*;

use crate::backend::{lookup, lookups, opts_view, pairs_view, written, KeyValueBackend};
use crate::byte_map::ByteMap;
use crate::error::{StoreError, StoreResult};
use crate::keys::{copy_bytes, key_seq, lemma_without_is_remove_keys, opt_view, without};

verus! {

/// A backend that keeps its map in memory.
///
/// Lookups never fail. Mutations fail, and change nothing, while the store
/// is switched to read-only; otherwise they never fail.
pub struct MemoryBackend {
    map: ByteMap<Vec<u8>>,
    read_only: bool,
}

/// The error of a mutation refused in read-only mode.
fn refused() -> StoreError {
    StoreError::Backend("store is read-only".to_owned())
}

impl MemoryBackend {
    /// An empty store.
    pub fn new() -> (b: Self)
        ensures
            b.inv(),
            b.lookups_succeed(),
            b.mutations_succeed(),
            b.contents() == Map::<Seq<u8>, Seq<u8>>::empty(),
    {
        MemoryBackend { map: ByteMap::new(), read_only: false }
    }

    /// Switches read-only mode on or off; the map stays as it is.
    pub fn set_read_only(&mut self, on: bool)
        requires
            old(self).inv(),
        ensures
            final(self).inv(),
            final(self).contents() == old(self).contents(),
            final(self).lookups_succeed(),
            final(self).mutations_succeed() == !on,
    {
        self.read_only = on;
    }

    /// The number of keys that hold a value.
    pub fn len(&self) -> (n: usize)
        requires
            self.inv(),
        ensures
            n == self.contents().dom().len(),
    {
        self.map.len()
    }
}

impl KeyValueBackend for MemoryBackend {
    closed spec fn inv(&self) -> bool {
        self.map.wf()
    }

    closed spec fn lookups_succeed(&self) -> bool {
        true
    }

    closed spec fn mutations_succeed(&self) -> bool {
        !self.read_only
    }

    closed spec fn contents(&self) -> Map<Seq<u8>, Seq<u8>> {
        self.map@
    }

    fn get(&self, key: &Vec<u8>) -> (r: StoreResult<Option<Vec<u8>>>) {
        match self.map.get(key) {
            Some(v) => Ok(Some(copy_bytes(v))),
            None => Ok(None),
        }
    }

    fn multi_get(&self, keys: &Vec<Vec<u8>>) -> (r: StoreResult<Vec<Option<Vec<u8>>>>) {
        let mut out: Vec<Option<Vec<u8>>> = Vec::new();
        let mut i: usize = 0;
        while i < keys.len()
            invariant
                0 <= i <= keys@.len(),
                self.map.wf(),
                out@.len() == i,
                forall|j: int|
                    0 <= j < i ==> opt_view(#[trigger] out@[j]) == lookup(
                        self.map@,
                        keys@[j]@,
                    ),
            decreases keys@.len() - i,
        {
            let v = match self.map.get(&keys[i]) {
                Some(v) => Some(copy_bytes(v)),
                None => None,
            };
            out.push(v);
            i = i + 1;
        }
        assert(opts_view(out@) =~= lookups(self.map@, key_seq(keys@)));
        Ok(out)
    }

    fn insert(&mut self, key: &Vec<u8>, value: &Vec<u8>) -> (r: StoreResult<()>) {
        if self.read_only {
            return Err(refused());
        }
        self.map.insert(copy_bytes(key), copy_bytes(value));
        Ok(())
    }

    fn multi_insert(&mut self, pairs: &Vec<(Vec<u8>, Vec<u8>)>) -> (r: StoreResult<()>) {
        if self.read_only {
            return Err(refused());
        }
        let mut i: usize = 0;
        while i < pairs.len()
            invariant
                0 <= i <= pairs@.len(),
                self.map.wf(),
                self.read_only == old(self).read_only,
                self.map@ == written(old(self).map@, pairs_view(pairs@).take(i as int)),
            decreases pairs@.len() - i,
        {
            assert(pairs_view(pairs@).take(i as int + 1).drop_last() =~= pairs_view(pairs@).take(
                i as int,
            ));
            self.map.insert(copy_bytes(&pairs[i].0), copy_bytes(&pairs[i].1));
            i = i + 1;
        }
        assert(pairs_view(pairs@).take(pairs@.len() as int) =~= pairs_view(pairs@));
        Ok(())
    }

    fn remove(&mut self, key: &Vec<u8>) -> (r: StoreResult<()>) {
        if self.read_only {
            return Err(refused());
        }
        let _ = self.map.remove(key);
        Ok(())
    }

    fn multi_remove(&mut self, keys: &Vec<Vec<u8>>) -> (r: StoreResult<()>) {
        if self.read_only {
            return Err(refused());
        }
        let mut i: usize = 0;
        while i < keys.len()
            invariant
                0 <= i <= keys@.len(),
                self.map.wf(),
                self.read_only == old(self).read_only,
                self.map@ == without(old(self).map@, key_seq(keys@).take(i as int)),
            decreases keys@.len() - i,
        {
            assert(key_seq(keys@).take(i as int + 1).drop_last() =~= key_seq(keys@).take(i as int));
            let _ = self.map.remove(&keys[i]);
            i = i + 1;
        }
        assert(key_seq(keys@).take(keys@.len() as int) =~= key_seq(keys@));
        proof {
            lemma_without_is_remove_keys(old(self).map@, key_seq(keys@));
        }
        Ok(())
    }
}

} // verus!
