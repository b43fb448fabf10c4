use vstd::prelude::*;

use crate::error::StoreResult;
use crate::keys::{key_seq, opt_view};

verus! {

/// The value of `k` in `m`, if any.
pub open spec fn lookup(m: Map<Seq<u8>, Seq<u8>>, k: Seq<u8>) -> Option<Seq<u8>> {
    if m.contains_key(k) {
        Some(m[k])
    } else {
        None
    }
}

/// The values of the keys of `ks` in `m`, position by position.
pub open spec fn lookups(m: Map<Seq<u8>, Seq<u8>>, ks: Seq<Seq<u8>>) -> Seq<Option<Seq<u8>>> {
    ks.map_values(|k: Seq<u8>| lookup(m, k))
}

/// The abstract content of a list of optional values.
pub open spec fn opts_view(vs: Seq<Option<Vec<u8>>>) -> Seq<Option<Seq<u8>>> {
    vs.map_values(|o: Option<Vec<u8>>| opt_view(o))
}

/// The abstract content of a batch of key-value pairs.
pub open spec fn pairs_view(pairs: Seq<(Vec<u8>, Vec<u8>)>) -> Seq<(Seq<u8>, Seq<u8>)> {
    pairs.map_values(|p: (Vec<u8>, Vec<u8>)| (p.0@, p.1@))
}

/// `m` after the pairs of `ps` were written one after the other: where a key
/// occurs twice, the later pair wins.
pub open spec fn written(m: Map<Seq<u8>, Seq<u8>>, ps: Seq<(Seq<u8>, Seq<u8>)>) -> Map<
    Seq<u8>,
    Seq<u8>,
>
    decreases ps.len(),
{
    if ps.len() == 0 {
        m
    } else {
        written(m, ps.drop_last()).insert(ps.last().0, ps.last().1)
    }
}

/// A key-value store that the actor owns and drives.
///
/// Its state is a finite map from keys to values. Each operation either
/// succeeds with the stated effect or fails and changes nothing: batches
/// are all-or-nothing.
pub trait KeyValueBackend {
    /// The store's own well-formedness, kept by every operation.
    spec fn inv(&self) -> bool;

    /// Whether lookups are sure to succeed.
    spec fn lookups_succeed(&self) -> bool;

    /// Whether mutations are sure to succeed.
    spec fn mutations_succeed(&self) -> bool;

    /// The map that the store holds.
    spec fn contents(&self) -> Map<Seq<u8>, Seq<u8>>;

    /// The value of `key`, or `None` where it has none.
    fn get(&self, key: &Vec<u8>) -> (r: StoreResult<Option<Vec<u8>>>)
        requires
            self.inv(),
        ensures
            r matches Ok(v) ==> opt_view(v) == lookup(self.contents(), key@),
            self.lookups_succeed() ==> r is Ok,
    ;

    /// The values of `keys`, position by position.
    fn multi_get(&self, keys: &Vec<Vec<u8>>) -> (r: StoreResult<Vec<Option<Vec<u8>>>>)
        requires
            self.inv(),
        ensures
            r matches Ok(vs) ==> opts_view(vs@) == lookups(self.contents(), key_seq(keys@)),
            self.lookups_succeed() ==> r is Ok,
    ;

    /// Sets the value of `key`.
    fn insert(&mut self, key: &Vec<u8>, value: &Vec<u8>) -> (r: StoreResult<()>)
        requires
            old(self).inv(),
        ensures
            final(self).inv(),
            final(self).lookups_succeed() == old(self).lookups_succeed(),
            final(self).mutations_succeed() == old(self).mutations_succeed(),
            old(self).mutations_succeed() ==> r is Ok,
            r is Ok ==> final(self).contents() == old(self).contents().insert(key@, value@),
            r is Err ==> final(self).contents() == old(self).contents(),
    ;

    /// Writes all of `pairs` in order, or none of them.
    fn multi_insert(&mut self, pairs: &Vec<(Vec<u8>, Vec<u8>)>) -> (r: StoreResult<()>)
        requires
            old(self).inv(),
        ensures
            final(self).inv(),
            final(self).lookups_succeed() == old(self).lookups_succeed(),
            final(self).mutations_succeed() == old(self).mutations_succeed(),
            old(self).mutations_succeed() ==> r is Ok,
            r is Ok ==> final(self).contents() == written(old(self).contents(), pairs_view(pairs@)),
            r is Err ==> final(self).contents() == old(self).contents(),
    ;

    /// Removes `key`.
    fn remove(&mut self, key: &Vec<u8>) -> (r: StoreResult<()>)
        requires
            old(self).inv(),
        ensures
            final(self).inv(),
            final(self).lookups_succeed() == old(self).lookups_succeed(),
            final(self).mutations_succeed() == old(self).mutations_succeed(),
            old(self).mutations_succeed() ==> r is Ok,
            r is Ok ==> final(self).contents() == old(self).contents().remove(key@),
            r is Err ==> final(self).contents() == old(self).contents(),
    ;

    /// Removes all of `keys`, or none of them.
    fn multi_remove(&mut self, keys: &Vec<Vec<u8>>) -> (r: StoreResult<()>)
        requires
            old(self).inv(),
        ensures
            final(self).inv(),
            final(self).lookups_succeed() == old(self).lookups_succeed(),
            final(self).mutations_succeed() == old(self).mutations_succeed(),
            old(self).mutations_succeed() ==> r is Ok,
            r is Ok ==> final(self).contents() == old(self).contents().remove_keys(
                key_seq(keys@).to_set(),
            ),
            r is Err ==> final(self).contents() == old(self).contents(),
    ;
}

} // verus!
