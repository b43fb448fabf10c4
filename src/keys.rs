//! Keys and values are byte strings; this module compares and copies them
//! and names what batches of them mean.
use vstd::prelude::*;

use crate::error::{StoreError, StoreResult};

verus! {

/// An optional value, as the byte string it holds.
pub open spec fn opt_view(o: Option<Vec<u8>>) -> Option<Seq<u8>> {
    match o {
        Some(v) => Some(v@),
        None => None,
    }
}

/// The outcome of a lookup, with the value as the byte string it holds.
pub open spec fn result_view(r: StoreResult<Option<Vec<u8>>>) -> Result<Option<Seq<u8>>, StoreError> {
    match r {
        Ok(o) => Ok(opt_view(o)),
        Err(e) => Err(e),
    }
}

/// `m` after the keys of `ks` were removed one after the other.
pub open spec fn without<V>(m: Map<Seq<u8>, V>, ks: Seq<Seq<u8>>) -> Map<Seq<u8>, V>
    decreases ks.len(),
{
    if ks.len() == 0 {
        m
    } else {
        without(m, ks.drop_last()).remove(ks.last())
    }
}

/// The keys of a batch, in order.
pub open spec fn key_seq(keys: Seq<Vec<u8>>) -> Seq<Seq<u8>> {
    keys.map_values(|k: Vec<u8>| k@)
}

/// The keys of a batch of key-value pairs, in order.
pub open spec fn pair_keys(pairs: Seq<(Vec<u8>, Vec<u8>)>) -> Seq<Seq<u8>> {
    pairs.map_values(|p: (Vec<u8>, Vec<u8>)| p.0@)
}

/// Copies of the keys of a batch of pairs, in order.
pub fn keys_of(pairs: &Vec<(Vec<u8>, Vec<u8>)>) -> (keys: Vec<Vec<u8>>)
    ensures
        key_seq(keys@) == pair_keys(pairs@),
{
    let mut keys: Vec<Vec<u8>> = Vec::new();
    let mut i: usize = 0;
    while i < pairs.len()
        invariant
            0 <= i <= pairs@.len(),
            key_seq(keys@) == pair_keys(pairs@).take(i as int),
        decreases pairs@.len() - i,
    {
        let ghost before = keys@;
        keys.push(copy_bytes(&pairs[i].0));
        assert(key_seq(keys@) =~= key_seq(before).push(pairs@[i as int].0@));
        assert(pair_keys(pairs@).take(i as int + 1) =~= pair_keys(pairs@).take(i as int).push(
            pairs@[i as int].0@,
        ));
        i = i + 1;
    }
    assert(pair_keys(pairs@).take(pairs@.len() as int) =~= pair_keys(pairs@));
    keys
}

/// Byte-wise equality of two keys.
pub fn same_key(a: &Vec<u8>, b: &Vec<u8>) -> (r: bool)
    ensures
        r == (a@ == b@),
{
    if a.len() != b.len() {
        return false;
    }
    let mut i: usize = 0;
    while i < a.len()
        invariant
            a@.len() == b@.len(),
            0 <= i <= a@.len(),
            forall|j: int| 0 <= j < i ==> a@[j] == b@[j],
        decreases a@.len() - i,
    {
        if a[i] != b[i] {
            return false;
        }
        i = i + 1;
    }
    assert(a@ =~= b@);
    true
}

/// A copy of a byte string.
pub fn copy_bytes(v: &Vec<u8>) -> (r: Vec<u8>)
    ensures
        r@ == v@,
{
    let r = v.clone();
    assert(r@ =~= v@);
    r
}


/// Removing the keys of `ks` one after the other removes exactly the set of
/// them, whatever their order and repetitions.
pub proof fn lemma_without_is_remove_keys<V>(m: Map<Seq<u8>, V>, ks: Seq<Seq<u8>>)
    ensures
        without(m, ks) == m.remove_keys(ks.to_set()),
    decreases ks.len(),
{
    if ks.len() > 0 {
        lemma_without_is_remove_keys(m, ks.drop_last());
        assert(ks.to_set() =~= ks.drop_last().to_set().insert(ks.last())) by {
            assert forall|k: Seq<u8>| ks.to_set().contains(k) implies ks.drop_last().to_set().insert(
                ks.last(),
            ).contains(k) by {
                let i = choose|i: int| 0 <= i < ks.len() && ks[i] == k;
                if i < ks.len() - 1 {
                    assert(ks.drop_last()[i] == k);
                }
            }
            assert forall|k: Seq<u8>| ks.drop_last().to_set().insert(ks.last()).contains(
                k,
            ) implies ks.to_set().contains(k) by {
                if k == ks.last() {
                    assert(ks[ks.len() - 1] == k);
                } else {
                    let i = choose|i: int| 0 <= i < ks.drop_last().len() && ks.drop_last()[i] == k;
                    assert(ks[i] == k);
                }
            }
        }
        assert(without(m, ks) =~= m.remove_keys(ks.to_set()));
    } else {
        assert(m.remove_keys(ks.to_set()) =~= m);
    }
}

} // verus!
