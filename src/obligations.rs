use std::collections::VecDeque;
use vstd::prelude::*;

use crate::byte_map::ByteMap;
use crate::error::StoreResult;
use crate::keys::{copy_bytes, key_seq, opt_view, without};

verus! {

/// The waiters queued for `k` in `m`, oldest first; empty when none wait.
pub open spec fn queue_of<R>(m: Map<Seq<u8>, Seq<R>>, k: Seq<u8>) -> Seq<R> {
    if m.contains_key(k) {
        m[k]
    } else {
        Seq::empty()
    }
}

/// Every waiter of `q`, in order, paired with the value `v` it receives.
pub open spec fn notified<R>(q: Seq<R>, v: Option<Seq<u8>>) -> Seq<(R, Option<Seq<u8>>)> {
    q.map_values(|r: R| (r, v))
}

/// The abstract content of a list of wakeups.
pub open spec fn wake_view<R>(w: Seq<(R, Option<Vec<u8>>)>) -> Seq<(R, Option<Seq<u8>>)> {
    w.map_values(|p: (R, Option<Vec<u8>>)| (p.0, opt_view(p.1)))
}

/// The wakeups of resolving the keys of `ks` one after the other, each
/// waiter receiving no value: a key that occurs twice wakes nobody the
/// second time.
pub open spec fn batch_notified<R>(m: Map<Seq<u8>, Seq<R>>, ks: Seq<Seq<u8>>) -> Seq<
    (R, Option<Seq<u8>>),
>
    decreases ks.len(),
{
    if ks.len() == 0 {
        Seq::empty()
    } else {
        batch_notified(m, ks.drop_last()) + notified(
            queue_of(without(m, ks.drop_last()), ks.last()),
            None,
        )
    }
}

/// For each key that still lacks a value, the queue of reply slots that
/// wait for it, in the order they were registered.
///
/// A key stands in the table only while at least one waiter is pending.
pub struct ObligationTable<R> {
    queues: ByteMap<VecDeque<R>>,
}

impl<R> View for ObligationTable<R> {
    type V = Map<Seq<u8>, Seq<R>>;

    closed spec fn view(&self) -> Map<Seq<u8>, Seq<R>> {
        self.queues@
    }
}

impl<R> ObligationTable<R> {
    /// The table is well formed and holds no empty queue.
    pub closed spec fn wf(&self) -> bool {
        &&& self.queues.wf()
        &&& forall|k: Seq<u8>| #[trigger] self@.contains_key(k) ==> self@[k].len() > 0
    }

    /// Every queue in the table holds at least one waiter.
    pub proof fn lemma_queues_non_empty(&self, k: Seq<u8>)
        requires
            self.wf(),
            self@.contains_key(k),
        ensures
            self@[k].len() > 0,
    {
    }

    /// An empty table.
    pub fn new() -> (t: Self)
        ensures
            t.wf(),
            t@ == Map::<Seq<u8>, Seq<R>>::empty(),
    {
        ObligationTable { queues: ByteMap::new() }
    }

    /// The number of keys with pending waiters.
    pub fn len(&self) -> (n: usize)
        requires
            self.wf(),
        ensures
            n == self@.dom().len(),
    {
        self.queues.len()
    }

    /// Appends `slot` to the queue of `key`, creating the queue if needed.
    pub fn register(&mut self, key: Vec<u8>, slot: R)
        requires
            old(self).wf(),
        ensures
            final(self).wf(),
            final(self)@ == old(self)@.insert(key@, queue_of(old(self)@, key@).push(slot)),
    {
        let mut q = match self.queues.remove(&key) {
            Some(q) => q,
            None => VecDeque::new(),
        };
        q.push_back(slot);
        let ghost k = key@;
        self.queues.insert(key, q);
        assert forall|kk: Seq<u8>| #[trigger] self@.contains_key(kk) implies self@[kk].len() > 0 by {
            if kk != k {
                assert(old(self)@.contains_key(kk));
            }
        }
    }

    /// Removes `key` from the table and hands back its waiters, oldest
    /// first.
    pub fn take(&mut self, key: &Vec<u8>) -> (q: VecDeque<R>)
        requires
            old(self).wf(),
        ensures
            final(self).wf(),
            q@ == queue_of(old(self)@, key@),
            final(self)@ == old(self)@.remove(key@),
    {
        let q = match self.queues.remove(key) {
            Some(q) => q,
            None => VecDeque::new(),
        };
        assert forall|kk: Seq<u8>| #[trigger] self@.contains_key(kk) implies self@[kk].len() > 0 by {
            assert(old(self)@.contains_key(kk));
        }
        q
    }

    /// Resolves every waiter of `key`, oldest first, each with `value`,
    /// and drops the key from the table.
    pub fn resolve(&mut self, key: &Vec<u8>, value: &Option<Vec<u8>>) -> (out: Vec<
        (R, Option<Vec<u8>>),
    >)
        requires
            old(self).wf(),
        ensures
            final(self).wf(),
            final(self)@ == old(self)@.remove(key@),
            wake_view(out@) == notified(queue_of(old(self)@, key@), opt_view(*value)),
    {
        let mut q = self.take(key);
        let ghost q0 = q@;
        let mut out: Vec<(R, Option<Vec<u8>>)> = Vec::new();
        while q.len() > 0
            invariant
                q0 == out@.map_values(|p: (R, Option<Vec<u8>>)| p.0) + q@,
                forall|j: int| 0 <= j < out@.len() ==> opt_view(#[trigger] out@[j].1) == opt_view(*value),
            decreases q@.len(),
        {
            let slot = q.pop_front().unwrap();
            let v = match value {
                Some(bytes) => Some(copy_bytes(bytes)),
                None => None,
            };
            let ghost before = out@;
            out.push((slot, v));
            assert(out@.map_values(|p: (R, Option<Vec<u8>>)| p.0) =~= before.map_values(
                |p: (R, Option<Vec<u8>>)| p.0,
            ).push(slot));
        }
        assert(out@.map_values(|p: (R, Option<Vec<u8>>)| p.0) =~= q0);
        assert(wake_view(out@) =~= notified(q0, opt_view(*value))) by {
            assert forall|j: int| 0 <= j < q0.len() implies wake_view(out@)[j] == notified(
                q0,
                opt_view(*value),
            )[j] by {
                assert(out@.map_values(|p: (R, Option<Vec<u8>>)| p.0)[j] == q0[j]);
            }
        }
        out
    }

    /// Resolves, key after key, every waiter of the keys of `keys` with no
    /// value.
    pub fn resolve_keys(&mut self, keys: &Vec<Vec<u8>>) -> (out: Vec<(R, Option<Vec<u8>>)>)
        requires
            old(self).wf(),
        ensures
            final(self).wf(),
            final(self)@ == without(old(self)@, key_seq(keys@)),
            wake_view(out@) == batch_notified(old(self)@, key_seq(keys@)),
    {
        let mut out: Vec<(R, Option<Vec<u8>>)> = Vec::new();
        let mut i: usize = 0;
        while i < keys.len()
            invariant
                0 <= i <= keys@.len(),
                self.wf(),
                self@ == without(old(self)@, key_seq(keys@).take(i as int)),
                wake_view(out@) == batch_notified(old(self)@, key_seq(keys@).take(i as int)),
            decreases keys@.len() - i,
        {
            let ghost ks = key_seq(keys@).take(i as int + 1);
            assert(ks.drop_last() =~= key_seq(keys@).take(i as int));
            let mut more = self.resolve(&keys[i], &None);
            let ghost before = out@;
            let ghost added = more@;
            out.append(&mut more);
            assert(wake_view(out@) =~= wake_view(before) + wake_view(added));
            i = i + 1;
        }
        assert(key_seq(keys@).take(keys@.len() as int) =~= key_seq(keys@));
        out
    }

    /// The decision of a read that waits, given what the lookup of `key`
    /// returned: a value is handed straight back to `slot`, and so is a
    /// failed lookup; only when the key has no value does `slot` join the
    /// end of the key's queue.
    pub fn await_value(&mut self, key: Vec<u8>, slot: R, found: StoreResult<Option<Vec<u8>>>) -> (reply: Option<
        (R, StoreResult<Option<Vec<u8>>>),
    >)
        requires
            old(self).wf(),
        ensures
            final(self).wf(),
            match found {
                Ok(None) => reply is None && final(self)@ == old(self)@.insert(
                    key@,
                    queue_of(old(self)@, key@).push(slot),
                ),
                _ => reply == Some((slot, found)) && final(self)@ == old(self)@,
            },
    {
        match found {
            Ok(None) => {
                self.register(key, slot);
                None
            },
            _ => Some((slot, found)),
        }
    }
}

} // verus!
