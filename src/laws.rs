//! Properties of the actor that relate several of its steps.
use vstd::prelude::*;

use crate::actor::{apply, replay, Actor, Mutation};
use crate::backend::{lookup, KeyValueBackend};
use crate::error::StoreError;
use crate::obligations::{notified, queue_of};

verus! {

/// Replaying a log in two parts is replaying the second part on what the
/// first one made.
pub proof fn lemma_replay_concat(m: Map<Seq<u8>, Seq<u8>>, l1: Seq<Mutation>, l2: Seq<Mutation>)
    ensures
        replay(m, l1 + l2) == replay(replay(m, l1), l2),
    decreases l2.len(),
{
    if l2.len() == 0 {
        assert(l1 + l2 =~= l1);
    } else {
        lemma_replay_concat(m, l1, l2.drop_last());
        assert((l1 + l2).drop_last() =~= l1 + l2.drop_last());
        assert((l1 + l2).last() == l2.last());
    }
}

/// A run of commands, each step being one of the actor's steps, leaves the
/// backend as the sequential application of the run's effective mutations
/// to the map before the run.
pub proof fn lemma_run_is_sequential<B: KeyValueBackend, R>(a0: Actor<B, R>, a1: Actor<B, R>)
    requires
        a0.wf(),
        a1.wf(),
        a1.initial() == a0.initial(),
        a0.log().is_prefix_of(a1.log()),
    ensures
        a1.contents() == replay(a0.contents(), a1.log().subrange(a0.log().len() as int, a1.log().len() as int)),
{
    a0.lemma_backend_is_replay();
    a1.lemma_backend_is_replay();
    let rest = a1.log().subrange(a0.log().len() as int, a1.log().len() as int);
    assert(a1.log() =~= a0.log() + rest);
    lemma_replay_concat(a0.initial(), a0.log(), rest);
}

/// A waiting read of a key that holds a value, on a backend whose lookups
/// succeed, is answered at once with that value and registers nobody.
pub proof fn lemma_notify_present_answers<B: KeyValueBackend, R>(
    a0: Actor<B, R>,
    a1: Actor<B, R>,
    k: Seq<u8>,
    v: Seq<u8>,
    slot: R,
    reply: Option<(R, Result<Option<Seq<u8>>, StoreError>)>,
)
    requires
        lookup(a0.contents(), k) == Some(v),
        a0.lookups_succeed(),
        a0.notify_step(a1, k, slot, reply),
    ensures
        reply == Some((slot, Ok::<Option<Seq<u8>>, StoreError>(Some(v)))),
        a1.waiters() == a0.waiters(),
{
}

/// A waiting read queues its slot only while the key has no value.
pub proof fn lemma_queued_only_when_absent<B: KeyValueBackend, R>(
    a0: Actor<B, R>,
    a1: Actor<B, R>,
    k: Seq<u8>,
    slot: R,
)
    requires
        a0.notify_step(a1, k, slot, None),
    ensures
        lookup(a0.contents(), k) is None,
        queue_of(a1.waiters(), k) == queue_of(a0.waiters(), k).push(slot),
{
}

/// A waiting read that comes after a successful write of the key is
/// answered at once: with the written value, unless the lookup failed.
pub proof fn lemma_write_then_notify<B: KeyValueBackend, R>(
    a0: Actor<B, R>,
    a1: Actor<B, R>,
    a2: Actor<B, R>,
    k: Seq<u8>,
    v: Seq<u8>,
    w: Seq<(R, Option<Seq<u8>>)>,
    slot: R,
    reply: Option<(R, Result<Option<Seq<u8>>, StoreError>)>,
)
    requires
        a0.write_step(a1, k, v, true, w),
        a1.notify_step(a2, k, slot, reply),
    ensures
        reply matches Some((s, res)) && s == slot && (res is Ok ==> res == Ok::<
            Option<Seq<u8>>,
            StoreError,
        >(Some(v))),
        a1.lookups_succeed() ==> reply == Some((slot, Ok::<Option<Seq<u8>>, StoreError>(Some(v)))),
        a2.waiters() == a1.waiters(),
{
}

/// A read that waited while the key had no value is woken by the next write
/// of the key, last of the key's waiters, with the written value.
pub proof fn lemma_notify_then_write<B: KeyValueBackend, R>(
    a0: Actor<B, R>,
    a1: Actor<B, R>,
    a2: Actor<B, R>,
    k: Seq<u8>,
    slot: R,
    v: Seq<u8>,
    ok: bool,
    w: Seq<(R, Option<Seq<u8>>)>,
)
    requires
        lookup(a0.contents(), k) is None,
        a0.notify_step(a1, k, slot, None),
        a1.write_step(a2, k, v, ok, w),
    ensures
        w.len() > 0,
        w.last() == (slot, Some(v)),
{
}

/// A read that waited while the key had no value is woken by the next
/// delete of the key, last of the key's waiters, with no value.
pub proof fn lemma_notify_then_remove<B: KeyValueBackend, R>(
    a0: Actor<B, R>,
    a1: Actor<B, R>,
    a2: Actor<B, R>,
    k: Seq<u8>,
    slot: R,
    ok: bool,
    w: Seq<(R, Option<Seq<u8>>)>,
)
    requires
        lookup(a0.contents(), k) is None,
        a0.notify_step(a1, k, slot, None),
        a1.remove_step(a2, k, ok, w),
    ensures
        w.len() > 0,
        w.last() == (slot, None::<Seq<u8>>),
{
}

proof fn lemma_queue_after_registrations<B: KeyValueBackend, R>(
    states: Seq<Actor<B, R>>,
    k: Seq<u8>,
    slots: Seq<R>,
    n: int,
)
    requires
        states.len() == slots.len() + 1,
        0 <= n <= slots.len(),
        forall|i: int|
            0 <= i < slots.len() ==> #[trigger] states[i].notify_step(
                states[i + 1],
                k,
                slots[i],
                None,
            ),
    ensures
        queue_of(states[n].waiters(), k) == queue_of(states[0].waiters(), k) + slots.take(n),
    decreases n,
{
    if n == 0 {
        assert(queue_of(states[0].waiters(), k) + slots.take(0) =~= queue_of(states[0].waiters(), k));
    } else {
        lemma_queue_after_registrations(states, k, slots, n - 1);
        let j = n - 1;
        assert(states[j].notify_step(states[j + 1], k, slots[j], None));
        assert(j + 1 == n);
        assert(queue_of(states[0].waiters(), k) + slots.take(n) =~= (queue_of(states[0].waiters(), k)
            + slots.take(n - 1)).push(slots[n - 1]));
    }
}

/// Waiting reads that queue for a key, one after the other, are all woken
/// by the next write of the key, in the order they registered, after any
/// that were already waiting.
pub proof fn lemma_waiters_fifo<B: KeyValueBackend, R>(
    states: Seq<Actor<B, R>>,
    k: Seq<u8>,
    slots: Seq<R>,
    post: Actor<B, R>,
    v: Seq<u8>,
    ok: bool,
    w: Seq<(R, Option<Seq<u8>>)>,
)
    requires
        states.len() == slots.len() + 1,
        forall|i: int|
            0 <= i < slots.len() ==> #[trigger] states[i].notify_step(
                states[i + 1],
                k,
                slots[i],
                None,
            ),
        states.last().write_step(post, k, v, ok, w),
    ensures
        w == notified(queue_of(states[0].waiters(), k) + slots, Some(v)),
{
    lemma_queue_after_registrations(states, k, slots, slots.len() as int);
    assert(slots.take(slots.len() as int) =~= slots);
}

/// A batch write that failed leaves every key reading as before.
pub proof fn lemma_failed_write_all_invisible<B: KeyValueBackend, R>(
    a0: Actor<B, R>,
    a1: Actor<B, R>,
    ps: Seq<(Seq<u8>, Seq<u8>)>,
    w: Seq<(R, Option<Seq<u8>>)>,
    k: Seq<u8>,
)
    requires
        a0.write_all_step(a1, ps, false, w),
    ensures
        lookup(a1.contents(), k) == lookup(a0.contents(), k),
        w.len() == 0,
{
}

/// After a delete of a key that the backend carried out, the key has no
/// value.
pub proof fn lemma_remove_then_read<B: KeyValueBackend, R>(
    a0: Actor<B, R>,
    a1: Actor<B, R>,
    k: Seq<u8>,
    w: Seq<(R, Option<Seq<u8>>)>,
)
    requires
        a0.remove_step(a1, k, true, w),
    ensures
        lookup(a1.contents(), k) is None,
{
}

/// A batch delete that succeeded leaves none of its keys with a value.
pub proof fn lemma_remove_all_then_read<B: KeyValueBackend, R>(
    a0: Actor<B, R>,
    a1: Actor<B, R>,
    ks: Seq<Seq<u8>>,
    w: Seq<(R, Option<Seq<u8>>)>,
    i: int,
)
    requires
        a0.remove_all_step(a1, ks, true, w),
        0 <= i < ks.len(),
    ensures
        lookup(a1.contents(), ks[i]) is None,
{
    assert(ks.to_set().contains(ks[i]));
}

} // verus!
