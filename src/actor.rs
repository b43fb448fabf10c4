use vstd::prelude::*;

use crate::backend::{lookup, lookups, opts_view, pairs_view, written, KeyValueBackend};
use crate::error::{StoreError, StoreResult};
use crate::keys::{key_seq, keys_of, opt_view, pair_keys, result_view, without};
use crate::obligations::{batch_notified, notified, queue_of, wake_view, ObligationTable};

verus! {

/// A request to the actor. `R` is the reply slot that the caller waits on;
/// writes and deletes carry none.
#[derive(Debug)]
pub enum StoreCommand<R> {
    Write(Vec<u8>, Vec<u8>),
    WriteAll(Vec<(Vec<u8>, Vec<u8>)>, R),
    Delete(Vec<u8>),
    DeleteAll(Vec<Vec<u8>>, R),
    Read(Vec<u8>, R),
    ReadAll(Vec<Vec<u8>>, R),
    NotifyRead(Vec<u8>, R),
}

/// What a reply slot receives.
#[derive(Debug, PartialEq, Eq)]
pub enum Response {
    /// The outcome of a batch write or delete.
    Done(StoreResult<()>),
    /// A single value, or its absence.
    Value(StoreResult<Option<Vec<u8>>>),
    /// Values aligned with the keys asked for.
    Values(StoreResult<Vec<Option<Vec<u8>>>>),
}

/// What the actor hands back after one command: the waiters to wake, in
/// order, each with the value it receives, and the reply to the command's
/// own slot, if one is due now.
#[derive(Debug)]
pub struct Outcome<R> {
    pub wakeups: Vec<(R, Option<Vec<u8>>)>,
    pub reply: Option<(R, Response)>,
}

/// A change to the backend that took effect.
pub enum Mutation {
    Write(Seq<u8>, Seq<u8>),
    WriteAll(Seq<(Seq<u8>, Seq<u8>)>),
    Delete(Seq<u8>),
    DeleteAll(Seq<Seq<u8>>),
}

/// The map after one mutation.
pub open spec fn apply(m: Map<Seq<u8>, Seq<u8>>, op: Mutation) -> Map<Seq<u8>, Seq<u8>> {
    match op {
        Mutation::Write(k, v) => m.insert(k, v),
        Mutation::WriteAll(ps) => written(m, ps),
        Mutation::Delete(k) => m.remove(k),
        Mutation::DeleteAll(ks) => m.remove_keys(ks.to_set()),
    }
}

/// The mutation that a command asks for, if it asks for one.
pub open spec fn mutation_of<R>(cmd: StoreCommand<R>) -> Option<Mutation> {
    match cmd {
        StoreCommand::Write(k, v) => Some(Mutation::Write(k@, v@)),
        StoreCommand::WriteAll(ps, _) => Some(Mutation::WriteAll(pairs_view(ps@))),
        StoreCommand::Delete(k) => Some(Mutation::Delete(k@)),
        StoreCommand::DeleteAll(ks, _) => Some(Mutation::DeleteAll(key_seq(ks@))),
        _ => None,
    }
}

/// The map after the mutations of `log`, applied one after the other.
pub open spec fn replay(m: Map<Seq<u8>, Seq<u8>>, log: Seq<Mutation>) -> Map<Seq<u8>, Seq<u8>>
    decreases log.len(),
{
    if log.len() == 0 {
        m
    } else {
        apply(replay(m, log.drop_last()), log.last())
    }
}

/// Replaying one more mutation applies it to what the earlier ones made.
pub proof fn lemma_replay_push(m: Map<Seq<u8>, Seq<u8>>, log: Seq<Mutation>, op: Mutation)
    ensures
        replay(m, log.push(op)) == apply(replay(m, log), op),
{
    assert(log.push(op).drop_last() =~= log);
}

/// The single consumer of commands: it owns the backend and the table of
/// pending waiters, and applies commands one at a time.
pub struct Actor<B, R> {
    backend: B,
    obligations: ObligationTable<R>,
    initial: Ghost<Map<Seq<u8>, Seq<u8>>>,
    log: Ghost<Seq<Mutation>>,
}

impl<B: KeyValueBackend, R> Actor<B, R> {
    /// The backend's map is what the mutations that took effect, in the
    /// order they were applied, made of the map the actor started with.
    pub closed spec fn wf(&self) -> bool {
        &&& self.backend.inv()
        &&& self.obligations.wf()
        &&& self.backend.contents() == replay(self.initial@, self.log@)
    }

    /// The backend's map.
    pub closed spec fn contents(&self) -> Map<Seq<u8>, Seq<u8>> {
        self.backend.contents()
    }

    /// The pending waiters of each key, oldest first.
    pub closed spec fn waiters(&self) -> Map<Seq<u8>, Seq<R>> {
        self.obligations@
    }

    /// The backend's map when the actor started.
    pub closed spec fn initial(&self) -> Map<Seq<u8>, Seq<u8>> {
        self.initial@
    }

    /// The mutations that took effect, in the order the actor applied them.
    pub closed spec fn log(&self) -> Seq<Mutation> {
        self.log@
    }

    /// Whether the backend's lookups are sure to succeed.
    pub closed spec fn lookups_succeed(&self) -> bool {
        self.backend.lookups_succeed()
    }

    /// Whether the backend's mutations are sure to succeed.
    pub closed spec fn mutations_succeed(&self) -> bool {
        self.backend.mutations_succeed()
    }

    /// A step keeps what the backend is sure of, and the starting map.
    pub open spec fn keeps_mode(self, post: Self) -> bool {
        &&& post.initial() == self.initial()
        &&& post.lookups_succeed() == self.lookups_succeed()
        &&& post.mutations_succeed() == self.mutations_succeed()
    }

    /// One write, as the actor performs it: the value is stored when `ok`
    /// (the backend succeeded) and nothing changes in the backend otherwise;
    /// either way every waiter of the key receives the value.
    pub open spec fn write_step(
        self,
        post: Self,
        k: Seq<u8>,
        v: Seq<u8>,
        ok: bool,
        w: Seq<(R, Option<Seq<u8>>)>,
    ) -> bool {
        &&& self.keeps_mode(post)
        &&& self.mutations_succeed() ==> ok
        &&& if ok {
            &&& post.log() == self.log().push(Mutation::Write(k, v))
            &&& post.contents() == self.contents().insert(k, v)
        } else {
            &&& post.log() == self.log()
            &&& post.contents() == self.contents()
        }
        &&& post.waiters() == self.waiters().remove(k)
        &&& w == notified(queue_of(self.waiters(), k), Some(v))
    }

    /// One delete, as the actor performs it: the key is removed when `ok`
    /// (the backend succeeded) and nothing changes in the backend otherwise;
    /// either way every waiter of the key receives no value.
    pub open spec fn remove_step(
        self,
        post: Self,
        k: Seq<u8>,
        ok: bool,
        w: Seq<(R, Option<Seq<u8>>)>,
    ) -> bool {
        &&& self.keeps_mode(post)
        &&& self.mutations_succeed() ==> ok
        &&& if ok {
            &&& post.log() == self.log().push(Mutation::Delete(k))
            &&& post.contents() == self.contents().remove(k)
        } else {
            &&& post.log() == self.log()
            &&& post.contents() == self.contents()
        }
        &&& post.waiters() == self.waiters().remove(k)
        &&& w == notified(queue_of(self.waiters(), k), None)
    }

    /// One batch write: on success all pairs are stored and the waiters of
    /// every written key, key after key, receive no value; on failure
    /// nothing changes and nobody wakes.
    pub open spec fn write_all_step(
        self,
        post: Self,
        ps: Seq<(Seq<u8>, Seq<u8>)>,
        ok: bool,
        w: Seq<(R, Option<Seq<u8>>)>,
    ) -> bool {
        let ks = ps.map_values(|p: (Seq<u8>, Seq<u8>)| p.0);
        &&& self.keeps_mode(post)
        &&& self.mutations_succeed() ==> ok
        &&& if ok {
            &&& post.log() == self.log().push(Mutation::WriteAll(ps))
            &&& post.contents() == written(self.contents(), ps)
            &&& post.waiters() == without(self.waiters(), ks)
            &&& w == batch_notified(self.waiters(), ks)
        } else {
            &&& post.log() == self.log()
            &&& post.contents() == self.contents()
            &&& post.waiters() == self.waiters()
            &&& w.len() == 0
        }
    }

    /// One batch delete: on success all keys are removed and their waiters,
    /// key after key, receive no value; on failure nothing changes and
    /// nobody wakes.
    pub open spec fn remove_all_step(
        self,
        post: Self,
        ks: Seq<Seq<u8>>,
        ok: bool,
        w: Seq<(R, Option<Seq<u8>>)>,
    ) -> bool {
        &&& self.keeps_mode(post)
        &&& self.mutations_succeed() ==> ok
        &&& if ok {
            &&& post.log() == self.log().push(Mutation::DeleteAll(ks))
            &&& post.contents() == self.contents().remove_keys(ks.to_set())
            &&& post.waiters() == without(self.waiters(), ks)
            &&& w == batch_notified(self.waiters(), ks)
        } else {
            &&& post.log() == self.log()
            &&& post.contents() == self.contents()
            &&& post.waiters() == self.waiters()
            &&& w.len() == 0
        }
    }

    /// One waiting read: a key that holds a value gets it back at once,
    /// and a failed lookup is handed back at once too; in both cases
    /// nothing is registered. Only a key that has no value queues the slot,
    /// at the end of the key's queue.
    pub open spec fn notify_step(
        self,
        post: Self,
        k: Seq<u8>,
        slot: R,
        reply: Option<(R, Result<Option<Seq<u8>>, StoreError>)>,
    ) -> bool {
        &&& self.keeps_mode(post)
        &&& post.log() == self.log()
        &&& post.contents() == self.contents()
        &&& match reply {
            Some((s, res)) => {
                &&& s == slot
                &&& post.waiters() == self.waiters()
                &&& match res {
                    Ok(v) => v is Some && v == lookup(self.contents(), k),
                    Err(_) => !self.lookups_succeed(),
                }
            },
            None => {
                &&& lookup(self.contents(), k) is None
                &&& post.waiters() == self.waiters().insert(k, queue_of(self.waiters(), k).push(slot))
            },
        }
    }

    /// Total order: whatever commands arrived, and from however many callers,
    /// the backend holds exactly what the mutations that took effect make of
    /// the initial map when applied one after the other in the order the
    /// actor processed them.
    pub proof fn lemma_backend_is_replay(&self)
        requires
            self.wf(),
        ensures
            self.contents() == replay(self.initial(), self.log()),
    {
    }

    /// An actor over `backend`, with no waiters.
    pub fn new(backend: B) -> (a: Self)
        requires
            backend.inv(),
        ensures
            a.wf(),
            a.contents() == backend.contents(),
            a.lookups_succeed() == backend.lookups_succeed(),
            a.mutations_succeed() == backend.mutations_succeed(),
            a.initial() == backend.contents(),
            a.log() == Seq::<Mutation>::empty(),
            a.waiters() == Map::<Seq<u8>, Seq<R>>::empty(),
    {
        let ghost m = backend.contents();
        Actor { backend, obligations: ObligationTable::new(), initial: Ghost(m), log: Ghost(Seq::empty()) }
    }

    /// The backend.
    pub fn backend(&self) -> (b: &B)
        ensures
            b.contents() == self.contents(),
            b.lookups_succeed() == self.lookups_succeed(),
            b.mutations_succeed() == self.mutations_succeed(),
            self.wf() ==> b.inv(),
    {
        &self.backend
    }

    /// The number of keys that have pending waiters.
    pub fn pending_keys(&self) -> (n: usize)
        requires
            self.wf(),
        ensures
            n == self.waiters().dom().len(),
    {
        self.obligations.len()
    }
    /// Applies a write and hands back the backend's outcome; every waiter
    /// of the key is woken with the written value, whatever the outcome.
    pub fn write(&mut self, key: Vec<u8>, value: Vec<u8>) -> (out: (
        StoreResult<()>,
        Vec<(R, Option<Vec<u8>>)>,
    ))
        requires
            old(self).wf(),
        ensures
            final(self).wf(),
            old(self).write_step(*final(self), key@, value@, out.0 is Ok, wake_view(out.1@)),
    {
        let r = self.backend.insert(&key, &value);
        if r.is_ok() {
            proof {
                lemma_replay_push(self.initial@, self.log@, Mutation::Write(key@, value@));
            }
            self.log = Ghost(self.log@.push(Mutation::Write(key@, value@)));
        }
        let some = Some(value);
        (r, self.obligations.resolve(&key, &some))
    }

    /// Applies a delete and hands back the backend's outcome; every waiter
    /// of the key is woken with no value, whatever the outcome.
    pub fn remove(&mut self, key: Vec<u8>) -> (out: (
        StoreResult<()>,
        Vec<(R, Option<Vec<u8>>)>,
    ))
        requires
            old(self).wf(),
        ensures
            final(self).wf(),
            old(self).remove_step(*final(self), key@, out.0 is Ok, wake_view(out.1@)),
    {
        let r = self.backend.remove(&key);
        if r.is_ok() {
            proof {
                lemma_replay_push(self.initial@, self.log@, Mutation::Delete(key@));
            }
            self.log = Ghost(self.log@.push(Mutation::Delete(key@)));
        }
        (r, self.obligations.resolve(&key, &None))
    }

    /// Applies a batch write, all or nothing, and reports its outcome; on
    /// success the waiters of the written keys are woken with no value.
    pub fn write_all(&mut self, pairs: Vec<(Vec<u8>, Vec<u8>)>) -> (out: (
        StoreResult<()>,
        Vec<(R, Option<Vec<u8>>)>,
    ))
        requires
            old(self).wf(),
        ensures
            final(self).wf(),
            old(self).write_all_step(*final(self), pairs_view(pairs@), out.0 is Ok, wake_view(out.1@)),
    {
        let r = self.backend.multi_insert(&pairs);
        let ghost ps = pairs_view(pairs@);
        assert(pair_keys(pairs@) =~= ps.map_values(|p: (Seq<u8>, Seq<u8>)| p.0));
        if r.is_ok() {
            proof {
                lemma_replay_push(self.initial@, self.log@, Mutation::WriteAll(ps));
            }
            self.log = Ghost(self.log@.push(Mutation::WriteAll(ps)));
            let keys = keys_of(&pairs);
            let w = self.obligations.resolve_keys(&keys);
            (r, w)
        } else {
            (r, Vec::new())
        }
    }

    /// Applies a batch delete, all or nothing, and reports its outcome; on
    /// success the waiters of the deleted keys are woken with no value.
    pub fn remove_all(&mut self, keys: Vec<Vec<u8>>) -> (out: (
        StoreResult<()>,
        Vec<(R, Option<Vec<u8>>)>,
    ))
        requires
            old(self).wf(),
        ensures
            final(self).wf(),
            old(self).remove_all_step(*final(self), key_seq(keys@), out.0 is Ok, wake_view(out.1@)),
    {
        let r = self.backend.multi_remove(&keys);
        if r.is_ok() {
            proof {
                lemma_replay_push(self.initial@, self.log@, Mutation::DeleteAll(key_seq(keys@)));
            }
            self.log = Ghost(self.log@.push(Mutation::DeleteAll(key_seq(keys@))));
            let w = self.obligations.resolve_keys(&keys);
            (r, w)
        } else {
            (r, Vec::new())
        }
    }

    /// Looks a key up; the backend's answer is handed back as it is.
    pub fn read(&self, key: &Vec<u8>) -> (r: StoreResult<Option<Vec<u8>>>)
        requires
            self.wf(),
        ensures
            r matches Ok(v) ==> opt_view(v) == lookup(self.contents(), key@),
            self.lookups_succeed() ==> r is Ok,
    {
        self.backend.get(key)
    }

    /// Looks keys up; the backend's answer is handed back as it is.
    pub fn read_all(&self, keys: &Vec<Vec<u8>>) -> (r: StoreResult<Vec<Option<Vec<u8>>>>)
        requires
            self.wf(),
        ensures
            r matches Ok(vs) ==> opts_view(vs@) == lookups(self.contents(), key_seq(keys@)),
            self.lookups_succeed() ==> r is Ok,
    {
        self.backend.multi_get(keys)
    }

    /// Answers `slot` at once with the key's value, or with the error of a
    /// failed lookup; queues `slot` for the key's next change only when the
    /// key has no value.
    pub fn notify_read(&mut self, key: Vec<u8>, slot: R) -> (reply: Option<
        (R, StoreResult<Option<Vec<u8>>>),
    >)
        requires
            old(self).wf(),
        ensures
            final(self).wf(),
            old(self).notify_step(
                *final(self),
                key@,
                slot,
                match reply {
                    Some((s, r)) => Some((s, result_view(r))),
                    None => None,
                },
            ),
    {
        let found = self.backend.get(&key);
        self.obligations.await_value(key, slot, found)
    }

    /// Processes one command: applies it to the backend, updates the
    /// waiters, and says whom to wake and what to reply.
    pub fn handle(&mut self, cmd: StoreCommand<R>) -> (out: Outcome<R>)
        requires
            old(self).wf(),
        ensures
            final(self).wf(),
            final(self).keeps_mode(*old(self)),
            match mutation_of(cmd) {
                Some(op) => final(self).log() == old(self).log().push(op) || final(self).log() == old(
                    self,
                ).log(),
                None => final(self).log() == old(self).log(),
            },
            match cmd {
                StoreCommand::Write(k, v) => {
                    &&& out.reply is None
                    &&& {
                        ||| old(self).write_step(*final(self), k@, v@, true, wake_view(out.wakeups@))
                        ||| old(self).write_step(*final(self), k@, v@, false, wake_view(out.wakeups@))
                    }
                },
                StoreCommand::WriteAll(ps, slot) => out.reply matches Some(
                    (s, Response::Done(res)),
                ) && s == slot && old(self).write_all_step(
                    *final(self),
                    pairs_view(ps@),
                    res is Ok,
                    wake_view(out.wakeups@),
                ),
                StoreCommand::Delete(k) => {
                    &&& out.reply is None
                    &&& {
                        ||| old(self).remove_step(*final(self), k@, true, wake_view(out.wakeups@))
                        ||| old(self).remove_step(*final(self), k@, false, wake_view(out.wakeups@))
                    }
                },
                StoreCommand::DeleteAll(ks, slot) => out.reply matches Some(
                    (s, Response::Done(res)),
                ) && s == slot && old(self).remove_all_step(
                    *final(self),
                    key_seq(ks@),
                    res is Ok,
                    wake_view(out.wakeups@),
                ),
                StoreCommand::Read(k, slot) => {
                    &&& *final(self) == *old(self)
                    &&& out.wakeups@.len() == 0
                    &&& out.reply matches Some((s, Response::Value(res))) && s == slot && (res matches Ok(
                        v,
                    ) ==> opt_view(v) == lookup(old(self).contents(), k@)) && (old(self).lookups_succeed()
                        ==> res is Ok)
                },
                StoreCommand::ReadAll(ks, slot) => {
                    &&& *final(self) == *old(self)
                    &&& out.wakeups@.len() == 0
                    &&& out.reply matches Some((s, Response::Values(res))) && s == slot && (res matches Ok(
                        vs,
                    ) ==> opts_view(vs@) == lookups(old(self).contents(), key_seq(ks@))) && (
                    old(self).lookups_succeed() ==> res is Ok)
                },
                StoreCommand::NotifyRead(k, slot) => {
                    &&& out.wakeups@.len() == 0
                    &&& match out.reply {
                        Some((s, Response::Value(r))) => old(self).notify_step(
                            *final(self),
                            k@,
                            slot,
                            Some((s, result_view(r))),
                        ),
                        None => old(self).notify_step(*final(self), k@, slot, None),
                        _ => false,
                    }
                },
            },
    {
        match cmd {
            StoreCommand::Write(key, value) => {
                let (_, wakeups) = self.write(key, value);
                Outcome { wakeups, reply: None }
            },
            StoreCommand::WriteAll(pairs, slot) => {
                let (res, wakeups) = self.write_all(pairs);
                Outcome { wakeups, reply: Some((slot, Response::Done(res))) }
            },
            StoreCommand::Delete(key) => {
                let (_, wakeups) = self.remove(key);
                Outcome { wakeups, reply: None }
            },
            StoreCommand::DeleteAll(keys, slot) => {
                let (res, wakeups) = self.remove_all(keys);
                Outcome { wakeups, reply: Some((slot, Response::Done(res))) }
            },
            StoreCommand::Read(key, slot) => {
                let res = self.read(&key);
                Outcome { wakeups: Vec::new(), reply: Some((slot, Response::Value(res))) }
            },
            StoreCommand::ReadAll(keys, slot) => {
                let res = self.read_all(&keys);
                Outcome { wakeups: Vec::new(), reply: Some((slot, Response::Values(res))) }
            },
            StoreCommand::NotifyRead(key, slot) => {
                let reply = match self.notify_read(key, slot) {
                    Some((s, r)) => Some((s, Response::Value(r))),
                    None => None,
                };
                Outcome { wakeups: Vec::new(), reply }
            },
        }
    }
}

} // verus!
