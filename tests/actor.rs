use typed_store::{Actor, KeyValueBackend, MemoryBackend, Outcome, Response, StoreCommand, StoreError};

fn b(s: &str) -> Vec<u8> {
    s.as_bytes().to_vec()
}

fn v(n: u8) -> Vec<u8> {
    vec![n]
}

fn actor() -> Actor<MemoryBackend, u32> {
    Actor::new(MemoryBackend::new())
}

fn slots(w: &[(u32, Option<Vec<u8>>)]) -> Vec<u32> {
    w.iter().map(|p| p.0).collect()
}

fn read_only() -> Actor<MemoryBackend, u32> {
    let mut m = MemoryBackend::new();
    m.set_read_only(true);
    Actor::new(m)
}

fn refused() -> StoreError {
    StoreError::Backend("store is read-only".to_string())
}

#[test]
fn write_then_read_returns_value() {
    let mut a = actor();
    let (r, w) = a.write(b("a"), v(1));
    assert_eq!(r, Ok(()));
    assert!(w.is_empty());
    assert_eq!(a.read(&b("a")), Ok(Some(v(1))));
}

#[test]
fn read_of_absent_key_is_none() {
    let a = actor();
    assert_eq!(a.read(&b("missing")), Ok(None));
}

#[test]
fn write_overwrites_earlier_value() {
    let mut a = actor();
    a.write(b("a"), v(1));
    a.write(b("a"), v(9));
    assert_eq!(a.read(&b("a")), Ok(Some(v(9))));
    assert_eq!(a.backend().len(), 1);
}

#[test]
fn notify_read_on_present_key_answers_at_once() {
    let mut a = actor();
    a.write(b("k"), v(5));
    let reply = a.notify_read(b("k"), 3);
    assert_eq!(reply, Some((3, Ok(Some(v(5))))));
    assert_eq!(a.pending_keys(), 0);
}

#[test]
fn notify_read_then_write_wakes_with_value() {
    let mut a = actor();
    assert_eq!(a.notify_read(b("b"), 7), None);
    assert_eq!(a.pending_keys(), 1);
    let (_, w) = a.write(b("b"), v(2));
    assert_eq!(w, vec![(7, Some(v(2)))]);
    assert_eq!(a.pending_keys(), 0);
}

#[test]
fn notify_read_then_remove_wakes_with_none() {
    let mut a = actor();
    assert_eq!(a.notify_read(b("b"), 7), None);
    let (r, w) = a.remove(b("b"));
    assert_eq!(r, Ok(()));
    assert_eq!(w, vec![(7, None)]);
    assert_eq!(a.pending_keys(), 0);
}

#[test]
fn waiters_are_woken_in_registration_order() {
    let mut a = actor();
    for s in [4u32, 1, 9, 2] {
        assert_eq!(a.notify_read(b("q"), s), None);
    }
    let (_, w) = a.write(b("q"), v(8));
    assert_eq!(slots(&w), vec![4, 1, 9, 2]);
    assert!(w.iter().all(|p| p.1 == Some(v(8))));
    let (_, again) = a.write(b("q"), v(9));
    assert!(again.is_empty());
}

#[test]
fn write_to_other_key_wakes_nobody() {
    let mut a = actor();
    a.notify_read(b("x"), 1);
    let (_, w) = a.write(b("y"), v(1));
    assert!(w.is_empty());
    assert_eq!(a.pending_keys(), 1);
}

#[test]
fn write_all_then_read_all() {
    let mut a = actor();
    let (r, w) = a.write_all(vec![(b("x"), v(1)), (b("y"), v(2))]);
    assert_eq!(r, Ok(()));
    assert!(w.is_empty());
    assert_eq!(a.read_all(&vec![b("x"), b("y")]), Ok(vec![Some(v(1)), Some(v(2))]));
}

#[test]
fn remove_all_then_read_all() {
    let mut a = actor();
    a.write_all(vec![(b("x"), v(1)), (b("y"), v(2))]);
    let (r, _) = a.remove_all(vec![b("x"), b("y")]);
    assert_eq!(r, Ok(()));
    assert_eq!(a.read_all(&vec![b("x"), b("y")]), Ok(vec![None, None]));
    assert_eq!(a.backend().len(), 0);
}

#[test]
fn read_all_is_aligned_with_keys() {
    let mut a = actor();
    a.write(b("b"), v(2));
    assert_eq!(
        a.read_all(&vec![b("a"), b("b"), b("c"), b("b")]),
        Ok(vec![None, Some(v(2)), None, Some(v(2))])
    );
    assert_eq!(a.read_all(&vec![]), Ok(vec![]));
}

#[test]
fn write_all_with_duplicate_keys_keeps_last() {
    let mut a = actor();
    a.write_all(vec![(b("d"), v(1)), (b("e"), v(5)), (b("d"), v(3))]);
    assert_eq!(a.read(&b("d")), Ok(Some(v(3))));
    assert_eq!(a.read(&b("e")), Ok(Some(v(5))));
    assert_eq!(a.backend().len(), 2);
}

#[test]
fn write_all_wakes_waiters_with_no_value_in_batch_order() {
    let mut a = actor();
    a.notify_read(b("y"), 1);
    a.notify_read(b("x"), 2);
    a.notify_read(b("y"), 3);
    let (r, w) = a.write_all(vec![(b("x"), v(1)), (b("y"), v(2)), (b("x"), v(4))]);
    assert_eq!(r, Ok(()));
    assert_eq!(w, vec![(2, None), (1, None), (3, None)]);
    assert_eq!(a.pending_keys(), 0);
}

#[test]
fn remove_all_wakes_waiters_with_no_value() {
    let mut a = actor();
    a.notify_read(b("m"), 10);
    a.notify_read(b("n"), 11);
    let (r, w) = a.remove_all(vec![b("n"), b("m"), b("z")]);
    assert_eq!(r, Ok(()));
    assert_eq!(w, vec![(11, None), (10, None)]);
}

#[test]
fn remove_then_read_is_none() {
    let mut a = actor();
    a.write(b("k"), v(1));
    a.remove(b("k"));
    assert_eq!(a.read(&b("k")), Ok(None));
    a.remove(b("k"));
    assert_eq!(a.read(&b("k")), Ok(None));
}

#[test]
fn failed_write_all_changes_nothing_and_wakes_nobody() {
    let mut a = read_only();
    a.notify_read(b("x"), 1);
    let (r, w) = a.write_all(vec![(b("x"), v(1)), (b("y"), v(2))]);
    assert_eq!(r, Err(refused()));
    assert!(w.is_empty());
    assert_eq!(a.pending_keys(), 1);
    assert_eq!(a.read_all(&vec![b("x"), b("y")]), Ok(vec![None, None]));
}

#[test]
fn failed_remove_all_reports_error_and_keeps_waiters() {
    let mut a = read_only();
    a.notify_read(b("x"), 1);
    let (r, w) = a.remove_all(vec![b("x")]);
    assert_eq!(r, Err(refused()));
    assert!(w.is_empty());
    assert_eq!(a.pending_keys(), 1);
}

#[test]
fn failed_write_still_wakes_waiters() {
    let mut a = read_only();
    a.notify_read(b("x"), 1);
    let (r, w) = a.write(b("x"), v(6));
    assert_eq!(r, Err(refused()));
    assert_eq!(w, vec![(1, Some(v(6)))]);
    assert_eq!(a.read(&b("x")), Ok(None));
    let (r, w) = a.remove(b("x"));
    assert_eq!(r, Err(refused()));
    assert!(w.is_empty());
}

#[test]
fn handle_replies_to_each_command() {
    let mut a = actor();
    let out: Outcome<u32> = a.handle(StoreCommand::Write(b("a"), v(1)));
    assert!(out.reply.is_none() && out.wakeups.is_empty());
    let out = a.handle(StoreCommand::Read(b("a"), 1));
    assert_eq!(out.reply, Some((1, Response::Value(Ok(Some(v(1)))))));
    let out = a.handle(StoreCommand::NotifyRead(b("b"), 2));
    assert!(out.reply.is_none());
    let out = a.handle(StoreCommand::Write(b("b"), v(2)));
    assert_eq!(out.wakeups, vec![(2, Some(v(2)))]);
    assert!(out.reply.is_none());
    let out = a.handle(StoreCommand::WriteAll(vec![(b("x"), v(1)), (b("y"), v(2))], 3));
    assert_eq!(out.reply, Some((3, Response::Done(Ok(())))));
    let out = a.handle(StoreCommand::ReadAll(vec![b("x"), b("y")], 4));
    assert_eq!(out.reply, Some((4, Response::Values(Ok(vec![Some(v(1)), Some(v(2))])))));
    let out = a.handle(StoreCommand::DeleteAll(vec![b("x"), b("y")], 5));
    assert_eq!(out.reply, Some((5, Response::Done(Ok(())))));
    let out = a.handle(StoreCommand::ReadAll(vec![b("x"), b("y")], 6));
    assert_eq!(out.reply, Some((6, Response::Values(Ok(vec![None, None])))));
    let out = a.handle(StoreCommand::NotifyRead(b("a"), 7));
    assert_eq!(out.reply, Some((7, Response::Value(Ok(Some(v(1)))))));
    let out = a.handle(StoreCommand::Delete(b("a")));
    assert!(out.reply.is_none());
    let out = a.handle(StoreCommand::Read(b("a"), 8));
    assert_eq!(out.reply, Some((8, Response::Value(Ok(None)))));
}

#[test]
fn commands_apply_in_the_order_processed() {
    let mut a = actor();
    let cmds = vec![
        StoreCommand::WriteAll(vec![(b("k"), v(1)), (b("j"), v(1))], 1),
        StoreCommand::DeleteAll(vec![b("k")], 2),
        StoreCommand::Read(b("k"), 3),
        StoreCommand::WriteAll(vec![(b("k"), v(3))], 4),
        StoreCommand::DeleteAll(vec![b("j")], 5),
        StoreCommand::Read(b("k"), 6),
    ];
    let mut replies = Vec::new();
    for c in cmds {
        replies.push(a.handle(c).reply.unwrap());
    }
    assert_eq!(replies[2], (3, Response::Value(Ok(None))));
    assert_eq!(replies[5], (6, Response::Value(Ok(Some(v(3))))));
    assert_eq!(a.read_all(&vec![b("k"), b("j")]), Ok(vec![Some(v(3)), None]));
}

#[test]
fn failed_write_all_keeps_earlier_values() {
    let mut m = MemoryBackend::new();
    assert_eq!(m.insert(&b("x"), &v(1)), Ok(()));
    m.set_read_only(true);
    let mut a: Actor<MemoryBackend, u32> = Actor::new(m);
    let (r, w) = a.write_all(vec![(b("y"), v(2)), (b("x"), v(3))]);
    assert_eq!(r, Err(refused()));
    assert!(w.is_empty());
    assert_eq!(a.read_all(&vec![b("x"), b("y")]), Ok(vec![Some(v(1)), None]));
    let out = a.handle(StoreCommand::WriteAll(vec![(b("x"), v(4))], 9));
    assert_eq!(out.reply, Some((9, Response::Done(Err(refused())))));
    let out = a.handle(StoreCommand::DeleteAll(vec![b("x")], 10));
    assert_eq!(out.reply, Some((10, Response::Done(Err(refused())))));
    assert_eq!(a.read(&b("x")), Ok(Some(v(1))));
}

#[test]
fn example_scenario() {
    let mut a = actor();
    a.handle(StoreCommand::Write(b("a"), v(1)));
    let out = a.handle(StoreCommand::Read(b("a"), 1));
    assert_eq!(out.reply, Some((1, Response::Value(Ok(Some(v(1)))))));
    let out = a.handle(StoreCommand::NotifyRead(b("b"), 2));
    assert!(out.reply.is_none());
    let out = a.handle(StoreCommand::Write(b("b"), v(2)));
    assert_eq!(out.wakeups, vec![(2, Some(v(2)))]);
    let out = a.handle(StoreCommand::WriteAll(vec![(b("x"), v(1)), (b("y"), v(2))], 3));
    assert_eq!(out.reply, Some((3, Response::Done(Ok(())))));
    let out = a.handle(StoreCommand::ReadAll(vec![b("x"), b("y")], 4));
    assert_eq!(out.reply, Some((4, Response::Values(Ok(vec![Some(v(1)), Some(v(2))])))));
    let out = a.handle(StoreCommand::DeleteAll(vec![b("x"), b("y")], 5));
    assert_eq!(out.reply, Some((5, Response::Done(Ok(())))));
    let out = a.handle(StoreCommand::ReadAll(vec![b("x"), b("y")], 6));
    assert_eq!(out.reply, Some((6, Response::Values(Ok(vec![None, None])))));
}

#[test]
fn notify_read_with_value_registers_nothing_and_later_write_wakes_nobody() {
    let mut a = actor();
    a.write(b("k"), v(1));
    assert_eq!(a.notify_read(b("k"), 1), Some((1, Ok(Some(v(1))))));
    let (_, w) = a.write(b("k"), v(2));
    assert!(w.is_empty());
}

#[test]
fn write_then_notify_read_answers_at_once() {
    let mut a = actor();
    let out = a.handle(StoreCommand::Write(b("b"), v(2)));
    assert!(out.wakeups.is_empty());
    let out = a.handle(StoreCommand::NotifyRead(b("b"), 1));
    assert_eq!(out.reply, Some((1, Response::Value(Ok(Some(v(2)))))));
    assert_eq!(a.pending_keys(), 0);
}
