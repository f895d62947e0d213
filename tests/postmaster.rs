use post_haste::builder::message;
use post_haste::postmaster::{Diagnostics, Postmaster, Step, DEFAULT_DELAYED_POOL_SIZE, DEFAULT_TIMEOUT_US};
use post_haste::{Message, PostmasterError};

const A: usize = 0;
const B: usize = 1;
const HELLO: u64 = 1;

fn diag(p: &Postmaster) -> (u64, u64) {
    let d: Diagnostics = p.get_diagnostics();
    (d.messages_sent, d.send_failures)
}

fn ok() -> Step {
    Step::Done(Ok(()))
}

fn err(e: PostmasterError) -> Step {
    Step::Done(Err(e))
}

#[test]
fn register_twice_keeps_first_mailbox() {
    let mut p = Postmaster::new(2);
    assert_eq!(p.register(A, 1), ok());
    assert_eq!(p.register(A, 5), err(PostmasterError::AddressAlreadyTaken));
    // The first mailbox, of bound 1, is still the one in the table.
    assert_eq!(p.try_send(A, B, HELLO), Ok(()));
    assert_eq!(p.try_send(A, B, HELLO), Err(PostmasterError::TrySendFailed));
    assert_eq!(p.receive(A), Some(Message { source: B, payload: HELLO }));
}

#[test]
fn register_waits_for_the_table() {
    let mut p = Postmaster::new(1);
    assert!(p.try_lock_table());
    assert_eq!(p.register(A, 1), Step::Wait);
    assert!(!p.is_registered(A));
    p.unlock_table();
    assert_eq!(p.register(A, 1), ok());
    assert!(p.is_registered(A));
}

#[test]
fn send_to_unregistered_address_is_a_failure() {
    let mut p = Postmaster::new(3);
    assert_eq!(p.register(A, 1), ok());
    assert_eq!(p.send(B, A, HELLO), err(PostmasterError::NoRecipient));
    assert_eq!(diag(&p), (0, 1));
    assert_eq!(p.try_send(2, A, HELLO), Err(PostmasterError::NoRecipient));
    assert_eq!(diag(&p), (0, 2));
    assert_eq!(message(B, A, HELLO).with_timeout(3).send(&mut p), err(PostmasterError::NoRecipient));
    assert_eq!(diag(&p), (0, 3));
    assert_eq!(p.send(7, A, HELLO), err(PostmasterError::NoRecipient));
    assert_eq!(diag(&p), (0, 4));
}

#[test]
fn full_queue_times_out_or_fails_at_once() {
    let mut p = Postmaster::new(2);
    assert_eq!(p.register(A, 1), ok());
    assert_eq!(p.send(A, B, HELLO), ok());
    let b = message(A, B, 2).with_timeout(250);
    let deadline = b.deadline_us(&p);
    assert_eq!(deadline, 250);
    assert_eq!(b.send(&mut p), Step::Wait);
    assert_eq!(diag(&p), (1, 0));
    p.advance_time(249);
    assert_eq!(p.send_step(A, b.message, deadline), Step::Wait);
    p.advance_time(1);
    assert_eq!(p.send_step(A, b.message, deadline), err(PostmasterError::Timeout));
    assert_eq!(diag(&p), (1, 1));
    assert_eq!(p.try_send(A, B, HELLO), Err(PostmasterError::TrySendFailed));
    assert_eq!(p.now_us(), 250);
    assert_eq!(p.queue_len(A), Some(1));
    assert_eq!(p.receive(A), Some(Message { source: B, payload: HELLO }));
}

#[test]
fn blocked_send_goes_through_once_room_appears() {
    let mut p = Postmaster::new(2);
    assert_eq!(p.register(A, 1), ok());
    assert_eq!(p.send(A, B, 1), ok());
    let deadline = p.deadline_after(Some(50));
    let m = Message::new(B, 2);
    assert_eq!(p.send_step(A, m, deadline), Step::Wait);
    p.advance_time(20);
    assert_eq!(p.receive(A).map(|m| m.payload), Some(1));
    assert_eq!(p.send_step(A, m, deadline), ok());
    assert_eq!(p.receive(A), Some(m));
    assert_eq!(diag(&p), (2, 0));
}

#[test]
fn default_timeout_is_used_without_one() {
    let mut p = Postmaster::new(1);
    assert_eq!(p.deadline_after(None), DEFAULT_TIMEOUT_US as u64);
    p.set_default_timeout(40);
    p.advance_time(10);
    assert_eq!(p.deadline_after(None), 50);
    assert_eq!(p.deadline_after(Some(7)), 17);
    assert_eq!(message(A, A, HELLO).deadline_us(&p), 50);
    assert_eq!(p.deadline_after(Some(u64::MAX)), u64::MAX);
}

#[test]
fn counters_add_up_to_completed_calls() {
    let mut p = Postmaster::new(2);
    p.set_spawner();
    assert_eq!(p.register(A, 2), ok());
    let mut calls: u64 = 0;
    let _ = p.send(A, B, 1);
    calls += 1;
    let _ = p.try_send(A, B, 2);
    calls += 1;
    let _ = p.try_send(A, B, 3);
    calls += 1;
    let _ = p.send(B, A, 4);
    calls += 1;
    // A blocked send that is still waiting has not completed.
    assert_eq!(p.send(A, B, 5), Step::Wait);
    assert_eq!(message(A, B, 5).with_delay(10).send(&mut p), ok());
    assert_eq!(message(B, A, 6).with_delay(20).send(&mut p), ok());
    assert_eq!(p.receive(A), Some(Message { source: B, payload: 1 }));
    let (sent, failed) = diag(&p);
    assert_eq!(sent + failed, calls);
    assert_eq!(p.advance_time(10), 1);
    calls += 1;
    let (sent, failed) = diag(&p);
    assert_eq!(sent + failed, calls);
    assert_eq!(p.advance_time(10), 1);
    calls += 1;
    let (sent, failed) = diag(&p);
    assert_eq!(sent + failed, calls);
    assert_eq!((sent, failed), (3, 3));
}

#[test]
fn capacity_one_scenario() {
    let mut p = Postmaster::new(2);
    assert_eq!(p.register(A, 1), ok());
    assert_eq!(p.send(A, B, HELLO), ok());
    assert_eq!(p.get_diagnostics().messages_sent, 1);
    assert_eq!(p.try_send(A, B, HELLO), Err(PostmasterError::TrySendFailed));
    let b = message(A, B, HELLO).with_timeout(5);
    let deadline = b.deadline_us(&p);
    assert_eq!(b.send(&mut p), Step::Wait);
    p.advance_time(5);
    assert_eq!(p.send_step(A, b.message, deadline), err(PostmasterError::Timeout));
    assert_eq!(diag(&p), (1, 2));
}

#[test]
fn delayed_send_arrives_when_due() {
    let mut p = Postmaster::new(2);
    p.set_spawner();
    assert_eq!(p.register(A, 1), ok());
    assert_eq!(message(A, B, HELLO).with_delay(2).send(&mut p), ok());
    assert_eq!(p.pending_len(), 1);
    assert_eq!(p.queue_len(A), Some(0));
    assert_eq!(p.advance_time(1), 0);
    assert_eq!(p.queue_len(A), Some(0));
    assert_eq!(p.advance_time(1), 1);
    assert_eq!(p.queue_len(A), Some(1));
    assert_eq!(p.pending_len(), 0);
    assert_eq!(p.receive(A), Some(Message { source: B, payload: HELLO }));
}

#[test]
fn delayed_send_waits_for_room() {
    let mut p = Postmaster::new(2);
    p.set_spawner();
    assert_eq!(p.register(A, 1), ok());
    assert_eq!(p.send(A, B, 1), ok());
    assert_eq!(message(A, B, 2).with_delay(5).with_timeout(10).send(&mut p), ok());
    assert_eq!(p.advance_time(5), 0);
    assert_eq!(p.pending_len(), 1);
    assert_eq!(p.advance_time(4), 0);
    assert_eq!(p.receive(A).map(|m| m.payload), Some(1));
    assert_eq!(p.advance_time(1), 1);
    assert_eq!(p.pending_len(), 0);
    assert_eq!(p.receive(A).map(|m| m.payload), Some(2));
    assert_eq!(diag(&p), (2, 0));
}

#[test]
fn delayed_send_times_out_on_a_full_queue() {
    let mut p = Postmaster::new(2);
    p.set_spawner();
    assert_eq!(p.register(A, 1), ok());
    assert_eq!(p.send(A, B, 1), ok());
    assert_eq!(message(A, B, 2).with_delay(5).with_timeout(10).send(&mut p), ok());
    assert_eq!(p.advance_time(14), 0);
    assert_eq!(p.pending_len(), 1);
    assert_eq!(p.advance_time(1), 1);
    assert_eq!(p.pending_len(), 0);
    assert_eq!(diag(&p), (1, 1));
    assert_eq!(p.queue_len(A), Some(1));
}

#[test]
fn round_trip_keeps_source_and_payload() {
    let mut p = Postmaster::new(2);
    assert_eq!(p.register(B, 1), ok());
    let payload: u64 = 0xdead_beef_0123_4567;
    assert_eq!(p.send(B, A, payload), ok());
    assert_eq!(p.receive(B), Some(Message { source: A, payload }));
    p.try_send(B, B, u64::MAX).unwrap();
    assert_eq!(p.receive(B), Some(Message { source: B, payload: u64::MAX }));
    assert_eq!(p.receive(B), None);
}

#[test]
fn queue_is_first_in_first_out() {
    let mut p = Postmaster::new(1);
    assert_eq!(p.register(A, 3), ok());
    for i in 0..3u64 {
        p.try_send(A, A, i).unwrap();
    }
    assert_eq!(p.queue_len(A), Some(3));
    assert_eq!(p.try_send(A, A, 9), Err(PostmasterError::TrySendFailed));
    for i in 0..3u64 {
        assert_eq!(p.receive(A).map(|m| m.payload), Some(i));
    }
    assert_eq!(p.queue_len(A), Some(0));
    // Room comes back as messages are received.
    assert_eq!(p.try_send(A, A, 9), Ok(()));
}

#[test]
fn held_table_blocks_both_sends() {
    let mut p = Postmaster::new(1);
    assert_eq!(p.register(A, 1), ok());
    assert!(p.try_lock_table());
    assert!(!p.try_lock_table());
    assert_eq!(p.try_send(A, A, HELLO), Err(PostmasterError::TryLockFailed));
    let b = message(A, A, HELLO).with_timeout(7);
    let deadline = b.deadline_us(&p);
    assert_eq!(b.send(&mut p), Step::Wait);
    p.advance_time(7);
    assert_eq!(p.send_step(A, b.message, deadline), err(PostmasterError::Timeout));
    p.unlock_table();
    assert_eq!(p.try_send(A, A, HELLO), Ok(()));
    assert_eq!(diag(&p), (1, 2));
}

#[test]
fn delayed_send_needs_a_spawner() {
    let mut p = Postmaster::new(1);
    assert_eq!(p.register(A, 1), ok());
    assert_eq!(message(A, A, HELLO).with_delay(1).send(&mut p), err(PostmasterError::SpawnerNotSet));
    assert_eq!(p.pending_len(), 0);
    assert_eq!(diag(&p), (0, 0));
}

#[test]
fn delayed_pool_has_a_size() {
    let mut p = Postmaster::with_config(1, 100, 2);
    p.set_spawner();
    assert_eq!(p.register(A, 4), ok());
    assert_eq!(message(A, A, 1).with_delay(5).send(&mut p), ok());
    assert_eq!(message(A, A, 2).with_delay(5).send(&mut p), ok());
    assert_eq!(message(A, A, 3).with_delay(5).send(&mut p), err(PostmasterError::DelayedMessagePoolFull));
    assert_eq!(p.advance_time(5), 2);
    // Finished deliveries free their slots in the pool.
    assert_eq!(message(A, A, 3).with_delay(5).send(&mut p), ok());
}

#[test]
fn default_pool_size_is_eight() {
    let mut p = Postmaster::new(1);
    p.set_spawner();
    for i in 0..DEFAULT_DELAYED_POOL_SIZE as u64 {
        assert_eq!(message(A, A, i).with_delay(1).send(&mut p), ok());
    }
    assert_eq!(message(A, A, 8).with_delay(1).send(&mut p), err(PostmasterError::DelayedMessagePoolFull));
}

#[test]
fn delayed_failure_is_counted_not_reported() {
    let mut p = Postmaster::new(2);
    p.set_spawner();
    assert_eq!(message(B, A, HELLO).with_delay(3).send(&mut p), ok());
    assert_eq!(p.advance_time(3), 1);
    assert_eq!(diag(&p), (0, 1));
}

#[test]
fn delayed_sends_fire_earliest_due_first() {
    let mut p = Postmaster::new(1);
    p.set_spawner();
    assert_eq!(p.register(A, 4), ok());
    for (payload, delay) in [(1u64, 4u64), (2, 2), (3, 4), (4, 9)] {
        assert_eq!(message(A, A, payload).with_delay(delay).send(&mut p), ok());
    }
    assert_eq!(p.advance_time(5), 3);
    assert_eq!(p.pending_len(), 1);
    assert_eq!(p.receive(A).map(|m| m.payload), Some(2));
    assert_eq!(p.receive(A).map(|m| m.payload), Some(1));
    assert_eq!(p.receive(A).map(|m| m.payload), Some(3));
    assert_eq!(p.receive(A), None);
}

#[test]
fn delayed_due_time_saturates() {
    let mut p = Postmaster::new(1);
    p.set_spawner();
    assert_eq!(p.register(A, 1), ok());
    p.advance_time(10);
    assert_eq!(message(A, A, HELLO).with_delay(u64::MAX).send(&mut p), ok());
    assert_eq!(p.advance_time(u64::MAX - 11), 0);
    assert_eq!(p.advance_time(5), 1);
    assert_eq!(p.now_us(), u64::MAX);
    assert_eq!(p.queue_len(A), Some(1));
}

#[test]
fn new_postmaster_is_empty() {
    let p = Postmaster::new(4);
    assert_eq!(p.address_count(), 4);
    for a in 0..4 {
        assert!(!p.is_registered(a));
        assert_eq!(p.queue_len(a), None);
    }
    assert_eq!(diag(&p), (0, 0));
    assert_eq!(p.now_us(), 0);
}

#[test]
fn receive_without_mailbox_is_none() {
    let mut p = Postmaster::new(2);
    assert_eq!(p.receive(A), None);
    assert_eq!(p.register(A, 1), ok());
    assert!(p.is_registered(A));
    assert_eq!(p.receive(A), None);
}

#[test]
fn try_send_error_converts_to_try_send_failed() {
    let full = tokio::sync::mpsc::error::TrySendError::Full(3u8);
    let closed = tokio::sync::mpsc::error::TrySendError::Closed(3u8);
    assert_eq!(PostmasterError::from(full), PostmasterError::TrySendFailed);
    assert_eq!(PostmasterError::from(closed), PostmasterError::TrySendFailed);
}

#[test]
fn builder_keeps_its_settings() {
    let b = message(1, 0, 42).with_timeout(9).with_delay(3);
    assert_eq!(b.destination, 1);
    assert_eq!(b.message, Message::new(0, 42));
    assert_eq!(b.timeout_us, Some(9));
    assert_eq!(b.delay_us, Some(3));
}
