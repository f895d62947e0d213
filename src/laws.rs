use vstd::prelude::*;

use crate::error::PostmasterError;
use crate::message::Message;
use crate::postmaster::{
    clamp_u64, earliest, lemma_earliest_in_range, DelayedSend, MailboxView, PostmasterView, Step,
};

verus! {

/// An address is registered once: the first registration succeeds, a second
/// one fails with `AddressAlreadyTaken`, and the table keeps the mailbox of
/// the first.
pub proof fn lemma_register_once(v: PostmasterView, a: int, first_bound: nat, second_bound: nat)
    requires
        v.valid_address(a),
        !v.registered(a),
        !v.table_held,
    ensures
        v.register_outcome(a) == Step::Done(Ok(())),
        v.after_register(a, first_bound).register_outcome(a) == Step::Done(
            Err(PostmasterError::AddressAlreadyTaken),
        ),
        v.after_register(a, first_bound).after_register(a, second_bound) == v.after_register(
            a,
            first_bound,
        ),
        v.after_register(a, first_bound).slots[a] == Some(
            MailboxView { queue: Seq::empty(), bound: first_bound },
        ),
{
}

/// A send to an address that has no mailbox fails with `NoRecipient`,
/// blocking or not, and is counted as a failure and not as a message sent.
pub proof fn lemma_no_recipient(v: PostmasterView, a: int, m: Message, deadline_us: nat)
    requires
        !v.registered(a),
        !v.table_held,
    ensures
        v.try_send_outcome(a) == Err::<(), PostmasterError>(PostmasterError::NoRecipient),
        v.after_try_send(a, m).send_failures == v.send_failures + 1,
        v.after_try_send(a, m).messages_sent == v.messages_sent,
        v.send_step_outcome(a, deadline_us) == Step::Done(Err(PostmasterError::NoRecipient)),
        v.after_send_step(a, m, deadline_us).send_failures == v.send_failures + 1,
        v.after_send_step(a, m, deadline_us).messages_sent == v.messages_sent,
{
}

/// Against a queue that stays full, a blocking send with timeout `t` waits,
/// changing nothing, until the clock reaches `t` after its start, and then
/// fails with `Timeout`, leaving the queues as they were; a non-blocking
/// send fails with `TrySendFailed` at once.
pub proof fn lemma_full_queue(v: PostmasterView, a: int, m: Message, t: u64, later_us: nat)
    requires
        v.registered(a),
        !v.has_room(a),
        !v.table_held,
    ensures
        v.deadline_after(Some(t)) == clamp_u64(v.now_us + t as nat),
        0 < t && v.now_us + t <= u64::MAX ==> v.send_step_outcome(a, v.deadline_after(Some(t)))
            == Step::Wait,
        ({
            let w = PostmasterView { now_us: later_us, ..v };
            let dl = v.deadline_after(Some(t));
            &&& later_us < dl ==> w.send_step_outcome(a, dl) == Step::Wait && w.after_send_step(
                a,
                m,
                dl,
            ) == w
            &&& later_us >= dl ==> w.send_step_outcome(a, dl) == Step::Done(
                Err(PostmasterError::Timeout),
            ) && w.after_send_step(a, m, dl).slots == v.slots && w.after_send_step(
                a,
                m,
                dl,
            ).send_failures == v.send_failures + 1
        }),
        v.try_send_outcome(a) == Err::<(), PostmasterError>(PostmasterError::TrySendFailed),
        v.after_try_send(a, m).now_us == v.now_us,
        v.after_try_send(a, m).slots == v.slots,
{
}

/// Attempting the due deliveries counts each one that leaves the pool
/// exactly once, and leaves the clock and the number of addresses alone.
pub proof fn lemma_fire_due_counts(v: PostmasterView, todo: Seq<DelayedSend>, now: nat)
    ensures
        v.fire_due(todo, now).deliveries() + v.fire_due(todo, now).pending.len() == v.deliveries()
            + v.pending.len() + todo.len(),
        v.fire_due(todo, now).now_us == v.now_us,
        v.fire_due(todo, now).slots.len() == v.slots.len(),
    decreases todo.len(),
{
    if todo.len() > 0 {
        let i = earliest(todo);
        lemma_earliest_in_range(todo);
        let d = todo[i];
        if d.due_us <= now {
            let dl = v.delayed_deadline(d);
            let w = v.after_send_step(d.destination as int, d.message, dl);
            let w2 = if v.send_step_outcome(d.destination as int, dl) is Wait {
                PostmasterView { pending: w.pending.push(d), ..w }
            } else {
                w
            };
            lemma_fire_due_counts(w2, todo.remove(i), now);
        }
    }
}

/// Every finished delivery attempt, direct or delayed, adds one to exactly
/// one counter, and nothing else changes them: an attempt that waits,
/// registering, receiving and scheduling a delayed delivery leave the sum of
/// the counters as it was, and moving the clock adds one for each pending
/// delivery that finishes.
pub proof fn lemma_counters_count_deliveries(
    v: PostmasterView,
    a: int,
    m: Message,
    deadline_us: nat,
    bound: nat,
    d: DelayedSend,
    elapsed_us: nat,
)
    requires
        v.valid_address(a),
    ensures
        v.after_try_send(a, m).deliveries() == v.deliveries() + 1,
        v.send_step_outcome(a, deadline_us) is Done ==> v.after_send_step(a, m, deadline_us).deliveries()
            == v.deliveries() + 1,
        v.send_step_outcome(a, deadline_us) is Wait ==> v.after_send_step(a, m, deadline_us)
            == v,
        v.after_register(a, bound).deliveries() == v.deliveries(),
        v.after_receive(a).deliveries() == v.deliveries(),
        v.after_schedule(d).deliveries() == v.deliveries(),
        v.after_advance(elapsed_us).deliveries() + v.after_advance(elapsed_us).pending.len()
            == v.deliveries() + v.pending.len(),
{
    let now = clamp_u64(v.now_us + elapsed_us);
    lemma_fire_due_counts(PostmasterView { now_us: now, pending: Seq::empty(), ..v }, v.pending, now);
}

/// A message that goes into an empty queue comes out of it unchanged, by
/// either kind of send.
pub proof fn lemma_round_trip(v: PostmasterView, a: int, m: Message, deadline_us: nat)
    requires
        v.wf(),
        v.registered(a),
        v.slots[a]->Some_0.queue.len() == 0,
        !v.table_held,
    ensures
        v.try_send_outcome(a) == Ok::<(), PostmasterError>(()),
        v.after_try_send(a, m).receive_outcome(a) == Some(m),
        v.send_step_outcome(a, deadline_us) == Step::Done(Ok(())),
        v.after_send_step(a, m, deadline_us).receive_outcome(a) == Some(m),
        v.after_send_step(a, m, deadline_us).after_receive(a).slots == v.slots,
{
    let w = v.after_send_step(a, m, deadline_us);
    let mb = v.slots[a]->Some_0;
    assert(mb.queue =~= Seq::<Message>::empty());
    assert(mb.queue.push(m).drop_first() =~= mb.queue);
    assert(w.after_receive(a).slots =~= v.slots);
}

/// A delayed delivery, alone in the pool, waits while the clock stays short
/// of its due time. Once the clock reaches it, it is attempted as a blocking
/// send to its destination that gives up at its deadline: it stays in the
/// pool if that attempt has to wait, and leaves it otherwise.
pub proof fn lemma_delayed_fires_when_due(v: PostmasterView, d: DelayedSend, elapsed_us: nat)
    requires
        v.pending == seq![d],
    ensures
        ({
            let now = clamp_u64(v.now_us + elapsed_us);
            let mid = PostmasterView { now_us: now, pending: Seq::empty(), ..v };
            let dl = mid.delayed_deadline(d);
            &&& now < d.due_us ==> v.after_advance(elapsed_us) == (PostmasterView {
                now_us: now,
                ..v
            })
            &&& now >= d.due_us ==> v.after_advance(elapsed_us) == if mid.send_step_outcome(
                d.destination as int,
                dl,
            ) is Wait {
                PostmasterView { pending: seq![d], ..mid }
            } else {
                mid.after_send_step(d.destination as int, d.message, dl)
            }
        }),
{
    let now = clamp_u64(v.now_us + elapsed_us);
    let mid = PostmasterView { now_us: now, pending: Seq::empty(), ..v };
    assert(earliest(v.pending) == 0);
    assert(v.pending.remove(0) =~= Seq::<DelayedSend>::empty());
    if now < d.due_us {
        assert(Seq::<DelayedSend>::empty() + v.pending =~= v.pending);
        assert(mid.fire_due(v.pending, now) == PostmasterView { pending: mid.pending + v.pending, ..mid });
    } else {
        let dl = mid.delayed_deadline(d);
        let w = mid.after_send_step(d.destination as int, d.message, dl);
        assert(w.pending == Seq::<DelayedSend>::empty());
        assert(w.pending.push(d) =~= seq![d]);
        let w2 = if mid.send_step_outcome(d.destination as int, dl) is Wait {
            PostmasterView { pending: w.pending.push(d), ..w }
        } else {
            w
        };
        assert(mid.fire_due(v.pending, now) == w2.fire_due(v.pending.remove(0), now));
        assert(w2.fire_due(Seq::empty(), now) == w2);
    }
}

} // verus!
