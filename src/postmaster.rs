use vstd::prelude::*;

use crate::error::PostmasterError;
use crate::mailbox::{mailbox_bound, mailbox_contents, new_mailbox, Mailbox, MAX_QUEUE_BOUND};
use crate::message::{Address, Message};

verus! {

/// Default per-call timeout of a blocking send, in microseconds.
pub const DEFAULT_TIMEOUT_US: u32 = 100;

/// Default number of delayed deliveries that may wait at the same time.
pub const DEFAULT_DELAYED_POOL_SIZE: usize = 8;

/// What the model knows of one registered mailbox.
pub ghost struct MailboxView {
    pub queue: Seq<Message>,
    pub bound: nat,
}

/// The mathematical state of a postmaster.
pub ghost struct PostmasterView {
    /// One slot per address: `None` until the address is registered.
    pub slots: Seq<Option<MailboxView>>,
    /// Whether some task holds the mailbox table's guard.
    pub table_held: bool,
    pub default_timeout_us: nat,
    pub spawner_set: bool,
    pub pool_size: nat,
    /// Delayed deliveries that have not finished: those not yet due, and
    /// those due that wait for room or for the table's guard.
    pub pending: Seq<DelayedSend>,
    pub now_us: nat,
    pub messages_sent: nat,
    pub send_failures: nat,
}

/// A delivery scheduled to be attempted once the clock reaches `due_us`.
#[derive(Debug, Clone, Copy, PartialEq, Eq, Structural)]
pub struct DelayedSend {
    pub destination: Address,
    pub message: Message,
    pub due_us: u64,
    pub timeout_us: Option<u64>,
}

/// A point-in-time copy of the delivery counters.
#[derive(Debug, Clone, Copy, PartialEq, Eq, Structural)]
pub struct Diagnostics {
    pub messages_sent: u64,
    pub send_failures: u64,
}

/// The result of one attempt at an operation that may have to wait: it is
/// either done, with its outcome, or has to be tried again later.
#[derive(Debug, Clone, Copy, PartialEq, Eq)]
pub enum Step {
    Done(Result<(), PostmasterError>),
    Wait,
}

/// The process-wide routing state: the mailbox table, the delayed-delivery
/// pool, a clock in microseconds and the delivery counters.
pub struct Postmaster {
    mailboxes: Vec<Option<Mailbox>>,
    table_held: bool,
    timeout_us: u32,
    spawner_set: bool,
    pool_size: usize,
    pending: Vec<DelayedSend>,
    now_us: u64,
    messages_sent: u64,
    send_failures: u64,
}

pub open spec fn slot_view(s: Option<Mailbox>) -> Option<MailboxView> {
    match s {
        Some(m) => Some(MailboxView { queue: mailbox_contents(m), bound: mailbox_bound(m) }),
        None => None,
    }
}

impl View for Postmaster {
    type V = PostmasterView;

    closed spec fn view(&self) -> PostmasterView {
        PostmasterView {
            slots: self.mailboxes@.map_values(|s: Option<Mailbox>| slot_view(s)),
            table_held: self.table_held,
            default_timeout_us: self.timeout_us as nat,
            spawner_set: self.spawner_set,
            pool_size: self.pool_size as nat,
            pending: self.pending@,
            now_us: self.now_us as nat,
            messages_sent: self.messages_sent as nat,
            send_failures: self.send_failures as nat,
        }
    }
}

impl PostmasterView {
    pub open spec fn address_count(self) -> nat {
        self.slots.len()
    }

    pub open spec fn valid_address(self, a: int) -> bool {
        0 <= a < self.slots.len()
    }

    /// Whether `a` is a declared address with a mailbox.
    pub open spec fn registered(self, a: int) -> bool {
        self.valid_address(a) && self.slots[a] is Some
    }

    /// Every queue holds at most its bound, and the pool holds at most its size.
    pub open spec fn wf(self) -> bool {
        &&& self.pending.len() <= self.pool_size
        &&& forall|a: int|
            #![trigger self.slots[a]]
            0 <= a < self.slots.len() && self.slots[a] is Some ==> {
                let mb = self.slots[a]->Some_0;
                0 < mb.bound && mb.queue.len() <= mb.bound
            }
    }

    /// The number of deliveries counted so far, successful or failed.
    pub open spec fn deliveries(self) -> nat {
        self.messages_sent + self.send_failures
    }

    /// Records one delivery outcome in the counters.
    pub open spec fn counted(self, r: Result<(), PostmasterError>) -> PostmasterView {
        if r is Ok {
            PostmasterView { messages_sent: self.messages_sent + 1, ..self }
        } else {
            PostmasterView { send_failures: self.send_failures + 1, ..self }
        }
    }

    /// Appends `m` to the queue of the registered address `a`.
    pub open spec fn enqueued(self, a: int, m: Message) -> PostmasterView {
        let mb = self.slots[a]->Some_0;
        PostmasterView {
            slots: self.slots.update(a, Some(MailboxView { queue: mb.queue.push(m), ..mb })),
            ..self
        }
    }

    /// Whether the queue of the registered address `a` takes another message.
    pub open spec fn has_room(self, a: int) -> bool {
        let mb = self.slots[a]->Some_0;
        mb.queue.len() < mb.bound
    }

    /// Whether a blocking send to `a` has to wait: the table's guard is held
    /// by another task, or the queue of `a` is full.
    pub open spec fn blocked(self, a: int) -> bool {
        self.table_held || (self.registered(a) && !self.has_room(a))
    }

    /// One attempt at registering a mailbox at `a`: registration waits for
    /// the table's guard, then fails on an address that is taken.
    pub open spec fn register_outcome(self, a: int) -> Step {
        if self.table_held {
            Step::Wait
        } else if self.registered(a) {
            Step::Done(Err(PostmasterError::AddressAlreadyTaken))
        } else {
            Step::Done(Ok(()))
        }
    }

    /// State after one attempt at registering a mailbox of the given bound at `a`.
    pub open spec fn after_register(self, a: int, bound: nat) -> PostmasterView {
        if self.table_held || self.registered(a) {
            self
        } else {
            PostmasterView {
                slots: self.slots.update(a, Some(MailboxView { queue: Seq::empty(), bound })),
                ..self
            }
        }
    }

    /// Outcome of a non-blocking send to `a`.
    pub open spec fn try_send_outcome(self, a: int) -> Result<(), PostmasterError> {
        if self.table_held {
            Err(PostmasterError::TryLockFailed)
        } else if !self.registered(a) {
            Err(PostmasterError::NoRecipient)
        } else if !self.has_room(a) {
            Err(PostmasterError::TrySendFailed)
        } else {
            Ok(())
        }
    }

    /// State after a non-blocking send of `m` to `a`.
    pub open spec fn after_try_send(self, a: int, m: Message) -> PostmasterView {
        let r = self.try_send_outcome(a);
        if r is Ok {
            self.enqueued(a, m).counted(r)
        } else {
            self.counted(r)
        }
    }

    /// The timeout a blocking send uses: its own, else the default.
    pub open spec fn effective_timeout(self, timeout_us: Option<u64>) -> nat {
        match timeout_us {
            Some(t) => t as nat,
            None => self.default_timeout_us,
        }
    }

    /// The time by which a blocking send started now gives up.
    pub open spec fn deadline_after(self, timeout_us: Option<u64>) -> nat {
        clamp_u64(self.now_us + self.effective_timeout(timeout_us))
    }

    /// One attempt of a blocking send to `a` that gives up at `deadline_us`:
    /// it waits while it is blocked and the deadline is ahead, and times out
    /// once the clock has reached the deadline.
    pub open spec fn send_step_outcome(self, a: int, deadline_us: nat) -> Step {
        if self.blocked(a) {
            if self.now_us < deadline_us {
                Step::Wait
            } else {
                Step::Done(Err(PostmasterError::Timeout))
            }
        } else if !self.registered(a) {
            Step::Done(Err(PostmasterError::NoRecipient))
        } else {
            Step::Done(Ok(()))
        }
    }

    /// State after one attempt of a blocking send of `m` to `a`: a finished
    /// send is counted, one that waits changes nothing.
    pub open spec fn after_send_step(self, a: int, m: Message, deadline_us: nat) -> PostmasterView {
        match self.send_step_outcome(a, deadline_us) {
            Step::Wait => self,
            Step::Done(r) => if r is Ok {
                self.enqueued(a, m).counted(r)
            } else {
                self.counted(r)
            },
        }
    }

    /// The time by which the delayed delivery `d` gives up: its timeout, or
    /// the default, after its due time.
    pub open spec fn delayed_deadline(self, d: DelayedSend) -> nat {
        clamp_u64(d.due_us as nat + self.effective_timeout(d.timeout_us))
    }

    /// State after one attempt of each delivery of `todo` that is due by
    /// `now`, earliest due first (of equal ones, the one scheduled first), as
    /// the delayed tasks wake in that order. A delivery that has to wait goes
    /// back to the pool; a finished one leaves it and is only counted.
    pub open spec fn fire_due(self, todo: Seq<DelayedSend>, now: nat) -> PostmasterView
        decreases todo.len(),
        via Self::fire_due_decreases
    {
        if todo.len() == 0 {
            self
        } else {
            let i = earliest(todo);
            let d = todo[i];
            if d.due_us > now {
                PostmasterView { pending: self.pending + todo, ..self }
            } else {
                let dl = self.delayed_deadline(d);
                let w = self.after_send_step(d.destination as int, d.message, dl);
                let w2 = if self.send_step_outcome(d.destination as int, dl) is Wait {
                    PostmasterView { pending: w.pending.push(d), ..w }
                } else {
                    w
                };
                w2.fire_due(todo.remove(i), now)
            }
        }
    }

    #[via_fn]
    proof fn fire_due_decreases(self, todo: Seq<DelayedSend>, now: nat) {
        if todo.len() > 0 {
            lemma_earliest_in_range(todo);
        }
    }

    /// State after the clock moves on by `elapsed_us`: every pending delivery
    /// whose due time has come is attempted.
    pub open spec fn after_advance(self, elapsed_us: nat) -> PostmasterView {
        let now = clamp_u64(self.now_us + elapsed_us);
        PostmasterView { now_us: now, pending: Seq::empty(), ..self }.fire_due(self.pending, now)
    }

    /// Outcome of handing a delivery to the delayed-delivery pool.
    pub open spec fn schedule_outcome(self) -> Result<(), PostmasterError> {
        if !self.spawner_set {
            Err(PostmasterError::SpawnerNotSet)
        } else if self.pending.len() >= self.pool_size {
            Err(PostmasterError::DelayedMessagePoolFull)
        } else {
            Ok(())
        }
    }

    /// State after handing `d` to the delayed-delivery pool.
    pub open spec fn after_schedule(self, d: DelayedSend) -> PostmasterView {
        if self.schedule_outcome() is Ok {
            PostmasterView { pending: self.pending.push(d), ..self }
        } else {
            self
        }
    }

    /// What the owner of address `a` pulls from its queue.
    pub open spec fn receive_outcome(self, a: int) -> Option<Message> {
        if self.registered(a) && self.slots[a]->Some_0.queue.len() > 0 {
            Some(self.slots[a]->Some_0.queue[0])
        } else {
            None
        }
    }

    /// State after the owner of address `a` pulls from its queue.
    pub open spec fn after_receive(self, a: int) -> PostmasterView {
        if self.receive_outcome(a) is Some {
            let mb = self.slots[a]->Some_0;
            PostmasterView {
                slots: self.slots.update(a, Some(MailboxView { queue: mb.queue.drop_first(), ..mb })),
                ..self
            }
        } else {
            self
        }
    }
}

impl Postmaster {
    /// A postmaster for `address_count` addresses, none registered, with the
    /// default timeout and delayed-delivery pool size.
    pub fn new(address_count: usize) -> (r: Postmaster)
        ensures
            r@.slots == Seq::new(address_count as nat, |i: int| None::<MailboxView>),
            !r@.table_held,
            r@.default_timeout_us == DEFAULT_TIMEOUT_US,
            !r@.spawner_set,
            r@.pool_size == DEFAULT_DELAYED_POOL_SIZE,
            r@.pending == Seq::<DelayedSend>::empty(),
            r@.now_us == 0,
            r@.messages_sent == 0,
            r@.send_failures == 0,
            r@.wf(),
    {
        Postmaster::with_config(address_count, DEFAULT_TIMEOUT_US, DEFAULT_DELAYED_POOL_SIZE)
    }

    /// A postmaster for `address_count` addresses, none registered, with the
    /// given default timeout and delayed-delivery pool size.
    pub fn with_config(address_count: usize, default_timeout_us: u32, pool_size: usize) -> (r: Postmaster)
        ensures
            r@.slots == Seq::new(address_count as nat, |i: int| None::<MailboxView>),
            !r@.table_held,
            r@.default_timeout_us == default_timeout_us,
            !r@.spawner_set,
            r@.pool_size == pool_size,
            r@.pending == Seq::<DelayedSend>::empty(),
            r@.now_us == 0,
            r@.messages_sent == 0,
            r@.send_failures == 0,
            r@.wf(),
    {
        let mut mailboxes: Vec<Option<Mailbox>> = Vec::new();
        let mut i: usize = 0;
        while i < address_count
            invariant
                i <= address_count,
                mailboxes@.len() == i,
                forall|j: int| 0 <= j < i ==> mailboxes@[j] is None,
            decreases address_count - i,
        {
            mailboxes.push(None);
            i = i + 1;
        }
        let r = Postmaster {
            mailboxes,
            table_held: false,
            timeout_us: default_timeout_us,
            spawner_set: false,
            pool_size,
            pending: Vec::new(),
            now_us: 0,
            messages_sent: 0,
            send_failures: 0,
        };
        assert(r@.slots =~= Seq::new(address_count as nat, |i: int| None::<MailboxView>));
        r
    }

    /// One attempt at giving address `address` a new empty queue that takes
    /// `bound` messages. While another task holds the table's guard the
    /// attempt waits; an address is registered once for the life of the
    /// postmaster, so a second registration fails and leaves the table as it
    /// was.
    pub fn register(&mut self, address: Address, bound: usize) -> (r: Step)
        requires
            old(self)@.valid_address(address as int),
            0 < bound <= MAX_QUEUE_BOUND,
        ensures
            r == old(self)@.register_outcome(address as int),
            final(self)@ == old(self)@.after_register(address as int, bound as nat),
            old(self)@.wf() ==> final(self)@.wf(),
    {
        if self.table_held {
            return Step::Wait;
        }
        if self.mailboxes[address].is_some() {
            return Step::Done(Err(PostmasterError::AddressAlreadyTaken));
        }
        let ghost before = self.mailboxes@;
        let mb = new_mailbox(bound);
        self.mailboxes.set(address, Some(mb));
        assert(self.mailboxes@ == before.update(address as int, Some(mb)));
        assert(self@.slots =~= old(self)@.slots.update(
            address as int,
            Some(MailboxView { queue: Seq::empty(), bound: bound as nat }),
        ));
        Step::Done(Ok(()))
    }

    /// Records the outcome of one delivery in the counters.
    fn count(&mut self, r: Result<(), PostmasterError>)
        requires
            old(self)@.deliveries() < u64::MAX,
        ensures
            final(self)@ == old(self)@.counted(r),
    {
        if r.is_ok() {
            self.messages_sent = self.messages_sent + 1;
        } else {
            self.send_failures = self.send_failures + 1;
        }
    }

    /// Enqueues a message at `destination` without waiting: fails at once
    /// when the table is held, the address has no mailbox, or its queue is
    /// full. The outcome is counted.
    pub fn try_send(&mut self, destination: Address, source: Address, payload: u64) -> (r: Result<(), PostmasterError>)
        requires
            old(self)@.deliveries() < u64::MAX,
        ensures
            r == old(self)@.try_send_outcome(destination as int),
            final(self)@ == old(self)@.after_try_send(destination as int, Message { source, payload }),
            old(self)@.wf() ==> final(self)@.wf(),
    {
        let m = Message::new(source, payload);
        let r = self.enqueue(destination, m);
        self.count(r);
        r
    }

    /// The time by which a blocking send started now with the given timeout,
    /// or the default one, gives up.
    pub fn deadline_after(&self, timeout_us: Option<u64>) -> (r: u64)
        ensures
            r == self@.deadline_after(timeout_us),
    {
        let t: u64 = match timeout_us {
            Some(t) => t,
            None => self.timeout_us as u64,
        };
        self.now_us.saturating_add(t)
    }

    /// One attempt of a blocking send of `m` to `destination` that gives up
    /// at `deadline_us`. When the table's guard is held or the queue is full
    /// the send waits: it answers `Wait` and changes nothing while the clock
    /// is short of the deadline, and times out once it is not. Otherwise it
    /// enqueues `m`, or fails when the address has no mailbox. A finished
    /// send is counted.
    pub fn send_step(&mut self, destination: Address, m: Message, deadline_us: u64) -> (r: Step)
        requires
            old(self)@.deliveries() < u64::MAX,
        ensures
            r == old(self)@.send_step_outcome(destination as int, deadline_us as nat),
            final(self)@ == old(self)@.after_send_step(destination as int, m, deadline_us as nat),
            old(self)@.wf() ==> final(self)@.wf(),
    {
        let r = self.enqueue(destination, m);
        match r {
            Err(PostmasterError::TryLockFailed) | Err(PostmasterError::TrySendFailed) => {
                if self.now_us < deadline_us {
                    Step::Wait
                } else {
                    let t: Result<(), PostmasterError> = Err(PostmasterError::Timeout);
                    self.count(t);
                    Step::Done(t)
                }
            },
            _ => {
                self.count(r);
                Step::Done(r)
            },
        }
    }

    /// The first attempt of a blocking send of a message to `destination`
    /// with the default timeout; later attempts go through `send_step` with
    /// the deadline `deadline_after(None)` gave before this call.
    pub fn send(&mut self, destination: Address, source: Address, payload: u64) -> (r: Step)
        requires
            old(self)@.deliveries() < u64::MAX,
        ensures
            r == old(self)@.send_step_outcome(destination as int, old(self)@.deadline_after(None)),
            final(self)@ == old(self)@.after_send_step(
                destination as int,
                Message { source, payload },
                old(self)@.deadline_after(None),
            ),
            old(self)@.wf() ==> final(self)@.wf(),
    {
        let deadline = self.deadline_after(None);
        self.send_step(destination, Message::new(source, payload), deadline)
    }

    /// Hands `d` to the delayed-delivery pool: fails when no spawner has been
    /// supplied or the pool is full. Nothing is counted until it fires.
    pub(crate) fn schedule(&mut self, d: DelayedSend) -> (r: Result<(), PostmasterError>)
        ensures
            r == old(self)@.schedule_outcome(),
            final(self)@ == old(self)@.after_schedule(d),
            old(self)@.wf() ==> final(self)@.wf(),
    {
        if !self.spawner_set {
            return Err(PostmasterError::SpawnerNotSet);
        }
        if self.pending.len() >= self.pool_size {
            return Err(PostmasterError::DelayedMessagePoolFull);
        }
        self.pending.push(d);
        Ok(())
    }

    /// Moves the clock on by `elapsed_us`, then makes one attempt at every
    /// pending delivery whose due time has come, earliest due first. One that
    /// has to wait stays in the pool until its deadline; a finished one
    /// leaves it, and its outcome is counted and otherwise dropped. Returns
    /// how many deliveries finished.
    pub fn advance_time(&mut self, elapsed_us: u64) -> (fired: usize)
        requires
            old(self)@.deliveries() + old(self)@.pending.len() <= u64::MAX,
        ensures
            final(self)@ == old(self)@.after_advance(elapsed_us as nat),
            fired == old(self)@.pending.len() - final(self)@.pending.len(),
            final(self)@.deliveries() == old(self)@.deliveries() + fired,
            final(self)@.slots.len() == old(self)@.slots.len(),
            old(self)@.wf() ==> final(self)@.wf(),
    {
        let ghost start = self@;
        self.now_us = self.now_us.saturating_add(elapsed_us);
        let now = self.now_us;
        let mut todo: Vec<DelayedSend> = Vec::new();
        std::mem::swap(&mut todo, &mut self.pending);
        let ghost mid = self@;
        assert(mid == (PostmasterView {
            now_us: clamp_u64(start.now_us + elapsed_us as nat),
            pending: Seq::empty(),
            ..start
        }));
        let total = todo.len();
        let mut fired: usize = 0;
        while todo.len() > 0
            invariant
                total == start.pending.len(),
                self@.now_us == now,
                self@.slots.len() == start.slots.len(),
                self@.pool_size == start.pool_size,
                start.wf() ==> (forall|a: int|
                    #![trigger self@.slots[a]]
                    0 <= a < self@.slots.len() && self@.slots[a] is Some ==> {
                        let mb = self@.slots[a]->Some_0;
                        0 < mb.bound && mb.queue.len() <= mb.bound
                    }),
                self@.deliveries() == start.deliveries() + fired,
                fired + self@.pending.len() + todo@.len() == start.pending.len(),
                start.deliveries() + start.pending.len() <= u64::MAX,
                mid.fire_due(start.pending, now as nat) == self@.fire_due(todo@, now as nat),
            ensures
                self@.fire_due(Seq::empty(), now as nat) == self@,
                mid.fire_due(start.pending, now as nat) == self@,
                self@.deliveries() == start.deliveries() + fired,
                fired + self@.pending.len() == start.pending.len(),
                self@.slots.len() == start.slots.len(),
                start.wf() ==> self@.wf(),
            decreases todo@.len(),
        {
            let i = earliest_index(&todo);
            if todo[i].due_us > now {
                let ghost before = self@;
                let ghost rest = todo@;
                self.pending.append(&mut todo);
                assert(self@ == (PostmasterView { pending: before.pending + rest, ..before }));
                break;
            }
            let d = todo.remove(i);
            let deadline = d.due_us.saturating_add(
                match d.timeout_us {
                    Some(t) => t,
                    None => self.timeout_us as u64,
                },
            );
            let ghost before = self@;
            match self.send_step(d.destination, d.message, deadline) {
                Step::Wait => {
                    self.pending.push(d);
                    assert(self@ == (PostmasterView { pending: before.pending.push(d), ..before }));
                },
                Step::Done(_) => {
                    fired = fired + 1;
                },
            }
        }
        fired
    }

    /// Pulls the oldest message from the queue of `address`, as its owner
    /// does; `None` when the address has no mailbox or its queue is empty.
    pub fn receive(&mut self, address: Address) -> (r: Option<Message>)
        ensures
            r == old(self)@.receive_outcome(address as int),
            final(self)@ == old(self)@.after_receive(address as int),
            old(self)@.wf() ==> final(self)@.wf(),
    {
        if address >= self.mailboxes.len() || self.mailboxes[address].is_none() {
            return None;
        }
        let ghost before = self.mailboxes@;
        let mut slot: Option<Mailbox> = None;
        std::mem::swap(&mut slot, &mut self.mailboxes[address]);
        let mut mb = slot.unwrap();
        let r = mb.try_pop();
        let ghost mb_after = mb;
        self.mailboxes.set(address, Some(mb));
        proof {
            assert(self.mailboxes@ == before.update(address as int, Some(mb_after)));
            let f = |s: Option<Mailbox>| slot_view(s);
            assert(self@.slots =~= old(self)@.slots.update(address as int, f(Some(mb_after))));
            if r is Some {
                assert(self@.slots =~= old(self)@.after_receive(address as int).slots);
            } else {
                assert(self@.slots =~= old(self)@.slots);
            }
        }
        r
    }

    /// The number of messages waiting at `address`; `None` when it has no
    /// mailbox.
    pub fn queue_len(&self, address: Address) -> (r: Option<usize>)
        ensures
            r == (if self@.registered(address as int) {
                Some(self@.slots[address as int]->Some_0.queue.len() as usize)
            } else {
                None::<usize>
            }),
    {
        if address >= self.mailboxes.len() {
            return None;
        }
        match &self.mailboxes[address] {
            Some(mb) => Some(mb.len()),
            None => None,
        }
    }

    /// The number of declared addresses.
    pub fn address_count(&self) -> (r: usize)
        ensures
            r == self@.address_count(),
    {
        self.mailboxes.len()
    }

    /// Whether `address` has a mailbox.
    pub fn is_registered(&self, address: Address) -> (r: bool)
        ensures
            r == self@.registered(address as int),
    {
        address < self.mailboxes.len() && self.mailboxes[address].is_some()
    }

    /// A snapshot of the delivery counters; it resets nothing.
    pub fn get_diagnostics(&self) -> (r: Diagnostics)
        ensures
            r.messages_sent == self@.messages_sent,
            r.send_failures == self@.send_failures,
    {
        Diagnostics { messages_sent: self.messages_sent, send_failures: self.send_failures }
    }

    /// The clock, in microseconds.
    pub fn now_us(&self) -> (r: u64)
        ensures
            r == self@.now_us,
    {
        self.now_us
    }

    /// The number of delayed deliveries waiting to fire.
    pub fn pending_len(&self) -> (r: usize)
        ensures
            r == self@.pending.len(),
    {
        self.pending.len()
    }

    /// Whether some task holds the table's guard.
    pub fn is_table_held(&self) -> (r: bool)
        ensures
            r == self@.table_held,
    {
        self.table_held
    }

    /// Takes the table's guard for a task that must hold it across a
    /// suspension; `false`, and no change, when it is already held.
    pub fn try_lock_table(&mut self) -> (r: bool)
        ensures
            r == !old(self)@.table_held,
            final(self)@ == (PostmasterView { table_held: true, ..old(self)@ }),
    {
        if self.table_held {
            false
        } else {
            self.table_held = true;
            true
        }
    }

    /// Gives the table's guard back.
    pub fn unlock_table(&mut self)
        ensures
            final(self)@ == (PostmasterView { table_held: false, ..old(self)@ }),
    {
        self.table_held = false;
    }

    /// Supplies the capability to spawn delayed-delivery tasks.
    pub fn set_spawner(&mut self)
        ensures
            final(self)@ == (PostmasterView { spawner_set: true, ..old(self)@ }),
    {
        self.spawner_set = true;
    }

    /// Sets the timeout of blocking sends that name none.
    pub fn set_default_timeout(&mut self, timeout_us: u32)
        ensures
            final(self)@ == (PostmasterView { default_timeout_us: timeout_us as nat, ..old(self)@ }),
    {
        self.timeout_us = timeout_us;
    }

    /// One attempt at enqueueing `m` at `destination`, without waiting and
    /// without counting.
    fn enqueue(&mut self, destination: Address, m: Message) -> (r: Result<(), PostmasterError>)
        ensures
            r == old(self)@.try_send_outcome(destination as int),
            r is Ok ==> final(self)@ == old(self)@.enqueued(destination as int, m),
            r is Err ==> final(self)@ == old(self)@,
    {
        if self.table_held {
            return Err(PostmasterError::TryLockFailed);
        }
        if destination >= self.mailboxes.len() || self.mailboxes[destination].is_none() {
            return Err(PostmasterError::NoRecipient);
        }
        let ghost before = self.mailboxes@;
        let mut slot: Option<Mailbox> = None;
        std::mem::swap(&mut slot, &mut self.mailboxes[destination]);
        let mut mb = slot.unwrap();
        let pushed = mb.try_push(m);
        let ghost mb_after = mb;
        self.mailboxes.set(destination, Some(mb));
        proof {
            assert(self.mailboxes@ == before.update(destination as int, Some(mb_after)));
            let f = |s: Option<Mailbox>| slot_view(s);
            assert(self@.slots =~= old(self)@.slots.update(destination as int, f(Some(mb_after))));
        }
        match pushed {
            Ok(()) => {
                assert(self@.slots =~= old(self)@.enqueued(destination as int, m).slots);
                Ok(())
            },
            Err(e) => {
                assert(self@.slots =~= old(self)@.slots);
                Err(PostmasterError::from(e))
            },
        }
    }
}

/// The position of the delivery with the earliest due time in `s`; of
/// equal ones, the first.
pub open spec fn earliest(s: Seq<DelayedSend>) -> int
    decreases s.len(),
{
    if s.len() <= 1 {
        0
    } else {
        let i = earliest(s.drop_last());
        if s.last().due_us < s[i].due_us {
            s.len() - 1
        } else {
            i
        }
    }
}

/// The position of the delivery in `ds` that falls due first; of equal
/// ones, the first.
fn earliest_index(ds: &Vec<DelayedSend>) -> (r: usize)
    requires
        ds@.len() > 0,
    ensures
        r == earliest(ds@),
        r < ds@.len(),
{
    let mut best: usize = 0;
    let mut j: usize = 1;
    while j < ds.len()
        invariant
            1 <= j <= ds@.len(),
            best < j,
            best == earliest(ds@.subrange(0, j as int)),
        decreases ds@.len() - j,
    {
        proof {
            let sub = ds@.subrange(0, j as int + 1);
            assert(sub.drop_last() =~= ds@.subrange(0, j as int));
        }
        if ds[j].due_us < ds[best].due_us {
            best = j;
        }
        j = j + 1;
    }
    assert(ds@.subrange(0, j as int) =~= ds@);
    best
}

/// `earliest` names a position of the sequence.
pub proof fn lemma_earliest_in_range(s: Seq<DelayedSend>)
    requires
        s.len() > 0,
    ensures
        0 <= earliest(s) < s.len(),
    decreases s.len(),
{
    if s.len() > 1 {
        lemma_earliest_in_range(s.drop_last());
    }
}

/// `x`, or the largest `u64` where `x` is larger.
pub open spec fn clamp_u64(x: nat) -> nat {
    if x > u64::MAX {
        u64::MAX as nat
    } else {
        x
    }
}

} // verus!
