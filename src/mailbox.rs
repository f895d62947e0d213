use vstd::prelude::*;

use tokio::sync::mpsc::error::TrySendError;
use tokio::sync::mpsc::{Receiver, Sender};

use crate::message::Message;

verus! {

#[verifier::external_type_specification]
#[verifier::external_body]
#[verifier::reject_recursive_types(T)]
pub struct ExTrySendError<T>(TrySendError<T>);

/// The largest queue bound accepted: tokio's channel semaphore allows at most
/// `usize::MAX >> 3` permits, which on a 32-bit target is this number.
pub const MAX_QUEUE_BOUND: usize = 0x1fff_ffff;

/// One address's bounded FIFO queue: a tokio bounded channel whose sending
/// and receiving ends are both held here, so that nothing else can push to
/// or pull from it.
#[verifier::external_body]
pub struct Mailbox {
    tx: Sender<Message>,
    rx: Receiver<Message>,
}

/// The messages waiting in the queue, oldest first.
pub uninterp spec fn mailbox_contents(m: Mailbox) -> Seq<Message>;

/// The bound the queue was created with.
pub uninterp spec fn mailbox_bound(m: Mailbox) -> nat;

/// Relies on tokio::sync::mpsc::channel: a new bounded channel is empty and
/// takes `bound` messages before it is full; it panics on a bound of 0 or
/// above the semaphore's permit limit.
#[verifier::external_body]
pub(crate) fn new_mailbox(bound: usize) -> (r: Mailbox)
    requires
        0 < bound <= MAX_QUEUE_BOUND,
    ensures
        mailbox_contents(r) == Seq::<Message>::empty(),
        mailbox_bound(r) == bound,
{
    let (tx, rx) = tokio::sync::mpsc::channel(bound);
    Mailbox { tx, rx }
}

impl Mailbox {
    /// Relies on tokio's Sender::try_send: with the receiver alive it takes a
    /// permit and appends the message when fewer than `bound` messages are
    /// queued (a permit comes back when a message is received), and
    /// otherwise fails and leaves the queue as it was.
    #[verifier::external_body]
    pub(crate) fn try_push(&mut self, m: Message) -> (r: Result<(), TrySendError<Message>>)
        ensures
            r is Ok <==> mailbox_contents(*old(self)).len() < mailbox_bound(*old(self)),
            r is Ok ==> mailbox_contents(*final(self)) == mailbox_contents(*old(self)).push(m),
            r is Err ==> mailbox_contents(*final(self)) == mailbox_contents(*old(self)),
            mailbox_bound(*final(self)) == mailbox_bound(*old(self)),
    {
        self.tx.try_send(m)
    }

    /// Relies on tokio's Receiver::try_recv: it hands out the oldest queued
    /// message, and reports an empty queue while a sender is alive.
    #[verifier::external_body]
    pub(crate) fn try_pop(&mut self) -> (r: Option<Message>)
        ensures
            mailbox_contents(*old(self)).len() == 0 ==> r is None && mailbox_contents(*final(self))
                == mailbox_contents(*old(self)),
            mailbox_contents(*old(self)).len() > 0 ==> r == Some(mailbox_contents(*old(self))[0])
                && mailbox_contents(*final(self)) == mailbox_contents(*old(self)).drop_first(),
            mailbox_bound(*final(self)) == mailbox_bound(*old(self)),
    {
        self.rx.try_recv().ok()
    }

    /// Relies on tokio's Receiver::len: the number of queued messages.
    #[verifier::external_body]
    pub(crate) fn len(&self) -> (r: usize)
        ensures
            r == mailbox_contents(*self).len(),
    {
        self.rx.len()
    }
}

} // verus!
