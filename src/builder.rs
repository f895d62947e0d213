use vstd::prelude::*;

use crate::message::{Address, Message};
use crate::postmaster::{clamp_u64, DelayedSend, Postmaster, PostmasterView, Step};

verus! {

/// A send being put together: a destination, a message, and optionally a
/// timeout and a delay, both in microseconds.
#[derive(Debug, Clone, Copy, PartialEq, Eq, Structural)]
pub struct MessageBuilder {
    pub destination: Address,
    pub message: Message,
    pub timeout_us: Option<u64>,
    pub delay_us: Option<u64>,
}

/// Starts a send of `payload` from `source` to `destination`, with no
/// timeout of its own and no delay.
pub fn message(destination: Address, source: Address, payload: u64) -> (r: MessageBuilder)
    ensures
        r == (MessageBuilder {
            destination,
            message: Message { source, payload },
            timeout_us: None,
            delay_us: None,
        }),
{
    MessageBuilder { destination, message: Message::new(source, payload), timeout_us: None, delay_us: None }
}

impl MessageBuilder {
    pub fn with_timeout(self, timeout_us: u64) -> (r: MessageBuilder)
        ensures
            r == (MessageBuilder { timeout_us: Some(timeout_us), ..self }),
    {
        MessageBuilder { timeout_us: Some(timeout_us), ..self }
    }

    pub fn with_delay(self, delay_us: u64) -> (r: MessageBuilder)
        ensures
            r == (MessageBuilder { delay_us: Some(delay_us), ..self }),
    {
        MessageBuilder { delay_us: Some(delay_us), ..self }
    }

    /// The delayed delivery this builder asks for, due `delay_us` after `now_us`.
    pub open spec fn delayed(self, now_us: nat, delay_us: u64) -> DelayedSend {
        DelayedSend {
            destination: self.destination,
            message: self.message,
            due_us: clamp_u64(now_us + delay_us as nat) as u64,
            timeout_us: self.timeout_us,
        }
    }

    /// The time by which this send, started on a postmaster in state `v`,
    /// gives up.
    pub open spec fn deadline(self, v: PostmasterView) -> nat {
        v.deadline_after(self.timeout_us)
    }

    /// Outcome of `send` on a postmaster in state `v`.
    pub open spec fn send_outcome(self, v: PostmasterView) -> Step {
        match self.delay_us {
            Some(d) => Step::Done(v.schedule_outcome()),
            None => v.send_step_outcome(self.destination as int, self.deadline(v)),
        }
    }

    /// State after `send` on a postmaster in state `v`.
    pub open spec fn after_send(self, v: PostmasterView) -> PostmasterView {
        match self.delay_us {
            Some(d) => v.after_schedule(self.delayed(v.now_us, d)),
            None => v.after_send_step(self.destination as int, self.message, self.deadline(v)),
        }
    }

    /// The time by which this send, started now, gives up: what later
    /// attempts pass to `Postmaster::send_step`.
    pub fn deadline_us(&self, postmaster: &Postmaster) -> (r: u64)
        ensures
            r == self.deadline(postmaster@),
    {
        postmaster.deadline_after(self.timeout_us)
    }

    /// Without a delay, the first attempt of a blocking send, with this
    /// builder's timeout if it has one, else the default; while it answers
    /// `Wait`, later attempts go through `Postmaster::send_step` with the
    /// deadline `deadline_us` gave. With a delay, hands the delivery to the
    /// delayed-delivery pool and is done; the delivery is attempted by
    /// `advance_time` once the delay has passed, and its outcome is then
    /// counted but not reported.
    pub fn send(self, postmaster: &mut Postmaster) -> (r: Step)
        requires
            self.delay_us is None ==> old(postmaster)@.deliveries() < u64::MAX,
        ensures
            r == self.send_outcome(old(postmaster)@),
            final(postmaster)@ == self.after_send(old(postmaster)@),
            old(postmaster)@.wf() ==> final(postmaster)@.wf(),
    {
        match self.delay_us {
            Some(d) => {
                let due = postmaster.now_us().saturating_add(d);
                let delayed = DelayedSend {
                    destination: self.destination,
                    message: self.message,
                    due_us: due,
                    timeout_us: self.timeout_us,
                };
                Step::Done(postmaster.schedule(delayed))
            },
            None => {
                let deadline = postmaster.deadline_after(self.timeout_us);
                postmaster.send_step(self.destination, self.message, deadline)
            },
        }
    }
}

} // verus!
