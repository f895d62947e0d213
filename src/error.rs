use vstd::prelude::*;

use tokio::sync::mpsc::error::TrySendError;

verus! {

/// Everything that can go wrong when registering an address or delivering a
/// message.
#[derive(Debug, Clone, Copy, PartialEq, Eq, Structural)]
pub enum PostmasterError {
    /// The address has already been given a mailbox.
    AddressAlreadyTaken,
    /// No mailbox has been registered at the destination address.
    NoRecipient,
    /// The timeout ran out before the message could be enqueued.
    Timeout,
    /// The mailbox table was held by another task when `try_send` was called.
    TryLockFailed,
    /// The receiving end of the destination's queue has been dropped. The
    /// postmaster keeps both ends of every queue for its whole life, so none
    /// of its operations returns this.
    ReceiverClosed,
    /// The destination's queue was full when `try_send` was called.
    TrySendFailed,
    /// Every slot of the delayed-delivery pool is taken.
    DelayedMessagePoolFull,
    /// A delayed delivery was asked for before a spawner was supplied.
    SpawnerNotSet,
}

/// A failed non-blocking enqueue always means the queue had no room.
impl<T> From<TrySendError<T>> for PostmasterError {
    fn from(_e: TrySendError<T>) -> Self {
        PostmasterError::TrySendFailed
    }
}

impl<T> vstd::std_specs::convert::FromSpecImpl<TrySendError<T>> for PostmasterError {
    open spec fn obeys_from_spec() -> bool {
        true
    }

    open spec fn from_spec(v: TrySendError<T>) -> Self {
        PostmasterError::TrySendFailed
    }
}

} // verus!
