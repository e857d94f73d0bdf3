//! The channels that snapshots travel over.
//!
//! The queue itself is the `async-channel` crate's. What is claimed of it here is
//! taken on trust, and so is what [`crate::fresh`] claims of a new channel;
//! everything built on them is proved from these claims.

use async_channel::{Receiver, Sender};
use vstd::prelude::*;

use crate::podstate::{Snapshot, SnapshotView};

verus! {

/// The sending end of a channel, `async_channel::Sender`.
#[verifier::external_type_specification]
#[verifier::external_body]
#[verifier::reject_recursive_types(T)]
pub struct ExSender<T>(async_channel::Sender<T>);

/// The receiving end of a channel, `async_channel::Receiver`.
#[verifier::external_type_specification]
#[verifier::external_body]
#[verifier::reject_recursive_types(T)]
pub struct ExReceiver<T>(async_channel::Receiver<T>);

/// What became of a snapshot that was offered to a channel.
#[derive(Debug, Clone, Copy, PartialEq, Eq, Structural)]
pub enum SendOutcome {
    /// It is in the queue.
    Sent,
    /// The queue has a limit and had reached it.
    Full,
    /// Nobody can receive any more.
    Closed,
}

impl SendOutcome {
    /// Whether the subscriber behind the channel is still worth sending to.
    pub fn keeps_subscriber(&self) -> (res: bool)
        ensures
            res == (*self != SendOutcome::Closed),
    {
        *self != SendOutcome::Closed
    }
}

/// Every snapshot that has been offered through this sending end, oldest first,
/// and what became of it. Those that were sent are what has gone into the queue
/// through it, in that order.
pub uninterp spec fn attempts(tx: Sender<Snapshot>) -> Seq<(SnapshotView, SendOutcome)>;

/// How many snapshots the channel can hold: what `Sender::capacity` returns,
/// `None` for a channel without a limit.
pub uninterp spec fn capacity(tx: Sender<Snapshot>) -> Option<nat>;

/// Whether the two are ends of one channel, so that what is sent through `tx`
/// can be received from `rx`.
pub uninterp spec fn feeds(tx: Sender<Snapshot>, rx: Receiver<Snapshot>) -> bool;

/// Calls `Sender::try_send`, which puts the snapshot in the queue unless the
/// queue is full or the channel is closed. Trusted:
///
/// - the outcome is the one that is noted as the latest attempt;
/// - the sending end stays an end of the same channel, with the same limit;
/// - a channel without a limit is never full.
///
/// Whether the channel has been closed is up to those who hold its ends, and is
/// left unsaid.
#[verifier::external_body]
pub(crate) fn try_send(tx: &mut Sender<Snapshot>, snapshot: Snapshot) -> (res: SendOutcome)
    ensures
        attempts(*final(tx)) == attempts(*old(tx)).push((snapshot@, res)),
        capacity(*final(tx)) == capacity(*old(tx)),
        forall|rx: Receiver<Snapshot>| #[trigger] feeds(*final(tx), rx) == feeds(*old(tx), rx),
        capacity(*old(tx)) is None ==> res != SendOutcome::Full,
{
    match tx.try_send(snapshot) {
        Ok(()) => SendOutcome::Sent,
        Err(async_channel::TrySendError::Full(_)) => SendOutcome::Full,
        Err(async_channel::TrySendError::Closed(_)) => SendOutcome::Closed,
    }
}

} // verus!
