//! A channel that nobody has had an end of yet.

use async_channel::{Receiver, Sender};
use vstd::prelude::*;

use crate::channel::{attempts, capacity, feeds, SendOutcome};
use crate::podstate::{Snapshot, SnapshotView};

verus! {

/// Both ends of a new channel, kept together until the first snapshot is in it.
///
/// A channel can be closed through any reference to one of its ends. The ends in
/// here are private, [`unbounded`] is the only place that puts any in, and none is
/// lent out: they leave by [`send_first`], which has sent by then. So a channel in
/// here is open.
pub(crate) struct Fresh {
    tx: Sender<Snapshot>,
    rx: Receiver<Snapshot>,
}

impl Fresh {
    /// The sending end.
    pub(crate) closed spec fn sending(self) -> Sender<Snapshot> {
        self.tx
    }

    /// The receiving end.
    pub(crate) closed spec fn receiving(self) -> Receiver<Snapshot> {
        self.rx
    }
}

/// Calls `async_channel::unbounded`. Trusted: the two ends belong to one new
/// channel without a limit, and nothing has been offered to it.
#[verifier::external_body]
pub(crate) fn unbounded() -> (res: Fresh)
    ensures
        attempts(res.sending()) == Seq::<(SnapshotView, SendOutcome)>::empty(),
        capacity(res.sending()) is None,
        feeds(res.sending(), res.receiving()),
{
    let (tx, rx) = async_channel::unbounded();
    Fresh { tx, rx }
}

/// Calls `Sender::try_send` on a channel that nobody has had an end of, and hands
/// its ends out. Trusted: the snapshot is sent, since `try_send` refuses one only
/// when the queue is full, which a queue without a limit never is, or when the
/// channel is closed, which takes an end that someone holds or the loss of every
/// receiving end; and the ends are those that were in there.
#[verifier::external_body]
pub(crate) fn send_first(fresh: Fresh, snapshot: Snapshot) -> (res: (
    Sender<Snapshot>,
    Receiver<Snapshot>,
))
    requires
        attempts(fresh.sending()).len() == 0,
        capacity(fresh.sending()) is None,
        feeds(fresh.sending(), fresh.receiving()),
    ensures
        attempts(res.0) == attempts(fresh.sending()).push((snapshot@, SendOutcome::Sent)),
        capacity(res.0) == capacity(fresh.sending()),
        forall|rx: Receiver<Snapshot>| #[trigger]
            feeds(res.0, rx) == feeds(fresh.sending(), rx),
        res.1 == fresh.receiving(),
{
    let _ = fresh.tx.try_send(snapshot);
    (fresh.tx, fresh.rx)
}

} // verus!
