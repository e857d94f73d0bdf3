//! Fan-out of snapshots to every consumer.

use async_channel::{Receiver, Sender};
use vstd::prelude::*;

use crate::channel::{attempts, capacity, feeds, try_send, SendOutcome};
use crate::fresh::{send_first, unbounded};
use crate::podstate::{Snapshot, SnapshotView};

verus! {

/// One sending end per consumer. A single shared channel would not do: each
/// snapshot would go to exactly one of the consumers rather than to all of them.
///
/// Every channel here is without a limit, so a slow consumer can never stall the
/// protocol.
#[derive(Debug)]
pub struct Subscribers {
    senders: Vec<Sender<Snapshot>>,
}

impl Subscribers {
    #[verifier::type_invariant]
    spec fn unlimited(self) -> bool {
        all_unlimited(self.senders@)
    }
}

impl View for Subscribers {
    type V = Seq<Sender<Snapshot>>;

    closed spec fn view(&self) -> Seq<Sender<Snapshot>> {
        self.senders@
    }
}

spec fn all_unlimited(senders: Seq<Sender<Snapshot>>) -> bool {
    forall|i: int| 0 <= i < senders.len() ==> capacity(#[trigger] senders[i]) is None
}

/// What became of the latest snapshot offered through `tx`.
pub open spec fn last_outcome(tx: Sender<Snapshot>) -> SendOutcome {
    attempts(tx).last().1
}

/// `after` is `before` once `snapshot` has been offered through it.
pub open spec fn offered(
    before: Sender<Snapshot>,
    after: Sender<Snapshot>,
    snapshot: SnapshotView,
) -> bool {
    &&& attempts(after).len() > 0
    &&& attempts(after) == attempts(before).push((snapshot, last_outcome(after)))
    &&& last_outcome(after) != SendOutcome::Full
    &&& forall|rx: Receiver<Snapshot>| #[trigger] feeds(after, rx) == feeds(before, rx)
}

/// The sending ends whose latest snapshot did not find the channel closed.
pub open spec fn still_open(senders: Seq<Sender<Snapshot>>) -> Seq<Sender<Snapshot>> {
    senders.filter(|tx: Sender<Snapshot>| last_outcome(tx) != SendOutcome::Closed)
}

/// Every subscriber of `before` was offered `snapshot` once; those of `after` are
/// the ones that can still receive, in the order they were in.
pub open spec fn broadcast_to(
    before: Seq<Sender<Snapshot>>,
    after: Seq<Sender<Snapshot>>,
    snapshot: SnapshotView,
) -> bool {
    exists|tried: Seq<Sender<Snapshot>>|
        {
            &&& tried.len() == before.len()
            &&& forall|i: int|
                0 <= i < before.len() ==> offered(#[trigger] before[i], tried[i], snapshot)
            &&& after == #[trigger] still_open(tried)
        }
}

proof fn lemma_still_open_push(tried: Seq<Sender<Snapshot>>, tx: Sender<Snapshot>)
    ensures
        still_open(tried.push(tx)) == if last_outcome(tx) != SendOutcome::Closed {
            still_open(tried).push(tx)
        } else {
            still_open(tried)
        },
{
    reveal(Seq::filter);
    assert(tried.push(tx).drop_last() =~= tried);
}

impl Subscribers {
    /// Nobody has subscribed.
    pub fn new() -> (res: Self)
        ensures
            res@ == Seq::<Sender<Snapshot>>::empty(),
    {
        Subscribers { senders: Vec::new() }
    }

    /// How many consumers are registered.
    pub fn len(&self) -> (res: usize)
        ensures
            res == self@.len(),
    {
        self.senders.len()
    }

    /// Registers a new consumer and hands it `current` at once.
    ///
    /// Without that a subscriber which starts before the first advertisement would
    /// see nothing at all, even though keys may already be loaded.
    pub fn subscribe(&mut self, current: Snapshot) -> (res: Receiver<Snapshot>)
        ensures
            final(self)@.len() == old(self)@.len() + 1,
            final(self)@.drop_last() == old(self)@,
            feeds(final(self)@.last(), res),
            attempts(final(self)@.last()) == seq![(current@, SendOutcome::Sent)],
    {
        proof {
            use_type_invariant(&*self);
        }
        let ghost before = self.senders@;
        let (tx, rx) = send_first(unbounded(), current);
        let mut senders: Vec<Sender<Snapshot>> = Vec::new();
        std::mem::swap(&mut senders, &mut self.senders);
        senders.push(tx);
        assert(senders@.drop_last() =~= before);
        self.senders = senders;
        rx
    }

    /// Fans a snapshot out to every subscriber, dropping any that have gone away.
    ///
    /// The channels are without a limit, so the only failure is that nobody can
    /// receive any more.
    pub fn broadcast(&mut self, snapshot: Snapshot)
        ensures
            broadcast_to(old(self)@, final(self)@, snapshot@),
    {
        proof {
            use_type_invariant(&*self);
        }
        let ghost before = self.senders@;
        let mut senders: Vec<Sender<Snapshot>> = Vec::new();
        std::mem::swap(&mut senders, &mut self.senders);
        let mut kept: Vec<Sender<Snapshot>> = Vec::new();
        let ghost mut tried: Seq<Sender<Snapshot>> = Seq::empty();
        proof {
            reveal(Seq::filter);
            assert(kept@ =~= still_open(tried));
            assert(before.skip(0) =~= before);
        }
        while senders.len() > 0
            invariant
                tried.len() <= before.len(),
                senders@ == before.skip(tried.len() as int),
                all_unlimited(before),
                all_unlimited(kept@),
                kept@ == still_open(tried),
                forall|i: int|
                    0 <= i < tried.len() ==> offered(#[trigger] before[i], tried[i], snapshot@),
            decreases senders@.len(),
        {
            let mut tx: Sender<Snapshot> = senders.remove(0);
            let ghost fresh = tx;
            let outcome: SendOutcome = try_send(&mut tx, snapshot.clone());
            proof {
                assert(fresh == before[tried.len() as int]);
                assert(offered(fresh, tx, snapshot@));
                lemma_still_open_push(tried, tx);
                assert(senders@ =~= before.skip(tried.len() as int + 1));
                tried = tried.push(tx);
            }
            if outcome.keeps_subscriber() {
                kept.push(tx);
            }
        }
        self.senders = kept;
    }
}

} // verus!
