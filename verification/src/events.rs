//! Import events: what subscribers are told about an imported block, and
//! the channels over which they are told.

use crate::generic::{Header, HeaderView};
use crate::hash::H256;
use futures::sync::mpsc::{UnboundedReceiver, UnboundedSender};
use vstd::prelude::*;

verus! {

/// Block data origin.
#[derive(Debug, PartialEq, Eq, Clone, Copy, Structural)]
pub enum BlockOrigin {
    /// Genesis block built into the client.
    Genesis,
    /// Block is part of the initial sync with the network.
    NetworkInitialSync,
    /// Block was broadcasted on the network.
    NetworkBroadcast,
    /// Block that was received from the network and validated in the
    /// consensus process.
    ConsensusBroadcast,
    /// Block that was collated by this node.
    Own,
    /// Block was imported from a file.
    File,
}

impl BlockOrigin {
    /// Whether subscribers are told of a block of this origin: they are of
    /// blocks that were broadcast and of this node's own, and not of blocks
    /// that were built in, synced in bulk or read from a file.
    pub open spec fn announces(self) -> bool {
        self == BlockOrigin::NetworkBroadcast || self == BlockOrigin::Own || self
            == BlockOrigin::ConsensusBroadcast
    }

    /// Whether subscribers are told of a block of this origin.
    pub fn is_announced(&self) -> (r: bool)
        ensures
            r == self.announces(),
    {
        match self {
            BlockOrigin::NetworkBroadcast => true,
            BlockOrigin::Own => true,
            BlockOrigin::ConsensusBroadcast => true,
            BlockOrigin::Genesis => false,
            BlockOrigin::NetworkInitialSync => false,
            BlockOrigin::File => false,
        }
    }
}

/// Summary of an imported block
#[derive(Debug, PartialEq, Eq)]
pub struct BlockImportNotification {
    /// Imported block header hash.
    pub hash: H256,
    /// Imported block origin.
    pub origin: BlockOrigin,
    /// Imported block header.
    pub header: Header,
    /// Is this the new best block.
    pub is_new_best: bool,
}

/// What a notification holds.
pub struct NotificationView {
    pub hash: H256,
    pub origin: BlockOrigin,
    pub header: HeaderView,
    pub is_new_best: bool,
}

impl View for BlockImportNotification {
    type V = NotificationView;

    open spec fn view(&self) -> NotificationView {
        NotificationView {
            hash: self.hash,
            origin: self.origin,
            header: self.header@,
            is_new_best: self.is_new_best,
        }
    }
}

impl Clone for BlockImportNotification {
    fn clone(&self) -> (r: Self)
        ensures
            r@ == self@,
    {
        BlockImportNotification {
            hash: self.hash,
            origin: self.origin,
            header: self.header.clone(),
            is_new_best: self.is_new_best,
        }
    }
}

/// What subscribers are told of an imported block, if anything: a summary
/// of the block where its origin is announced, and nothing otherwise.
pub fn notification_for(origin: BlockOrigin, hash: H256, header: &Header, is_new_best: bool) -> (r:
    Option<BlockImportNotification>)
    ensures
        match r {
            Some(n) => origin.announces() && n@ == (NotificationView {
                hash,
                origin,
                header: header@,
                is_new_best,
            }),
            None => !origin.announces(),
        },
{
    if origin.is_announced() {
        Some(BlockImportNotification { hash, origin, header: header.clone(), is_new_best })
    } else {
        None
    }
}

/// The sending end of a channel from the `futures` crate.
#[verifier::external_type_specification]
#[verifier::external_body]
#[verifier::reject_recursive_types(T)]
pub struct ExUnboundedSender<T>(futures::sync::mpsc::UnboundedSender<T>);

/// The receiving end of a channel from the `futures` crate.
#[verifier::external_type_specification]
#[verifier::external_body]
#[verifier::reject_recursive_types(T)]
pub struct ExUnboundedReceiver<T>(futures::sync::mpsc::UnboundedReceiver<T>);

/// Calls `futures::sync::mpsc::unbounded` for a new channel. Nothing is
/// claimed of the two ends.
#[verifier::external_body]
pub(crate) fn open_channel() -> (UnboundedSender<BlockImportNotification>, UnboundedReceiver<
    BlockImportNotification,
>) {
    futures::sync::mpsc::unbounded()
}

/// Calls `UnboundedSender::unbounded_send` and says whether the channel
/// took the notification. It does not where the receiving end is gone, which
/// nothing here can foresee: nothing is claimed of the answer. The call
/// panics where the channel holds `usize::MAX >> 1` notifications that
/// nobody has taken, more than memory can hold.
#[verifier::external_body]
pub(crate) fn deliver(
    sink: &UnboundedSender<BlockImportNotification>,
    notification: BlockImportNotification,
) -> bool {
    sink.unbounded_send(notification).is_ok()
}

/// The items whose flag is set, in their order. An item without a flag
/// counts as one whose flag is not set.
pub open spec fn kept<T>(items: Seq<T>, flags: Seq<bool>) -> Seq<T>
    decreases items.len(),
{
    if items.len() == 0 {
        Seq::empty()
    } else if items.len() <= flags.len() && flags[items.len() - 1] {
        kept(items.drop_last(), flags).push(items.last())
    } else {
        kept(items.drop_last(), flags)
    }
}

/// Whether the two ends are those of one channel, as it was opened.
pub closed spec fn opened(
    sink: UnboundedSender<BlockImportNotification>,
    stream: UnboundedReceiver<BlockImportNotification>,
) -> bool {
    call_ensures(open_channel, (), (sink, stream))
}

/// A new channel.
pub fn channel() -> (r: (
    UnboundedSender<BlockImportNotification>,
    UnboundedReceiver<BlockImportNotification>,
))
    ensures
        opened(r.0, r.1),
{
    open_channel()
}

/// Whether the channel, handed the notification, answered `took`.
pub closed spec fn sent(
    sink: UnboundedSender<BlockImportNotification>,
    notification: BlockImportNotification,
    took: bool,
) -> bool {
    call_ensures(deliver, (&sink, notification), took)
}

/// Whether the channel was handed a copy of the notification and answered
/// `took`.
pub open spec fn handed_copy(
    sink: UnboundedSender<BlockImportNotification>,
    notification: NotificationView,
    took: bool,
) -> bool {
    exists|copy: BlockImportNotification| copy@ == notification && #[trigger] sent(sink, copy, took)
}

/// Whether every channel was handed a copy of the notification, and the
/// flags say which of them took it.
pub open spec fn told(
    sinks: Seq<UnboundedSender<BlockImportNotification>>,
    notification: NotificationView,
    flags: Seq<bool>,
) -> bool {
    &&& flags.len() == sinks.len()
    &&& forall|i: int|
        0 <= i < sinks.len() ==> #[trigger] handed_copy(sinks[i], notification, flags[i])
}

/// How the channels stand after an import of a block of this origin: where
/// the origin is announced, every channel was handed a copy of the
/// notification and those that took it are left, in their order; otherwise
/// they are as they were.
pub open spec fn fanned_out(
    origin: BlockOrigin,
    notification: NotificationView,
    before: Seq<UnboundedSender<BlockImportNotification>>,
    after: Seq<UnboundedSender<BlockImportNotification>>,
) -> bool {
    if origin.announces() {
        exists|flags: Seq<bool>|
            told(before, notification, flags) && after == #[trigger] kept(before, flags)
    } else {
        after == before
    }
}

/// Drops the items whose flag is not set and keeps the others in place.
pub fn retain_flagged<T>(items: &mut Vec<T>, flags: &Vec<bool>)
    ensures
        final(items)@ == kept(old(items)@, flags@),
{
    let ghost all = items@;
    let total = items.len();
    let mut seen: usize = 0;
    let mut at: usize = 0;
    assert(all.take(0) =~= Seq::<T>::empty());
    assert(items@ =~= kept(all.take(0), flags@) + all.skip(0));
    while seen < total
        invariant
            at <= seen <= total == all.len(),
            all == old(items)@,
            at == kept(all.take(seen as int), flags@).len(),
            items@ == kept(all.take(seen as int), flags@) + all.skip(seen as int),
        decreases total - seen,
    {
        let ghost before = kept(all.take(seen as int), flags@);
        let keep = seen < flags.len() && flags[seen];
        proof {
            assert(all.take(seen + 1).drop_last() =~= all.take(seen as int));
            assert(all.take(seen + 1).last() == all[seen as int]);
            assert(all.skip(seen as int)[0] == all[seen as int]);
        }
        if keep {
            assert(items@ =~= before.push(all[seen as int]) + all.skip(seen + 1));
            at = at + 1;
        } else {
            let _gone = items.remove(at);
            assert(items@ =~= before + all.skip(seen + 1));
        }
        seen = seen + 1;
    }
    assert(all.take(total as int) =~= all);
    assert(items@ =~= kept(all, flags@));
}

/// Sends a copy of the notification down every channel and drops the
/// channels that did not take it. The flags that come back say which did.
pub fn fan_out(
    sinks: &mut Vec<UnboundedSender<BlockImportNotification>>,
    notification: &BlockImportNotification,
) -> (delivered: Vec<bool>)
    ensures
        told(old(sinks)@, notification@, delivered@),
        final(sinks)@ == kept(old(sinks)@, delivered@),
{
    let mut delivered: Vec<bool> = Vec::new();
    let mut i: usize = 0;
    while i < sinks.len()
        invariant
            i <= sinks@.len(),
            delivered@.len() == i,
            sinks@ == old(sinks)@,
            forall|j: int|
                0 <= j < i ==> #[trigger] handed_copy(sinks@[j], notification@, delivered@[j]),
        decreases sinks@.len() - i,
    {
        let copy = notification.clone();
        let ghost handed = copy;
        let took = deliver(&sinks[i], copy);
        assert(sent(sinks@[i as int], handed, took));
        delivered.push(took);
        i = i + 1;
    }
    retain_flagged(sinks, &delivered);
    delivered
}

} // verus!
