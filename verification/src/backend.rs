//! The state backend: the state after each block, and the operation by
//! which a block and its state are written together. This is what the
//! client consumes; `in_mem` has a backend that keeps everything in memory.

use crate::bft::UncheckedJustification;
use crate::blockchain::{body_view, justification_view, ChainView, StoredBlock, StoredBlockView};
use crate::error::Error;
use crate::generic::{BlockId, Header, UncheckedExtrinsic};
use crate::hash::H256;
use crate::state_machine::{overlaid, pairs_view, writes_view, InMemory, StorageWrite};
use vstd::prelude::*;

verus! {

/// What an import operation holds: the block to write with its mark as best
/// block, where one was set; the state it was opened on; and the state to
/// write, where one was set.
pub struct OperationView {
    pub pending_block: Option<(StoredBlockView, bool)>,
    pub old_state: Map<Seq<u8>, Seq<u8>>,
    pub new_state: Option<Map<Seq<u8>, Seq<u8>>>,
}

/// A block with its mark as best block, waiting to be written.
#[derive(Debug)]
pub struct PendingBlock {
    block: StoredBlock,
    is_best: bool,
}

/// A write to the backend in the making: opened on the state of a parent,
/// filled with a block and the changes to the state, and then committed as
/// a whole or dropped.
#[derive(Debug)]
pub struct BlockImportOperation {
    pending_block: Option<PendingBlock>,
    old_state: InMemory,
    new_state: Option<InMemory>,
}

impl View for BlockImportOperation {
    type V = OperationView;

    closed spec fn view(&self) -> OperationView {
        OperationView {
            pending_block: match self.pending_block {
                Some(p) => Some((p.block@, p.is_best)),
                None => None,
            },
            old_state: self.old_state@,
            new_state: match self.new_state {
                Some(s) => Some(s@),
                None => None,
            },
        }
    }
}

impl BlockImportOperation {
    /// An operation on `state` that holds nothing yet.
    pub fn new(state: InMemory) -> (r: Self)
        ensures
            r@ == (OperationView { pending_block: None, old_state: state@, new_state: None }),
    {
        BlockImportOperation { pending_block: None, old_state: state, new_state: None }
    }

    /// Takes the operation apart: the block to write with its mark as best
    /// block, where one was set, and the state to write with it.
    pub fn into_parts(self) -> (r: (Option<(StoredBlock, bool)>, InMemory))
        ensures
            match r.0 {
                Some((block, is_best)) => self@.pending_block == Some((block@, is_best)),
                None => self@.pending_block.is_none(),
            },
            r.1@ == match self@.new_state {
                Some(s) => s,
                None => self@.old_state,
            },
    {
        let BlockImportOperation { pending_block, old_state, new_state } = self;
        let state = match new_state {
            Some(s) => s,
            None => old_state,
        };
        match pending_block {
            Some(pending) => {
                let PendingBlock { block, is_best } = pending;
                (Some((block, is_best)), state)
            },
            None => (None, state),
        }
    }

    /// The state that the operation was opened on.
    pub fn state(&self) -> (r: Result<&InMemory, Error>)
        ensures
            r matches Ok(s) && s@ == self@.old_state,
    {
        Ok(&self.old_state)
    }

    /// Sets the block to write.
    pub fn set_block_data(
        &mut self,
        header: Header,
        body: Option<Vec<UncheckedExtrinsic>>,
        justification: Option<UncheckedJustification>,
        is_new_best: bool,
    ) -> (r: Result<(), Error>)
        ensures
            r is Ok,
            final(self)@ == (OperationView {
                pending_block: Some(
                    (
                        StoredBlockView {
                            header: header@,
                            body: body_view(body),
                            justification: justification_view(justification),
                        },
                        is_new_best,
                    ),
                ),
                ..old(self)@
            }),
    {
        self.pending_block = Some(
            PendingBlock { block: StoredBlock { header, body, justification }, is_best: is_new_best },
        );
        Ok(())
    }

    /// Sets the state to write to the state that the operation was opened on
    /// with `update` applied.
    pub fn update_storage(&mut self, update: &Vec<StorageWrite>) -> (r: Result<(), Error>)
        ensures
            r is Ok,
            final(self)@ == (OperationView {
                new_state: Some(overlaid(old(self)@.old_state, writes_view(update@))),
                ..old(self)@
            }),
    {
        self.new_state = Some(self.old_state.update(update));
        Ok(())
    }

    /// Sets the state to write to what the pairs describe, whatever the
    /// operation was opened on.
    pub fn reset_storage(&mut self, pairs: &Vec<(Vec<u8>, Vec<u8>)>) -> (r: Result<(), Error>)
        ensures
            r is Ok,
            final(self)@ == (OperationView {
                new_state: Some(overlaid(Map::empty(), pairs_view(pairs@))),
                ..old(self)@
            }),
    {
        self.new_state = Some(InMemory::from_pairs(pairs));
        Ok(())
    }
}

/// The backend as a value: the chain, and the state after each block.
pub struct BackendView {
    pub chain: ChainView,
    pub states: Map<H256, Map<Seq<u8>, Seq<u8>>>,
}

impl BackendView {
    /// The backend that holds nothing.
    pub open spec fn empty() -> BackendView {
        BackendView { chain: ChainView::empty(), states: Map::empty() }
    }

    /// The state after the block that an id stands for.
    pub open spec fn state(self, id: BlockId) -> Option<Map<Seq<u8>, Seq<u8>>> {
        match self.chain.resolve(id) {
            Some(h) => if self.states.contains_key(h) {
                Some(self.states[h])
            } else {
                None
            },
            None => None,
        }
    }

    /// The state that an operation on `id` is opened on: the empty state
    /// for the hash of zeros, on which the genesis block is written, and the
    /// state after the block otherwise.
    pub open spec fn anchor_state(self, id: BlockId) -> Option<Map<Seq<u8>, Seq<u8>>> {
        if id == BlockId::Hash(H256::zero_spec()) {
            Some(Map::empty())
        } else {
            self.state(id)
        }
    }

    /// The backend after an operation was committed: nothing changes where
    /// no block was set; otherwise the block is written to the chain and its
    /// state is the one that was set, or else the one that the operation was
    /// opened on.
    pub open spec fn commit(self, operation: OperationView) -> BackendView {
        match operation.pending_block {
            Some((block, is_best)) => BackendView {
                chain: self.chain.insert(block, is_best),
                states: self.states.insert(
                    block.header.hash(),
                    match operation.new_state {
                        Some(s) => s,
                        None => operation.old_state,
                    },
                ),
            },
            None => self,
        }
    }

    /// Whether every block is filed under the hash of its header and has a
    /// state.
    pub open spec fn complete(self) -> bool {
        &&& self.chain.filed_by_hash()
        &&& forall|h: H256| #[trigger]
            self.chain.blocks.contains_key(h) ==> self.states.contains_key(h)
    }
}

/// A commit keeps the backend complete.
pub proof fn lemma_commit_keeps_complete(backend: BackendView, operation: OperationView)
    requires
        backend.complete(),
    ensures
        backend.commit(operation).complete(),
{
}

/// A backend: a chain index, and the state after each of its blocks.
///
/// What a backend holds is its view. A backend that cannot fail says so by
/// `infallible`; one that can may answer any request with a backend error,
/// and then has changed nothing.
pub trait Backend: View<V = BackendView> {
    /// The chain index of this backend.
    type Blockchain: crate::blockchain::Backend;

    /// Whether no request to this backend fails but for want of a block.
    spec fn infallible(&self) -> bool;

    /// The chain index. Every block in it is filed under the hash of its
    /// header and has a state.
    fn blockchain(&self) -> (r: &Self::Blockchain)
        ensures
            r@ == self@.chain,
            crate::blockchain::Backend::infallible(r) == self.infallible(),
            self@.complete(),
    ;

    /// The state after a block. Fails where the id stands for no block with
    /// a state.
    fn state_at(&self, block: BlockId) -> (r: Result<InMemory, Error>)
        ensures
            match r {
                Ok(state) => self@.state(block) == Some(state@),
                Err(e) => e is Backend && (self.infallible() ==> self@.state(block).is_none()),
            },
    ;

    /// Opens an operation on the state after a block, or on the empty state
    /// where the id is the hash of zeros.
    fn begin_operation(&self, block: BlockId) -> (r: Result<BlockImportOperation, Error>)
        ensures
            match r {
                Ok(operation) => self@.anchor_state(block) == Some(operation@.old_state)
                    && operation@.pending_block.is_none() && operation@.new_state.is_none(),
                Err(e) => e is Backend && (self.infallible() ==> self@.anchor_state(
                    block,
                ).is_none()),
            },
    ;

    /// Writes what the operation holds, all of it or nothing.
    fn commit_operation(&mut self, operation: BlockImportOperation) -> (r: Result<(), Error>)
        ensures
            final(self).infallible() == old(self).infallible(),
            match r {
                Ok(()) => final(self)@ == old(self)@.commit(operation@),
                Err(e) => e is Backend && !old(self).infallible() && final(self)@ == old(self)@,
            },
    ;
}

} // verus!
