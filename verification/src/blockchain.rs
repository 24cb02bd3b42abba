//! The chain index: which blocks the chain has, by hash and by number, and
//! which of them is the best. This is what the client consumes; `in_mem`
//! has an index that keeps everything in memory.

use crate::bft::{JustificationView, UncheckedJustification};
use crate::error::Error;
use crate::generic::{
    clone_extrinsics, BlockId, BlockNumber, Header, HeaderView, UncheckedExtrinsic,
    UncheckedExtrinsicView,
};
use crate::hash::H256;
use vstd::prelude::*;

verus! {

/// Whether the chain has a block.
#[derive(Debug, PartialEq, Eq, Clone, Copy, Structural)]
pub enum BlockStatus {
    /// Already in the blockchain.
    InChain,
    /// Not in the queue or the blockchain.
    Unknown,
}

/// Where the chain stands.
#[derive(Debug, PartialEq, Eq, Clone, Copy)]
pub struct Info {
    /// Best block hash.
    pub best_hash: H256,
    /// Best block number.
    pub best_number: BlockNumber,
    /// Genesis block hash.
    pub genesis_hash: H256,
}

/// What the body of a block holds.
pub open spec fn body_view(body: Option<Vec<UncheckedExtrinsic>>) -> Option<
    Seq<UncheckedExtrinsicView>,
> {
    match body {
        Some(extrinsics) => Some(extrinsics.deep_view()),
        None => None,
    }
}

/// What a stored justification holds.
pub open spec fn justification_view(justification: Option<UncheckedJustification>) -> Option<
    JustificationView,
> {
    match justification {
        Some(j) => Some(j@),
        None => None,
    }
}

/// A block as the chain keeps it.
#[derive(Debug)]
pub struct StoredBlock {
    /// The header.
    pub header: Header,
    /// The extrinsics, where they were handed in.
    pub body: Option<Vec<UncheckedExtrinsic>>,
    /// The justification, where one was handed in.
    pub justification: Option<UncheckedJustification>,
}

/// What a stored block holds.
pub struct StoredBlockView {
    pub header: HeaderView,
    pub body: Option<Seq<UncheckedExtrinsicView>>,
    pub justification: Option<JustificationView>,
}

impl View for StoredBlock {
    type V = StoredBlockView;

    open spec fn view(&self) -> StoredBlockView {
        StoredBlockView {
            header: self.header@,
            body: body_view(self.body),
            justification: justification_view(self.justification),
        }
    }
}

/// The chain as a value: the blocks by hash, the hash filed under each
/// number, the best block and the genesis block.
pub struct ChainView {
    pub blocks: Map<H256, StoredBlockView>,
    pub hashes: Map<BlockNumber, H256>,
    pub best_hash: H256,
    pub best_number: BlockNumber,
    pub genesis_hash: H256,
}

impl ChainView {
    /// The chain without blocks.
    pub open spec fn empty() -> ChainView {
        ChainView {
            blocks: Map::empty(),
            hashes: Map::empty(),
            best_hash: H256::zero_spec(),
            best_number: 0,
            genesis_hash: H256::zero_spec(),
        }
    }

    /// The hash that an id stands for: itself, or what is filed under the
    /// number.
    pub open spec fn resolve(self, id: BlockId) -> Option<H256> {
        match id {
            BlockId::Hash(h) => Some(h),
            BlockId::Number(n) => if self.hashes.contains_key(n) {
                Some(self.hashes[n])
            } else {
                None
            },
        }
    }

    /// The block that an id stands for.
    pub open spec fn block(self, id: BlockId) -> Option<StoredBlockView> {
        match self.resolve(id) {
            Some(h) => if self.blocks.contains_key(h) {
                Some(self.blocks[h])
            } else {
                None
            },
            None => None,
        }
    }

    /// The header of the block that an id stands for.
    pub open spec fn header(self, id: BlockId) -> Option<HeaderView> {
        match self.block(id) {
            Some(b) => Some(b.header),
            None => None,
        }
    }

    /// The body of the block that an id stands for.
    pub open spec fn body(self, id: BlockId) -> Option<Seq<UncheckedExtrinsicView>> {
        match self.block(id) {
            Some(b) => b.body,
            None => None,
        }
    }

    /// The justification of the block that an id stands for.
    pub open spec fn justification(self, id: BlockId) -> Option<JustificationView> {
        match self.block(id) {
            Some(b) => b.justification,
            None => None,
        }
    }

    /// Whether the chain has the block that an id stands for.
    pub open spec fn status(self, id: BlockId) -> BlockStatus {
        if self.block(id).is_some() {
            BlockStatus::InChain
        } else {
            BlockStatus::Unknown
        }
    }

    /// Whether every block is filed under the hash of its header.
    pub open spec fn filed_by_hash(self) -> bool {
        forall|h: H256| #[trigger]
            self.blocks.contains_key(h) ==> self.blocks[h].header.hash() == h
    }

    /// The chain after a block was written: it is filed under the hash of
    /// its header and under its number, it is the best block where
    /// `is_new_best` says so, and the genesis block where its number is 0.
    pub open spec fn insert(self, block: StoredBlockView, is_new_best: bool) -> ChainView {
        let hash = block.header.hash();
        ChainView {
            blocks: self.blocks.insert(hash, block),
            hashes: self.hashes.insert(block.header.number, hash),
            best_hash: if is_new_best {
                hash
            } else {
                self.best_hash
            },
            best_number: if is_new_best {
                block.header.number
            } else {
                self.best_number
            },
            genesis_hash: if block.header.number == 0 {
                hash
            } else {
                self.genesis_hash
            },
        }
    }
}

/// Writing a block keeps every block filed under the hash of its header.
pub proof fn lemma_insert_keeps_filing(chain: ChainView, block: StoredBlockView, is_new_best: bool)
    requires
        chain.filed_by_hash(),
    ensures
        chain.insert(block, is_new_best).filed_by_hash(),
{
}

/// A copy of a body.
pub fn clone_body(body: &Option<Vec<UncheckedExtrinsic>>) -> (r: Option<Vec<UncheckedExtrinsic>>)
    ensures
        body_view(r) == body_view(*body),
{
    match body {
        Some(extrinsics) => Some(clone_extrinsics(extrinsics)),
        None => None,
    }
}

/// A copy of a stored justification.
pub fn clone_justification(justification: &Option<UncheckedJustification>) -> (r: Option<
    UncheckedJustification,
>)
    ensures
        justification_view(r) == justification_view(*justification),
{
    match justification {
        Some(j) => Some(j.clone()),
        None => None,
    }
}

/// A chain index.
///
/// What an index holds is its view, and every answer is read off the view.
/// An index that cannot fail says so by `infallible`; one that can may
/// answer any question with a backend error.
pub trait Backend: View<V = ChainView> {
    /// Whether no request to this index fails.
    spec fn infallible(&self) -> bool;

    /// The header of a block. Where the block is asked for by its hash, that
    /// is the hash of the header that comes back.
    fn header(&self, id: BlockId) -> (r: Result<Option<Header>, Error>)
        ensures
            match r {
                Ok(Some(h)) => self@.header(id) == Some(h@) && (id matches BlockId::Hash(hash)
                    ==> h@.hash() == hash),
                Ok(None) => self@.header(id).is_none(),
                Err(e) => e is Backend && !self.infallible(),
            },
    ;

    /// The extrinsics of a block.
    fn body(&self, id: BlockId) -> (r: Result<Option<Vec<UncheckedExtrinsic>>, Error>)
        ensures
            match r {
                Ok(body) => body_view(body) == self@.body(id),
                Err(e) => e is Backend && !self.infallible(),
            },
    ;

    /// The justification of a block.
    fn justification(&self, id: BlockId) -> (r: Result<Option<UncheckedJustification>, Error>)
        ensures
            match r {
                Ok(j) => justification_view(j) == self@.justification(id),
                Err(e) => e is Backend && !self.infallible(),
            },
    ;

    /// Where the chain stands.
    fn info(&self) -> (r: Result<Info, Error>)
        ensures
            match r {
                Ok(info) => info.best_hash == self@.best_hash && info.best_number
                    == self@.best_number && info.genesis_hash == self@.genesis_hash,
                Err(e) => e is Backend && !self.infallible(),
            },
    ;

    /// Whether the chain has a block.
    fn status(&self, id: BlockId) -> (r: Result<BlockStatus, Error>)
        ensures
            match r {
                Ok(status) => status == self@.status(id),
                Err(e) => e is Backend && !self.infallible(),
            },
    ;

    /// The hash filed under a number.
    fn hash(&self, number: BlockNumber) -> (r: Result<Option<H256>, Error>)
        ensures
            match r {
                Ok(hash) => hash == self@.resolve(BlockId::Number(number)),
                Err(e) => e is Backend && !self.infallible(),
            },
    ;
}

} // verus!
