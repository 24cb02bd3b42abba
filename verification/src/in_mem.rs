//! A backend that keeps the chain and every state in memory. It never
//! fails but for want of a block.

use crate::backend::{BackendView, BlockImportOperation};
use crate::bft::UncheckedJustification;
use crate::blockchain::{
    body_view, clone_body, clone_justification, justification_view, BlockStatus, ChainView, Info,
    StoredBlock, StoredBlockView,
};
use crate::error::Error;
use crate::generic::{BlockId, BlockNumber, Header, UncheckedExtrinsic};
use crate::hash::{lemma_h256_by_bytes, H256};
use crate::journal::{
    journal_map, latest, lemma_journal_map_empty, lemma_journal_map_push,
    lemma_latest_is_some_pair,
};
use crate::state_machine::InMemory;
use vstd::prelude::*;

verus! {

/// The pairs of hash and block that a block journal holds.
pub open spec fn block_pairs(blocks: Seq<(H256, StoredBlock)>) -> Seq<(H256, StoredBlockView)> {
    blocks.map_values(|e: (H256, StoredBlock)| (e.0, e.1@))
}

/// The pairs of hash and state that a state journal holds.
pub open spec fn state_pairs(states: Seq<(H256, InMemory)>) -> Seq<
    (H256, Map<Seq<u8>, Seq<u8>>),
> {
    states.map_values(|e: (H256, InMemory)| (e.0, e.1@))
}

/// The chain index held in memory.
#[derive(Debug)]
pub struct Blockchain {
    blocks: Vec<(H256, StoredBlock)>,
    hashes: Vec<(BlockNumber, H256)>,
    best_hash: H256,
    best_number: BlockNumber,
    genesis_hash: H256,
}

impl View for Blockchain {
    type V = ChainView;

    closed spec fn view(&self) -> ChainView {
        ChainView {
            blocks: journal_map(block_pairs(self.blocks@)),
            hashes: journal_map(self.hashes@),
            best_hash: self.best_hash,
            best_number: self.best_number,
            genesis_hash: self.genesis_hash,
        }
    }
}

impl Blockchain {
    #[verifier::type_invariant]
    spec fn filed(&self) -> bool {
        forall|i: int|
            0 <= i < self.blocks@.len() ==> (#[trigger] self.blocks@[i]).0
                == self.blocks@[i].1.header@.hash()
    }

    /// An index without blocks.
    pub fn new() -> (r: Self)
        ensures
            r@ == ChainView::empty(),
    {
        let r = Blockchain {
            blocks: Vec::new(),
            hashes: Vec::new(),
            best_hash: H256::zero(),
            best_number: 0,
            genesis_hash: H256::zero(),
        };
        proof {
            assert(block_pairs(r.blocks@) =~= Seq::empty());
            assert(r.hashes@ =~= Seq::empty());
            lemma_journal_map_empty::<H256, StoredBlockView>();
            lemma_journal_map_empty::<BlockNumber, H256>();
        }
        r
    }

    /// Every block is filed under the hash of its header.
    pub fn filing(&self)
        ensures
            self@.filed_by_hash(),
    {
        proof {
            use_type_invariant(self);
            let pairs = block_pairs(self.blocks@);
            assert forall|h: H256| #[trigger]
                self@.blocks.contains_key(h) implies self@.blocks[h].header.hash() == h by {
                let i = lemma_latest_is_some_pair(pairs, h);
                assert(pairs[i] == (self.blocks@[i].0, self.blocks@[i].1@));
            }
        }
    }

    /// Where the block with this hash stands in the journal.
    fn find_block(&self, hash: &H256) -> (r: Option<usize>)
        ensures
            match r {
                Some(i) => i < self.blocks@.len() && self.blocks@[i as int].0 == *hash
                    && self@.blocks.contains_key(*hash) && self@.blocks[*hash]
                    == self.blocks@[i as int].1@,
                None => !self@.blocks.contains_key(*hash),
            },
    {
        let ghost all = block_pairs(self.blocks@);
        let mut i: usize = self.blocks.len();
        assert(all.take(i as int) =~= all);
        while i > 0
            invariant
                i <= self.blocks@.len(),
                all == block_pairs(self.blocks@),
                latest(all, *hash) == latest(all.take(i as int), *hash),
            decreases i,
        {
            i = i - 1;
            proof {
                assert(all.take(i + 1).last() == (
                    self.blocks@[i as int].0,
                    self.blocks@[i as int].1@,
                ));
                assert(all.take(i + 1).drop_last() =~= all.take(i as int));
                lemma_h256_by_bytes(self.blocks@[i as int].0, *hash);
            }
            if self.blocks[i].0 == *hash {
                return Some(i);
            }
        }
        assert(all.take(0) =~= Seq::<(H256, StoredBlockView)>::empty());
        None
    }

    /// The hash filed under a number.
    fn find_number(&self, number: BlockNumber) -> (r: Option<H256>)
        ensures
            r == self@.resolve(BlockId::Number(number)),
    {
        let ghost all = self.hashes@;
        let mut i: usize = self.hashes.len();
        assert(all.take(i as int) =~= all);
        while i > 0
            invariant
                i <= self.hashes@.len(),
                all == self.hashes@,
                latest(all, number) == latest(all.take(i as int), number),
            decreases i,
        {
            i = i - 1;
            proof {
                assert(all.take(i + 1).last() == self.hashes@[i as int]);
                assert(all.take(i + 1).drop_last() =~= all.take(i as int));
            }
            if self.hashes[i].0 == number {
                return Some(self.hashes[i].1);
            }
        }
        assert(all.take(0) =~= Seq::<(BlockNumber, H256)>::empty());
        None
    }

    /// The hash that an id stands for.
    pub fn id(&self, id: BlockId) -> (r: Option<H256>)
        ensures
            r == self@.resolve(id),
    {
        match id {
            BlockId::Hash(h) => Some(h),
            BlockId::Number(n) => self.find_number(n),
        }
    }

    /// The stored block that an id stands for.
    fn find(&self, id: BlockId) -> (r: Option<&StoredBlock>)
        ensures
            match r {
                Some(b) => self@.block(id) == Some(b@) && (id matches BlockId::Hash(h)
                    ==> b.header@.hash() == h),
                None => self@.block(id).is_none(),
            },
    {
        proof {
            use_type_invariant(self);
        }
        match self.id(id) {
            Some(hash) => match self.find_block(&hash) {
                Some(i) => Some(&self.blocks[i].1),
                None => None,
            },
            None => None,
        }
    }

    /// Writes a block: files it under the hash of its header and under its
    /// number.
    pub fn insert(
        &mut self,
        header: Header,
        justification: Option<UncheckedJustification>,
        body: Option<Vec<UncheckedExtrinsic>>,
        is_new_best: bool,
    ) -> (hash: H256)
        ensures
            hash == header@.hash(),
            final(self)@ == old(self)@.insert(
                StoredBlockView {
                    header: header@,
                    body: body_view(body),
                    justification: justification_view(justification),
                },
                is_new_best,
            ),
    {
        proof {
            use_type_invariant(&*self);
        }
        let hash = header.hash();
        let number = header.number;
        let block = StoredBlock { header, body, justification };
        proof {
            lemma_journal_map_push(block_pairs(self.blocks@), hash, block@);
            lemma_journal_map_push(self.hashes@, number, hash);
            assert(block_pairs(self.blocks@.push((hash, block))) =~= block_pairs(
                self.blocks@,
            ).push((hash, block@)));
        }
        let mut blocks: Vec<(H256, StoredBlock)> = Vec::new();
        core::mem::swap(&mut self.blocks, &mut blocks);
        blocks.push((hash, block));
        core::mem::swap(&mut self.blocks, &mut blocks);
        let mut hashes: Vec<(BlockNumber, H256)> = Vec::new();
        core::mem::swap(&mut self.hashes, &mut hashes);
        hashes.push((number, hash));
        core::mem::swap(&mut self.hashes, &mut hashes);
        if is_new_best {
            self.best_hash = hash;
            self.best_number = number;
        }
        if number == 0 {
            self.genesis_hash = hash;
        }
        hash
    }
}

impl crate::blockchain::Backend for Blockchain {
    open spec fn infallible(&self) -> bool {
        true
    }

    fn header(&self, id: BlockId) -> (r: Result<Option<Header>, Error>) {
        match self.find(id) {
            Some(b) => Ok(Some(b.header.clone())),
            None => Ok(None),
        }
    }

    fn body(&self, id: BlockId) -> (r: Result<Option<Vec<UncheckedExtrinsic>>, Error>) {
        match self.find(id) {
            Some(b) => Ok(clone_body(&b.body)),
            None => Ok(None),
        }
    }

    fn justification(&self, id: BlockId) -> (r: Result<Option<UncheckedJustification>, Error>) {
        match self.find(id) {
            Some(b) => Ok(clone_justification(&b.justification)),
            None => Ok(None),
        }
    }

    fn info(&self) -> (r: Result<Info, Error>) {
        Ok(
            Info {
                best_hash: self.best_hash,
                best_number: self.best_number,
                genesis_hash: self.genesis_hash,
            },
        )
    }

    fn status(&self, id: BlockId) -> (r: Result<BlockStatus, Error>) {
        match self.find(id) {
            Some(_) => Ok(BlockStatus::InChain),
            None => Ok(BlockStatus::Unknown),
        }
    }

    fn hash(&self, number: BlockNumber) -> (r: Result<Option<H256>, Error>) {
        Ok(self.find_number(number))
    }
}

/// The backend held in memory.
#[derive(Debug)]
pub struct Backend {
    states: Vec<(H256, InMemory)>,
    blockchain: Blockchain,
}

impl View for Backend {
    type V = BackendView;

    closed spec fn view(&self) -> BackendView {
        BackendView { chain: self.blockchain@, states: journal_map(state_pairs(self.states@)) }
    }
}

impl Backend {
    #[verifier::type_invariant]
    spec fn every_block_has_state(&self) -> bool {
        forall|h: H256| #[trigger]
            self.blockchain@.blocks.contains_key(h) ==> journal_map(
                state_pairs(self.states@),
            ).contains_key(h)
    }

    /// A backend that holds nothing.
    pub fn new() -> (r: Self)
        ensures
            r@ == BackendView::empty(),
    {
        let r = Backend { states: Vec::new(), blockchain: Blockchain::new() };
        proof {
            assert(state_pairs(r.states@) =~= Seq::empty());
            lemma_journal_map_empty::<H256, Map<Seq<u8>, Seq<u8>>>();
        }
        r
    }

    /// The state filed under a hash.
    fn find_state(&self, hash: &H256) -> (r: Option<&InMemory>)
        ensures
            match r {
                Some(s) => self@.states.contains_key(*hash) && self@.states[*hash] == s@,
                None => !self@.states.contains_key(*hash),
            },
    {
        let ghost all = state_pairs(self.states@);
        let mut i: usize = self.states.len();
        assert(all.take(i as int) =~= all);
        while i > 0
            invariant
                i <= self.states@.len(),
                all == state_pairs(self.states@),
                latest(all, *hash) == latest(all.take(i as int), *hash),
            decreases i,
        {
            i = i - 1;
            proof {
                assert(all.take(i + 1).last() == (
                    self.states@[i as int].0,
                    self.states@[i as int].1@,
                ));
                assert(all.take(i + 1).drop_last() =~= all.take(i as int));
                lemma_h256_by_bytes(self.states@[i as int].0, *hash);
            }
            if self.states[i].0 == *hash {
                return Some(&self.states[i].1);
            }
        }
        assert(all.take(0) =~= Seq::<(H256, Map<Seq<u8>, Seq<u8>>)>::empty());
        None
    }
}

impl crate::backend::Backend for Backend {
    type Blockchain = Blockchain;

    open spec fn infallible(&self) -> bool {
        true
    }

    fn blockchain(&self) -> (r: &Blockchain) {
        proof {
            use_type_invariant(self);
        }
        self.blockchain.filing();
        &self.blockchain
    }

    fn state_at(&self, block: BlockId) -> (r: Result<InMemory, Error>) {
        match self.blockchain.id(block) {
            Some(hash) => match self.find_state(&hash) {
                Some(state) => Ok(state.clone()),
                None => Err(Error::Backend("unknown block".to_string())),
            },
            None => Err(Error::Backend("unknown block".to_string())),
        }
    }

    fn begin_operation(&self, block: BlockId) -> (r: Result<BlockImportOperation, Error>) {
        let on_zero = match block {
            BlockId::Hash(h) => {
                let zero = H256::zero();
                proof {
                    lemma_h256_by_bytes(h, zero);
                }
                h == zero
            },
            BlockId::Number(_) => false,
        };
        let state = if on_zero {
            InMemory::new()
        } else {
            match self.state_at(block) {
                Ok(s) => s,
                Err(e) => { return Err(e); },
            }
        };
        Ok(BlockImportOperation::new(state))
    }

    fn commit_operation(&mut self, operation: BlockImportOperation) -> (r: Result<(), Error>) {
        proof {
            use_type_invariant(&*self);
        }
        let (pending, state) = operation.into_parts();
        match pending {
            Some((block, is_best)) => {
                let StoredBlock { header, body, justification } = block;
                let hash = header.hash();
                proof {
                    lemma_journal_map_push(state_pairs(self.states@), hash, state@);
                    assert(state_pairs(self.states@.push((hash, state))) =~= state_pairs(
                        self.states@,
                    ).push((hash, state@)));
                }
                let mut chain = Blockchain::new();
                core::mem::swap(&mut self.blockchain, &mut chain);
                let mut states: Vec<(H256, InMemory)> = Vec::new();
                core::mem::swap(&mut self.states, &mut states);
                states.push((hash, state));
                core::mem::swap(&mut self.states, &mut states);
                chain.insert(header, justification, body, is_best);
                core::mem::swap(&mut self.blockchain, &mut chain);
                Ok(())
            },
            None => Ok(()),
        }
    }
}

} // verus!
