//! Building a block on top of a block of the chain: the on-chain code
//! opens the block, applies each extrinsic and closes the block, and says
//! what the header of the block is.

use crate::backend::{Backend, BackendView};
use crate::client::Client;
use crate::codec::Input;
use crate::error::Error;
use crate::generic::{
    Block, BlockId, Digest, Header, HeaderView, UncheckedExtrinsic, UncheckedExtrinsicView,
};
use crate::hash::H256;
use crate::state_machine::{
    code_key, execute, read_through, set_up, set_up_over, writes_view, CodeExecutor, Ext,
    InMemory, OverlayedChanges,
};
use vstd::prelude::*;

verus! {

impl BackendView {
    /// The number and the parent hash of a block built on the block that an
    /// id stands for, where the backend can say them and has the state to
    /// build on.
    pub open spec fn child_of(self, id: BlockId) -> Option<(u64, H256)> {
        let number = match id {
            BlockId::Hash(_) => match self.chain.header(id) {
                Some(h) => Some(h.number),
                None => None,
            },
            BlockId::Number(n) => Some(n),
        };
        match (number, self.chain.resolve(id), self.state(id)) {
            (Some(n), Some(hash), Some(_)) => if n < u64::MAX {
                Some(((n + 1) as u64, hash))
            } else {
                None
            },
            _ => None,
        }
    }
}

/// The header with which a block is opened: its number and its parent, and
/// nothing else yet.
pub open spec fn opening_header(number: u64, parent_hash: H256) -> HeaderView {
    HeaderView {
        parent_hash,
        number,
        state_root: H256::zero_spec(),
        extrinsics_root: H256::zero_spec(),
        digest: Seq::empty(),
    }
}

/// Whether a clone of `executor` may have refused, with `message`, to open
/// a block with the header `header` on `state`: where the state holds code,
/// the clone was handed that code, the entry point `initialise_block`, the
/// wire form of the header and a view of the state without pending writes,
/// and answered with the message.
pub open spec fn refused_to_open<E: CodeExecutor + Clone>(
    executor: E,
    state: Map<Seq<u8>, Seq<u8>>,
    header: HeaderView,
    message: String,
) -> bool {
    exists|clone: E| #[trigger]
        cloned::<E>(executor, clone) && (state.contains_key(code_key()) ==> exists|
            ext: &mut Ext,
            handed: &[u8],
            input: &[u8],
            outcome: Result<Vec<u8>, String>,
        |
            #[trigger] call_ensures(E::call, (&clone, ext, handed, "initialise_block", input), outcome)
                && set_up(ext, handed, input, state, header.encoding()) && outcome == Err::<
                Vec<u8>,
                String,
            >(message))
}

/// Whether a builder could not be opened on the block that `id` stands for:
/// the backend failed, or cannot say the number and the parent hash of a
/// child or has no state to build on, or the executor refused.
pub open spec fn not_opened<E: CodeExecutor + Clone>(
    backend: BackendView,
    infallible: bool,
    executor: E,
    id: BlockId,
    e: Error,
) -> bool {
    match e {
        Error::Execution(message) => backend.child_of(id).is_some() && refused_to_open(
            executor,
            backend.state(id).unwrap(),
            opening_header(backend.child_of(id).unwrap().0, backend.child_of(id).unwrap().1),
            message,
        ),
        _ => e is Backend && (infallible ==> backend.child_of(id).is_none()),
    }
}

/// A block in the making.
pub struct BlockBuilder<E> {
    header: Header,
    extrinsics: Vec<UncheckedExtrinsic>,
    executor: E,
    state: InMemory,
    changes: OverlayedChanges,
}

impl<E: CodeExecutor + Clone> BlockBuilder<E> {
    /// The extrinsics that the block holds so far.
    pub closed spec fn extrinsics(&self) -> Seq<UncheckedExtrinsicView> {
        self.extrinsics.deep_view()
    }

    /// The header with which the block was opened.
    pub closed spec fn header(&self) -> HeaderView {
        self.header@
    }

    /// The executor that builds the block.
    pub closed spec fn executor(&self) -> E {
        self.executor
    }

    /// The state on which the block is built.
    pub closed spec fn state(&self) -> Map<Seq<u8>, Seq<u8>> {
        self.state@
    }

    /// The writes that the block has made so far.
    pub closed spec fn pending(&self) -> Seq<(Seq<u8>, Option<Seq<u8>>)> {
        self.changes.writes()
    }

    /// A builder of a block on top of the best block. See `at_block`.
    pub fn new<B: Backend>(client: &Client<B, E>) -> (r: Result<Self, Error>)
        ensures
            match r {
                Ok(builder) => builder.opened_on(
                    client@,
                    BlockId::Number(client@.chain.best_number),
                ) && cloned::<E>(client.executor(), builder.executor()) && exists|
                    ext: &mut Ext,
                    handed: &[u8],
                    input: &[u8],
                    outcome: Result<Vec<u8>, String>,
                |
                    #[trigger] call_ensures(
                        E::call,
                        (&builder.executor(), ext, handed, "initialise_block", input),
                        outcome,
                    ) && set_up(ext, handed, input, builder.state(), builder.header().encoding())
                        && outcome is Ok && builder.pending() == final(ext.overlay).writes(),
                Err(e) => not_opened(
                    client@,
                    client.infallible(),
                    client.executor(),
                    BlockId::Number(client@.chain.best_number),
                    e,
                ),
            },
    {
        let best_number = match client.info() {
            Ok(info) => info.chain.best_number,
            Err(e) => { return Err(e); },
        };
        Self::at_block(&BlockId::Number(best_number), client)
    }

    /// Whether the builder was opened on the block that `id` stands for in
    /// `backend`: it has no extrinsics, its header is the opening header of
    /// a child of that block, and its state is the state after that block.
    pub open spec fn opened_on(&self, backend: BackendView, id: BlockId) -> bool {
        &&& self.extrinsics().len() == 0
        &&& backend.child_of(id) matches Some((number, parent_hash))
        &&& self.header() == opening_header(number, parent_hash)
        &&& backend.state(id) == Some(self.state())
    }

    /// A builder of a block on top of the block that `block_id` stands for.
    ///
    /// The builder works with a clone of the executor of the client. That
    /// clone is handed the code of the state after the block, the entry point
    /// `initialise_block`, the wire form of the opening header and a view of
    /// the state without pending writes; the writes that it leaves are kept.
    pub fn at_block<B: Backend>(block_id: &BlockId, client: &Client<B, E>) -> (r: Result<
        Self,
        Error,
    >)
        ensures
            match r {
                Ok(builder) => builder.opened_on(client@, *block_id) && cloned::<E>(
                    client.executor(),
                    builder.executor(),
                ) && exists|
                    ext: &mut Ext,
                    handed: &[u8],
                    input: &[u8],
                    outcome: Result<Vec<u8>, String>,
                |
                    #[trigger] call_ensures(
                        E::call,
                        (&builder.executor(), ext, handed, "initialise_block", input),
                        outcome,
                    ) && set_up(ext, handed, input, builder.state(), builder.header().encoding())
                        && outcome is Ok && builder.pending() == final(ext.overlay).writes(),
                Err(e) => not_opened(
                    client@,
                    client.infallible(),
                    client.executor(),
                    *block_id,
                    e,
                ),
            },
    {
        let parent_number = match client.block_number_from_id(block_id) {
            Ok(Some(n)) => n,
            Ok(None) => { return Err(Error::Backend("unknown block".to_string())); },
            Err(e) => { return Err(e); },
        };
        let parent_hash = match client.block_hash_from_id(block_id) {
            Ok(Some(h)) => h,
            Ok(None) => { return Err(Error::Backend("unknown block".to_string())); },
            Err(e) => { return Err(e); },
        };
        let state = match client.state_at(block_id) {
            Ok(s) => s,
            Err(e) => { return Err(e); },
        };
        if parent_number == u64::MAX {
            return Err(Error::Backend("no block number is left".to_string()));
        }
        let executor = client.clone_executor();
        let mut changes = OverlayedChanges::new();
        let header = Header::new(
            parent_number + 1,
            H256::zero(),
            H256::zero(),
            parent_hash,
            Digest::new(),
        );
        let encoded = header.encode();
        proof {
            crate::state_machine::lemma_read_through(state@, changes.writes(), code_key());
            crate::state_machine::lemma_overlaid_nothing(state@);
        }
        match execute(&state, &mut changes, &executor, "initialise_block", encoded.as_slice()) {
            Ok(_) => {},
            Err(e) => { return Err(e); },
        }
        changes.commit_prospective();
        let extrinsics: Vec<UncheckedExtrinsic> = Vec::new();
        assert(extrinsics.deep_view() =~= Seq::<UncheckedExtrinsicView>::empty());
        Ok(BlockBuilder { header, extrinsics, executor, state, changes })
    }

    /// Push an extrinsic onto the block.
    ///
    /// The executor is handed what `:code` reads as, the entry point
    /// `apply_extrinsic`, the wire form of the extrinsic and a view of the
    /// state through the writes of the block so far. Where it returns, the
    /// extrinsic is in the block and the writes that it left are those of
    /// the block; where it fails, the block has the extrinsics it had, and
    /// of the writes that it left those of this call are dropped.
    pub fn push(&mut self, xt: UncheckedExtrinsic) -> (r: Result<(), Error>)
        ensures
            final(self).header() == old(self).header(),
            final(self).executor() == old(self).executor(),
            final(self).state() == old(self).state(),
            match r {
                Ok(()) => final(self).extrinsics() == old(self).extrinsics().push(xt@) && exists|
                    ext: &mut Ext,
                    handed: &[u8],
                    input: &[u8],
                    outcome: Result<Vec<u8>, String>,
                |
                    #[trigger] call_ensures(
                        E::call,
                        (&old(self).executor(), ext, handed, "apply_extrinsic", input),
                        outcome,
                    ) && set_up_over(
                        ext,
                        handed,
                        input,
                        old(self).state(),
                        old(self).pending(),
                        xt@.encoding(),
                    ) && outcome is Ok && final(self).pending() == final(ext.overlay).writes(),
                Err(Error::Execution(message)) => final(self).extrinsics()
                    == old(self).extrinsics() && (read_through(
                    old(self).state(),
                    old(self).pending(),
                    code_key(),
                ).is_some() ==> exists|
                    ext: &mut Ext,
                    handed: &[u8],
                    input: &[u8],
                    outcome: Result<Vec<u8>, String>,
                |
                    #[trigger] call_ensures(
                        E::call,
                        (&old(self).executor(), ext, handed, "apply_extrinsic", input),
                        outcome,
                    ) && set_up_over(
                        ext,
                        handed,
                        input,
                        old(self).state(),
                        old(self).pending(),
                        xt@.encoding(),
                    ) && outcome == Err::<Vec<u8>, String>(message) && final(self).pending()
                        == writes_view(final(ext.overlay).committed@)),
                Err(_) => false,
            },
    {
        let encoded = xt.encode();
        assert(old(self).executor() == self.executor);
        assert(old(self).pending() == self.changes.writes());
        assert(old(self).state() == self.state@);
        match execute(
            &self.state,
            &mut self.changes,
            &self.executor,
            "apply_extrinsic",
            encoded.as_slice(),
        ) {
            Ok(_) => {
                self.extrinsics.push(xt);
                self.changes.commit_prospective();
                assert(self.extrinsics() =~= old(self).extrinsics().push(xt@));
                Ok(())
            },
            Err(e) => {
                self.changes.discard_prospective();
                Err(e)
            },
        }
    }

    /// Close the block.
    ///
    /// The executor is handed what `:code` reads as, the entry point
    /// `finalise_block`, no input and a view of the state through the writes
    /// of the block. What it returns must be the wire form of a header: the
    /// block is that header with the extrinsics that were pushed.
    pub fn bake(self) -> (r: Result<Block, Error>)
        ensures
            match r {
                Ok(block) => block@.extrinsics == self.extrinsics() && exists|
                    ext: &mut Ext,
                    handed: &[u8],
                    input: &[u8],
                    outcome: Result<Vec<u8>, String>,
                |
                    #[trigger] call_ensures(
                        E::call,
                        (&self.executor(), ext, handed, "finalise_block", input),
                        outcome,
                    ) && set_up_over(
                        ext,
                        handed,
                        input,
                        self.state(),
                        self.pending(),
                        Seq::empty(),
                    ) && outcome is Ok && HeaderView::decoding(outcome.unwrap()@) == Some(
                        (block@.header, Seq::<u8>::empty()),
                    ),
                Err(e) => e is Execution || e is Decode,
            },
    {
        assert(self.executor() == self.executor);
        assert(self.pending() == self.changes.writes());
        assert(self.state() == self.state@);
        let BlockBuilder { header: _, extrinsics, executor, state, changes } = self;
        let mut changes = changes;
        let empty: Vec<u8> = Vec::new();
        let output = match execute(
            &state,
            &mut changes,
            &executor,
            "finalise_block",
            empty.as_slice(),
        ) {
            Ok((output, _)) => output,
            Err(e) => { return Err(e); },
        };
        let r = header_from_runtime(output.as_slice(), extrinsics);
        proof {
            match HeaderView::decoding(output@) {
                Some((_, rest)) => {
                    if rest.len() == 0 {
                        assert(rest =~= Seq::<u8>::empty());
                    }
                },
                None => {},
            }
        }
        r
    }
}

/// The block that the header in `output` and the extrinsics make: `output`
/// must be the wire form of a header, and nothing else.
pub fn header_from_runtime(output: &[u8], extrinsics: Vec<UncheckedExtrinsic>) -> (r: Result<
    Block,
    Error,
>)
    ensures
        match HeaderView::decoding(output@) {
            Some((header, rest)) => if rest.len() == 0 {
                r matches Ok(block) && block@.header == header && block@.extrinsics
                    == extrinsics.deep_view()
            } else {
                r matches Err(Error::Decode)
            },
            None => r matches Err(Error::Decode),
        },
{
    let mut input = Input::new(output);
    match Header::decode(&mut input) {
        Some(header) => {
            if input.remaining_len() == 0 {
                Ok(Block::new(header, extrinsics))
            } else {
                Err(Error::Decode)
            }
        },
        None => Err(Error::Decode),
    }
}

impl<B: Backend, E: CodeExecutor + Clone> Client<B, E> {
    /// Create a new block, built on the head of the chain. See
    /// `BlockBuilder::at_block`.
    pub fn new_block(&self) -> (r: Result<BlockBuilder<E>, Error>)
        ensures
            match r {
                Ok(builder) => builder.opened_on(self@, BlockId::Number(self@.chain.best_number))
                    && cloned::<E>(self.executor(), builder.executor()) && exists|
                    ext: &mut Ext,
                    handed: &[u8],
                    input: &[u8],
                    outcome: Result<Vec<u8>, String>,
                |
                    #[trigger] call_ensures(
                        E::call,
                        (&builder.executor(), ext, handed, "initialise_block", input),
                        outcome,
                    ) && set_up(ext, handed, input, builder.state(), builder.header().encoding())
                        && outcome is Ok && builder.pending() == final(ext.overlay).writes(),
                Err(e) => not_opened(
                    self@,
                    self.infallible(),
                    self.executor(),
                    BlockId::Number(self@.chain.best_number),
                    e,
                ),
            },
    {
        BlockBuilder::new(self)
    }

    /// Create a new block, built on top of `parent`. See
    /// `BlockBuilder::at_block`.
    pub fn new_block_at(&self, parent: &BlockId) -> (r: Result<BlockBuilder<E>, Error>)
        ensures
            match r {
                Ok(builder) => builder.opened_on(self@, *parent) && cloned::<E>(
                    self.executor(),
                    builder.executor(),
                ) && exists|
                    ext: &mut Ext,
                    handed: &[u8],
                    input: &[u8],
                    outcome: Result<Vec<u8>, String>,
                |
                    #[trigger] call_ensures(
                        E::call,
                        (&builder.executor(), ext, handed, "initialise_block", input),
                        outcome,
                    ) && set_up(ext, handed, input, builder.state(), builder.header().encoding())
                        && outcome is Ok && builder.pending() == final(ext.overlay).writes(),
                Err(e) => not_opened(self@, self.infallible(), self.executor(), *parent, e),
            },
    {
        BlockBuilder::at_block(parent, self)
    }
}

} // verus!
