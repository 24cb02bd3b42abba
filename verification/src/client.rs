//! The client: genesis, queries on the chain and its states, the check of
//! justifications, and the import of blocks.

use crate::authorities::{authorities_in, lemma_fault_kind, read_authorities};
use crate::backend::{Backend, BackendView, BlockImportOperation, OperationView};
use crate::bft::{
    check_justification, justifies, Authorities, AuthorityId, BlockImport, Justification,
    JustificationView, UncheckedJustification,
};
use crate::blockchain::{body_view, clone_body, justification_view, Info, StoredBlockView};
use crate::error::Error;
use crate::events::{
    channel, fan_out, fanned_out, notification_for, opened, BlockImportNotification,
    BlockOrigin, NotificationView,
};
use crate::generic::{
    Block, BlockId, BlockNumber, Header, HeaderView, UncheckedExtrinsic, UncheckedExtrinsicView,
};
use crate::hash::{hex_string, H256};
use crate::state_machine::{
    code_key, code_key_bytes, concluded, execute, overlaid, pairs_view, read_through, set_up,
    with_externalities,
    writes_view, CodeExecutor, Ext, InMemory, OverlayedChanges, StorageUpdate,
};
use futures::sync::mpsc::{UnboundedReceiver, UnboundedSender};
use vstd::prelude::*;

verus! {

/// A key of the state.
#[derive(Debug, PartialEq, Eq)]
pub struct StorageKey(pub Vec<u8>);

/// The bytes stored under a key.
#[derive(Debug, PartialEq, Eq)]
pub struct StorageData(pub Vec<u8>);

/// Client info
#[derive(Debug)]
pub struct ClientInfo {
    /// Best block hash.
    pub chain: Info,
    /// Best block number in the queue.
    pub best_queued_number: Option<BlockNumber>,
    /// Best queued block hash.
    pub best_queued_hash: Option<H256>,
}

/// Information regarding the result of a call.
#[derive(Debug)]
pub struct CallResult {
    /// The data that was returned from the call.
    pub return_data: Vec<u8>,
    /// The changes made to the state by the call.
    pub changes: OverlayedChanges,
}

/// Block import result.
#[derive(Debug, PartialEq, Eq, Clone, Copy, Structural)]
pub enum ImportResult {
    /// Added to the import queue.
    Queued,
    /// Already in the import queue.
    AlreadyQueued,
    /// Already in the blockchain.
    AlreadyInChain,
    /// Block or parent is known to be bad.
    KnownBad,
    /// Block parent is not in the chain.
    UnknownParent,
}

/// Block status.
#[derive(Debug, PartialEq, Eq, Clone, Copy, Structural)]
pub enum BlockStatus {
    /// Added to the import queue.
    Queued,
    /// Already in the blockchain.
    InChain,
    /// Block or parent is known to be bad.
    KnownBad,
    /// Not in the queue or the blockchain.
    Unknown,
}

/// A header paired with a justification which has already been checked.
#[derive(Debug, PartialEq, Eq)]
pub struct JustifiedHeader {
    header: Header,
    justification: Justification,
}

impl JustifiedHeader {
    #[verifier::type_invariant]
    spec fn bound(&self) -> bool {
        self.justification@.parent_hash == self.header.parent_hash
    }

    /// The header.
    pub closed spec fn header(&self) -> HeaderView {
        self.header@
    }

    /// The justification.
    pub closed spec fn justification(&self) -> JustificationView {
        self.justification@
    }

    /// Pairs a header with a checked justification, if the justification
    /// names the parent of the header.
    pub fn new(header: Header, justification: Justification) -> (r: Option<Self>)
        ensures
            match r {
                Some(j) => justification@.parent_hash == header.parent_hash && j.header()
                    == header@ && j.justification() == justification@,
                None => justification@.parent_hash != header.parent_hash,
            },
    {
        let named = justification.parent_hash();
        proof {
            crate::hash::lemma_h256_by_bytes(named, header.parent_hash);
        }
        if named == header.parent_hash {
            Some(JustifiedHeader { header, justification })
        } else {
            None
        }
    }

    /// Deconstruct the justified header into parts.
    pub fn into_inner(self) -> (r: (Header, Justification))
        ensures
            r.0@ == self.header(),
            r.1@ == self.justification(),
            r.1@.parent_hash == r.0.parent_hash,
    {
        proof {
            use_type_invariant(&self);
        }
        (self.header, self.justification)
    }
}

impl Clone for JustifiedHeader {
    fn clone(&self) -> (r: Self)
        ensures
            r.header() == self.header(),
            r.justification() == self.justification(),
    {
        proof {
            use_type_invariant(self);
        }
        JustifiedHeader { header: self.header.clone(), justification: self.justification.clone() }
    }
}

impl BackendView {
    /// The backend after the genesis block was written: the block has an
    /// empty body and no justification, it is the best block, and its state
    /// is what the pairs describe.
    pub open spec fn with_genesis(
        self,
        header: HeaderView,
        store: Seq<(Seq<u8>, Option<Seq<u8>>)>,
    ) -> BackendView {
        self.commit(
            OperationView {
                pending_block: Some(
                    (
                        StoredBlockView {
                            header,
                            body: Some(Seq::<UncheckedExtrinsicView>::empty()),
                            justification: None,
                        },
                        true,
                    ),
                ),
                old_state: Map::empty(),
                new_state: Some(overlaid(Map::empty(), store)),
            },
        )
    }

    /// Whether a block with this number becomes the best block on import:
    /// it does where its number is one more than that of the best block.
    pub open spec fn extends_best(self, number: BlockNumber) -> bool {
        number == self.chain.best_number + 1
    }

    /// The backend after a block was imported on `parent_state` with the
    /// changes `update` that its execution made.
    pub open spec fn import(
        self,
        header: HeaderView,
        body: Option<Seq<UncheckedExtrinsicView>>,
        justification: JustificationView,
        parent_state: Map<Seq<u8>, Seq<u8>>,
        update: Seq<(Seq<u8>, Option<Seq<u8>>)>,
    ) -> BackendView {
        self.commit(
            OperationView {
                pending_block: Some(
                    (
                        StoredBlockView { header, body, justification: Some(justification) },
                        self.extends_best(header.number),
                    ),
                ),
                old_state: parent_state,
                new_state: Some(overlaid(parent_state, update)),
            },
        )
    }

    /// Whether the best block is a block of the chain.
    pub open spec fn head_known(self) -> bool {
        self.chain.blocks.contains_key(self.chain.best_hash)
    }

    /// The state on which a block with this parent is executed.
    pub open spec fn parent_state(self, parent_hash: H256) -> Map<Seq<u8>, Seq<u8>> {
        self.anchor_state(BlockId::Hash(parent_hash)).unwrap()
    }

    /// What subscribers are told of a block that is imported: its hash, its
    /// origin, its header, and whether it becomes the best block.
    pub open spec fn announcement(self, origin: BlockOrigin, header: HeaderView) -> NotificationView {
        NotificationView {
            hash: header.hash(),
            origin,
            header,
            is_new_best: self.extends_best(header.number),
        }
    }

    /// Whether the chain has the parent of a block.
    pub open spec fn parent_known(self, header: HeaderView) -> bool {
        self.chain.block(BlockId::Hash(header.parent_hash)).is_some()
    }

    /// The backend after a block was imported on the state of its parent,
    /// with the changes `update` that its execution made.
    pub open spec fn import_on_parent(
        self,
        header: HeaderView,
        body: Option<Seq<UncheckedExtrinsicView>>,
        justification: JustificationView,
        update: Seq<(Seq<u8>, Option<Seq<u8>>)>,
    ) -> BackendView {
        self.import(header, body, justification, self.parent_state(header.parent_hash), update)
    }

    /// Whether the execution of a block was set up on the state of its
    /// parent: `handed` is the code of that state, `input` is the wire form
    /// of the block, and `ext` is a view of that state without pending
    /// writes.
    pub open spec fn block_set_up(
        self,
        header: HeaderView,
        body: Option<Seq<UncheckedExtrinsicView>>,
        ext: &mut Ext,
        handed: &[u8],
        input: &[u8],
    ) -> bool {
        set_up(
            ext,
            handed,
            input,
            self.parent_state(header.parent_hash),
            execution_input(header, body),
        )
    }

    /// What the state after a block holds under a key: nothing is known
    /// where there is no such state, and the key may be absent from it.
    pub open spec fn storage(self, id: BlockId, key: Seq<u8>) -> Option<Option<Seq<u8>>> {
        match self.state(id) {
            Some(s) => Some(
                if s.contains_key(key) {
                    Some(s[key])
                } else {
                    None
                },
            ),
            None => None,
        }
    }

    /// The authority set in the state after a block, or the fault by which
    /// the state fails to give it, where there is such a state.
    pub open spec fn authorities(self, id: BlockId) -> Option<Result<Seq<AuthorityId>, Error>> {
        match self.state(id) {
            Some(s) => Some(authorities_in(s)),
            None => None,
        }
    }

    /// Whether a justification vouches for a block on `parent_hash` in the
    /// name of the authorities in the state after that parent, where there
    /// is such a state and it gives its authorities.
    pub open spec fn justified(
        self,
        parent_hash: H256,
        justification: JustificationView,
    ) -> Option<Result<bool, Error>> {
        match self.authorities(BlockId::Hash(parent_hash)) {
            Some(Ok(authorities)) => Some(Ok(justifies(authorities, parent_hash, justification))),
            Some(Err(e)) => Some(Err(e)),
            None => None,
        }
    }
}

/// An import leaves the number of the best block as it was or makes it the
/// number of the imported block, and never lowers it.
pub proof fn lemma_import_best_number(
    backend: BackendView,
    header: HeaderView,
    body: Option<Seq<UncheckedExtrinsicView>>,
    justification: JustificationView,
    parent_state: Map<Seq<u8>, Seq<u8>>,
    update: Seq<(Seq<u8>, Option<Seq<u8>>)>,
)
    ensures
        ({
            let after = backend.import(header, body, justification, parent_state, update);
            &&& after.chain.best_number == backend.chain.best_number || after.chain.best_number
                == header.number
            &&& after.chain.best_number >= backend.chain.best_number
        }),
{
}

/// An import keeps the best block a block of the chain.
pub proof fn lemma_import_keeps_head(
    backend: BackendView,
    header: HeaderView,
    body: Option<Seq<UncheckedExtrinsicView>>,
    justification: JustificationView,
    parent_state: Map<Seq<u8>, Seq<u8>>,
    update: Seq<(Seq<u8>, Option<Seq<u8>>)>,
)
    requires
        backend.head_known(),
    ensures
        backend.import(header, body, justification, parent_state, update).head_known(),
{
}

/// After the genesis block was written it is the best block, under the
/// number of its header, and a block of the chain.
pub proof fn lemma_genesis_is_head(
    backend: BackendView,
    header: HeaderView,
    store: Seq<(Seq<u8>, Option<Seq<u8>>)>,
)
    ensures
        backend.with_genesis(header, store).head_known(),
        backend.with_genesis(header, store).chain.best_hash == header.hash(),
        backend.with_genesis(header, store).chain.best_number == header.number,
        backend.with_genesis(header, store).chain.header(BlockId::Hash(header.hash())) == Some(
            header,
        ),
        backend.with_genesis(header, store).state(BlockId::Hash(header.hash())) == Some(
            overlaid(Map::empty(), store),
        ),
{
}

/// Importing once more a block that the chain holds as it is handed in,
/// with the state that its execution yields and under its number, changes
/// nothing, unless the second import makes it the best block.
pub proof fn lemma_import_again(
    backend: BackendView,
    header: HeaderView,
    body: Option<Seq<UncheckedExtrinsicView>>,
    justification: JustificationView,
    parent_state: Map<Seq<u8>, Seq<u8>>,
    update: Seq<(Seq<u8>, Option<Seq<u8>>)>,
)
    requires
        backend.chain.blocks.contains_key(header.hash()),
        backend.chain.blocks[header.hash()] == (StoredBlockView {
            header,
            body,
            justification: Some(justification),
        }),
        backend.states.contains_key(header.hash()),
        backend.states[header.hash()] == overlaid(parent_state, update),
        backend.chain.hashes.contains_key(header.number),
        backend.chain.hashes[header.number] == header.hash(),
        header.number == 0 ==> backend.chain.genesis_hash == header.hash(),
        !backend.extends_best(header.number),
    ensures
        backend.import(header, body, justification, parent_state, update) == backend,
{
    let after = backend.import(header, body, justification, parent_state, update);
    assert(after.chain.blocks =~= backend.chain.blocks);
    assert(after.chain.hashes =~= backend.chain.hashes);
    assert(after.states =~= backend.states);
}

/// The authorities that were written into the genesis state are those of
/// the genesis block: where the genesis store ends with the writes of an
/// authority set, the state after block 0 gives that set.
pub proof fn lemma_genesis_authorities(
    backend: BackendView,
    header: HeaderView,
    store: Seq<(Seq<u8>, Option<Seq<u8>>)>,
    authorities: Seq<AuthorityId>,
)
    requires
        header.number == 0,
        authorities.len() <= u32::MAX,
    ensures
        backend.with_genesis(
            header,
            store + crate::authorities::authority_writes(authorities),
        ).authorities(BlockId::Number(0)) == Some(Ok::<Seq<AuthorityId>, Error>(authorities)),
{
    let writes = crate::authorities::authority_writes(authorities);
    crate::state_machine::lemma_overlaid_twice(Map::empty(), store, writes);
    crate::authorities::lemma_authorities_written(overlaid(Map::empty(), store), authorities);
}

/// A source of blockchain events.
pub trait BlockchainEvents {
    /// Get block import event stream.
    fn import_notification_stream(&mut self) -> UnboundedReceiver<BlockImportNotification>;
}

/// Chain head information.
pub trait ChainHead {
    /// Whether the best block is a block of the chain.
    spec fn head_known(&self) -> bool;

    /// Get best block header.
    fn best_block_header(&self) -> Result<Header, Error>
        requires
            self.head_known(),
    ;
}

/// The client: a backend, the executor of the on-chain code, and the
/// channels of those who want to hear of imported blocks.
pub struct Client<B, E> {
    backend: B,
    executor: E,
    import_notification_sinks: Vec<UnboundedSender<BlockImportNotification>>,
}

impl<B: Backend, E> View for Client<B, E> {
    type V = BackendView;

    closed spec fn view(&self) -> BackendView {
        self.backend@
    }
}

/// Whether `number` is one more than `best`.
pub fn is_next(number: BlockNumber, best: BlockNumber) -> (r: bool)
    ensures
        r == (number == best + 1),
{
    number > 0 && number - 1 == best
}

/// The input of the entry point `execute_block`: the wire form of the block
/// that the header and the body make, in which a body that was not handed in
/// counts as empty.
pub open spec fn execution_input(
    header: HeaderView,
    body: Option<Seq<UncheckedExtrinsicView>>,
) -> Seq<u8> {
    (crate::generic::BlockView {
        header,
        extrinsics: match body {
            Some(extrinsics) => extrinsics,
            None => Seq::empty(),
        },
    }).encoding()
}

/// The bytes that the executor is handed to execute a block.
pub fn block_to_execute(header: &Header, body: &Option<Vec<UncheckedExtrinsic>>) -> (r: Vec<u8>)
    ensures
        r@ == execution_input(header@, body_view(*body)),
{
    let extrinsics = match clone_body(body) {
        Some(extrinsics) => extrinsics,
        None => {
            let none: Vec<UncheckedExtrinsic> = Vec::new();
            assert(none.deep_view() =~= Seq::<UncheckedExtrinsicView>::empty());
            none
        },
    };
    Block::new(header.clone(), extrinsics).encode()
}

/// Writes the genesis block to a backend: opens an operation on the hash of
/// zeros, sets the state to what the pairs describe and the block to the
/// header with an empty body, no justification and the mark of best block,
/// and commits.
pub fn write_genesis<B: Backend>(
    backend: &mut B,
    genesis_header: Header,
    genesis_store: &Vec<(Vec<u8>, Vec<u8>)>,
) -> (r: Result<(), Error>)
    ensures
        final(backend).infallible() == old(backend).infallible(),
        match r {
            Ok(()) => final(backend)@ == old(backend)@.with_genesis(
                genesis_header@,
                pairs_view(genesis_store@),
            ),
            Err(e) => e is Backend && !old(backend).infallible() && final(backend)@ == old(backend)@,
        },
{
    let mut op = match backend.begin_operation(BlockId::Hash(H256::zero())) {
        Ok(op) => op,
        Err(e) => { return Err(e); },
    };
    match op.reset_storage(genesis_store) {
        Ok(()) => {},
        Err(_) => vstd::pervasive::unreached(),
    }
    let body: Vec<UncheckedExtrinsic> = Vec::new();
    assert(body.deep_view() =~= Seq::<UncheckedExtrinsicView>::empty());
    match op.set_block_data(genesis_header, Some(body), None, true) {
        Ok(()) => {},
        Err(_) => vstd::pervasive::unreached(),
    }
    backend.commit_operation(op)
}

/// Create an instance of in-memory client.
pub fn new_in_mem<E: CodeExecutor, F: FnOnce() -> (Header, Vec<(Vec<u8>, Vec<u8>)>)>(
    executor: E,
    build_genesis: F,
) -> (r: Result<Client<crate::in_mem::Backend, E>, Error>)
    requires
        build_genesis.requires(()),
    ensures
        r matches Ok(client) && client.sinks().len() == 0 && client.infallible()
            && client@.head_known() && exists|genesis: (Header, Vec<(Vec<u8>, Vec<u8>)>)|
            #[trigger] build_genesis.ensures((), genesis) && client@
                == BackendView::empty().with_genesis(genesis.0@, pairs_view(genesis.1@)),
{
    Client::new(crate::in_mem::Backend::new(), executor, build_genesis)
}

impl<B: Backend, E: CodeExecutor> Client<B, E> {
    /// The channels of the subscribers.
    pub closed spec fn sinks(&self) -> Seq<UnboundedSender<BlockImportNotification>> {
        self.import_notification_sinks@
    }

    /// Whether no request to the backend fails but for want of a block.
    pub closed spec fn infallible(&self) -> bool {
        self.backend.infallible()
    }

    /// Creates a new client with given blockchain and code executor. Where
    /// the backend has no block under the number 0, the genesis block that
    /// `build_genesis` makes is written to it; otherwise `build_genesis` is
    /// not called.
    pub fn new<F: FnOnce() -> (Header, Vec<(Vec<u8>, Vec<u8>)>)>(
        backend: B,
        executor: E,
        build_genesis: F,
    ) -> (r: Result<Self, Error>)
        requires
            backend@.chain.header(BlockId::Number(0)).is_none() ==> build_genesis.requires(()),
        ensures
            match r {
                Ok(client) => client.sinks().len() == 0 && client.infallible()
                    == backend.infallible() && match backend@.chain.header(BlockId::Number(0)) {
                    Some(_) => client@ == backend@,
                    None => client@.head_known() && exists|
                        genesis: (Header, Vec<(Vec<u8>, Vec<u8>)>),
                    |
                        #[trigger] build_genesis.ensures((), genesis) && client@
                            == backend@.with_genesis(genesis.0@, pairs_view(genesis.1@)),
                },
                Err(e) => e is Backend && !backend.infallible(),
            },
    {
        let mut backend = backend;
        let has_genesis = match crate::blockchain::Backend::header(
            backend.blockchain(),
            BlockId::Number(0),
        ) {
            Ok(h) => h.is_some(),
            Err(e) => { return Err(e); },
        };
        if !has_genesis {
            let genesis = build_genesis();
            let ghost before = backend@;
            let ghost made = genesis;
            let (genesis_header, genesis_store) = genesis;
            match write_genesis(&mut backend, genesis_header, &genesis_store) {
                Ok(()) => {},
                Err(e) => { return Err(e); },
            }
            proof {
                lemma_genesis_is_head(before, made.0@, pairs_view(made.1@));
                assert(backend@ == before.with_genesis(made.0@, pairs_view(made.1@)));
            }
        }
        Ok(Client { backend, executor, import_notification_sinks: Vec::new() })
    }

    /// Get a copy of the state at a given block.
    pub fn state_at(&self, block: &BlockId) -> (r: Result<InMemory, Error>)
        ensures
            match r {
                Ok(state) => self@.state(*block) == Some(state@),
                Err(e) => e is Backend && (self.infallible() ==> self@.state(*block).is_none()),
            },
    {
        self.backend.state_at(*block)
    }

    /// Expose backend reference. To be used in tests only
    pub fn backend(&self) -> (r: &B)
        ensures
            r@ == self@,
            r.infallible() == self.infallible(),
    {
        &self.backend
    }

    /// Return single storage entry under given key in state in a block of
    /// given hash.
    pub fn storage(&self, id: &BlockId, key: &StorageKey) -> (r: Result<StorageData, Error>)
        ensures
            match r {
                Ok(data) => self@.storage(*id, key.0@) == Some(Some(data.0@)),
                Err(Error::NoValueForKey(k)) => k@ == key.0@ && self@.storage(*id, key.0@) == Some(
                    None::<Seq<u8>>,
                ),
                Err(e) => e is Backend && (self.infallible() ==> self@.state(*id).is_none()),
            },
    {
        let state = match self.state_at(id) {
            Ok(s) => s,
            Err(e) => { return Err(e); },
        };
        match state.storage(key.0.as_slice()) {
            Some(value) => Ok(StorageData(crate::codec::to_vec(value.as_slice()))),
            None => Err(Error::NoValueForKey(crate::codec::to_vec(key.0.as_slice()))),
        }
    }

    /// Get the code at a given block.
    pub fn code_at(&self, id: &BlockId) -> (r: Result<Vec<u8>, Error>)
        ensures
            match r {
                Ok(code) => self@.storage(*id, code_key()) == Some(Some(code@)),
                Err(Error::NoValueForKey(k)) => k@ == code_key() && self@.storage(*id, code_key())
                    == Some(None::<Seq<u8>>),
                Err(e) => e is Backend && (self.infallible() ==> self@.state(*id).is_none()),
            },
    {
        let key = code_key_bytes();
        match self.storage(id, &StorageKey(crate::codec::to_vec(key.as_slice()))) {
            Ok(data) => Ok(data.0),
            Err(e) => Err(e),
        }
    }

    /// The executor.
    pub closed spec fn executor(&self) -> E {
        self.executor
    }

    /// Clone a new instance of Executor.
    pub fn clone_executor(&self) -> (r: E) where E: Clone
        ensures
            cloned::<E>(self.executor(), r),
    {
        self.executor.clone()
    }

    /// Get the set of authorities from the state at a given block.
    pub fn authorities_at(&self, id: &BlockId) -> (r: Result<Vec<AuthorityId>, Error>)
        ensures
            match r {
                Ok(v) => self@.authorities(*id) == Some(Ok::<Seq<AuthorityId>, Error>(v@)),
                Err(Error::Backend(_)) => self.infallible() ==> self@.state(*id).is_none(),
                Err(e) => self@.authorities(*id) == Some(Err::<Seq<AuthorityId>, Error>(e)),
            },
    {
        let state = match self.state_at(id) {
            Ok(s) => s,
            Err(e) => { return Err(e); },
        };
        proof {
            lemma_fault_kind(state@);
        }
        read_authorities(&state)
    }

    /// Execute a call to the on-chain code on top of the state at a given
    /// block. No changes are made: what the call wrote comes back with its
    /// result.
    ///
    /// The executor is handed the code of that state, `method`, `call_data`
    /// and a view of the state without pending writes. What comes back is
    /// what it answered and the writes that it left.
    pub fn call(&self, id: &BlockId, method: &str, call_data: &[u8]) -> (r: Result<
        CallResult,
        Error,
    >)
        ensures
            match r {
                Ok(result) => self@.state(*id).is_some() && exists|
                    ext: &mut Ext,
                    handed: &[u8],
                    outcome: Result<Vec<u8>, String>,
                |
                    #[trigger] call_ensures(
                        E::call,
                        (&self.executor(), ext, handed, method, call_data),
                        outcome,
                    ) && set_up(ext, handed, call_data, self@.state(*id).unwrap(), call_data@)
                        && outcome == Ok::<Vec<u8>, String>(result.return_data) && result.changes
                        == *final(ext.overlay),
                Err(Error::Execution(message)) => self@.state(*id).is_some() && (self@.storage(
                    *id,
                    code_key(),
                ) matches Some(Some(_)) ==> exists|
                    ext: &mut Ext,
                    handed: &[u8],
                    outcome: Result<Vec<u8>, String>,
                |
                    #[trigger] call_ensures(
                        E::call,
                        (&self.executor(), ext, handed, method, call_data),
                        outcome,
                    ) && set_up(ext, handed, call_data, self@.state(*id).unwrap(), call_data@)
                        && outcome == Err::<Vec<u8>, String>(message)),
                Err(e) => e is Backend && (self.infallible() ==> self@.state(*id).is_none()),
            },
    {
        let state = match self.state_at(id) {
            Ok(s) => s,
            Err(e) => { return Err(e); },
        };
        let mut changes = OverlayedChanges::new();
        proof {
            crate::state_machine::lemma_read_through(state@, changes.writes(), code_key());
            crate::state_machine::lemma_overlaid_nothing(state@);
        }
        let executed = execute(&state, &mut changes, &self.executor, method, call_data);
        assert(self.executor() == self.executor);
        match executed {
            Ok((return_data, _)) => Ok(CallResult { return_data, changes }),
            Err(e) => Err(e),
        }
    }

    /// Get blockchain info.
    pub fn info(&self) -> (r: Result<ClientInfo, Error>)
        ensures
            match r {
                Ok(info) => info.chain.best_hash == self@.chain.best_hash && info.chain.best_number
                    == self@.chain.best_number && info.chain.genesis_hash
                    == self@.chain.genesis_hash && info.best_queued_number.is_none()
                    && info.best_queued_hash.is_none(),
                Err(e) => e is Backend && !self.infallible(),
            },
    {
        match crate::blockchain::Backend::info(self.backend.blockchain()) {
            Ok(info) => Ok(
                ClientInfo { chain: info, best_queued_hash: None, best_queued_number: None },
            ),
            Err(e) => Err(e),
        }
    }

    /// Get block status.
    pub fn block_status(&self, id: &BlockId) -> (r: Result<BlockStatus, Error>)
        ensures
            match r {
                Ok(status) => status == if self@.chain.header(*id).is_some() {
                    BlockStatus::InChain
                } else {
                    BlockStatus::Unknown
                },
                Err(e) => e is Backend && !self.infallible(),
            },
    {
        match crate::blockchain::Backend::header(self.backend.blockchain(), *id) {
            Ok(Some(_)) => Ok(BlockStatus::InChain),
            Ok(None) => Ok(BlockStatus::Unknown),
            Err(e) => Err(e),
        }
    }

    /// Get block hash by number.
    pub fn block_hash(&self, block_number: BlockNumber) -> (r: Result<Option<H256>, Error>)
        ensures
            match r {
                Ok(hash) => hash == self@.chain.resolve(BlockId::Number(block_number)),
                Err(e) => e is Backend && !self.infallible(),
            },
    {
        crate::blockchain::Backend::hash(self.backend.blockchain(), block_number)
    }

    /// Convert an arbitrary block ID into a block hash.
    pub fn block_hash_from_id(&self, id: &BlockId) -> (r: Result<Option<H256>, Error>)
        ensures
            match r {
                Ok(hash) => hash == self@.chain.resolve(*id),
                Err(e) => e is Backend && !self.infallible() && *id is Number,
            },
    {
        match *id {
            BlockId::Hash(h) => Ok(Some(h)),
            BlockId::Number(n) => self.block_hash(n),
        }
    }

    /// Convert an arbitrary block ID into a block number.
    pub fn block_number_from_id(&self, id: &BlockId) -> (r: Result<Option<BlockNumber>, Error>)
        ensures
            match r {
                Ok(number) => number == match *id {
                    BlockId::Hash(_) => match self@.chain.header(*id) {
                        Some(h) => Some(h.number),
                        None => None,
                    },
                    BlockId::Number(n) => Some(n),
                },
                Err(e) => e is Backend && !self.infallible() && *id is Hash,
            },
    {
        match *id {
            BlockId::Hash(_) => match self.header(id) {
                Ok(Some(h)) => Ok(Some(h.number)),
                Ok(None) => Ok(None),
                Err(e) => Err(e),
            },
            BlockId::Number(n) => Ok(Some(n)),
        }
    }

    /// Get block header by id. A header that was asked for by its hash has
    /// that hash.
    pub fn header(&self, id: &BlockId) -> (r: Result<Option<Header>, Error>)
        ensures
            match r {
                Ok(Some(h)) => self@.chain.header(*id) == Some(h@) && (*id matches BlockId::Hash(
                    hash,
                ) ==> h@.hash() == hash),
                Ok(None) => self@.chain.header(*id).is_none(),
                Err(e) => e is Backend && !self.infallible(),
            },
    {
        crate::blockchain::Backend::header(self.backend.blockchain(), *id)
    }

    /// Get block body by id.
    pub fn body(&self, id: &BlockId) -> (r: Result<Option<Vec<UncheckedExtrinsic>>, Error>)
        ensures
            match r {
                Ok(body) => body_view(body) == self@.chain.body(*id),
                Err(e) => e is Backend && !self.infallible(),
            },
    {
        crate::blockchain::Backend::body(self.backend.blockchain(), *id)
    }

    /// Get block justification set by id.
    pub fn justification(&self, id: &BlockId) -> (r: Result<Option<UncheckedJustification>, Error>)
        ensures
            match r {
                Ok(j) => justification_view(j) == self@.chain.justification(*id),
                Err(e) => e is Backend && !self.infallible(),
            },
    {
        crate::blockchain::Backend::justification(self.backend.blockchain(), *id)
    }

    /// Get best block header.
    pub fn best_block_header(&self) -> (r: Result<Header, Error>)
        requires
            self@.head_known(),
        ensures
            match r {
                Ok(h) => self@.chain.header(BlockId::Hash(self@.chain.best_hash)) == Some(h@)
                    && h@.hash() == self@.chain.best_hash,
                Err(e) => e is Backend && !self.infallible(),
            },
    {
        let info = match crate::blockchain::Backend::info(self.backend.blockchain()) {
            Ok(info) => info,
            Err(e) => { return Err(e); },
        };
        match self.header(&BlockId::Hash(info.best_hash)) {
            Ok(Some(h)) => Ok(h),
            Ok(None) => vstd::pervasive::unreached(),
            Err(e) => Err(e),
        }
    }

    /// Check a header's justification: against the authority set in the
    /// state of the parent of the header.
    pub fn check_justification(&self, header: Header, justification: UncheckedJustification) -> (r:
        Result<JustifiedHeader, Error>)
        ensures
            match r {
                Ok(justified) => justified.header() == header@ && justified.justification()
                    == justification@ && self@.justified(header.parent_hash, justification@)
                    == Some(Ok::<bool, Error>(true)),
                Err(Error::BadJustification(text)) => text@ == hex_string(header@.hash()@)
                    && self@.justified(header.parent_hash, justification@) == Some(
                    Ok::<bool, Error>(false),
                ),
                Err(Error::Backend(_)) => self.infallible() ==> self@.state(
                    BlockId::Hash(header.parent_hash),
                ).is_none(),
                Err(e) => self@.justified(header.parent_hash, justification@) == Some(
                    Err::<bool, Error>(e),
                ),
            },
    {
        let parent_hash = header.parent_hash;
        let authorities = match self.authorities_at(&BlockId::Hash(parent_hash)) {
            Ok(a) => a,
            Err(e) => {
                proof {
                    if self@.state(BlockId::Hash(parent_hash)).is_some() {
                        lemma_fault_kind(self@.state(BlockId::Hash(parent_hash)).unwrap());
                    }
                }
                return Err(e);
            },
        };
        match check_justification(authorities.as_slice(), parent_hash, justification) {
            Ok(checked) => match JustifiedHeader::new(header, checked) {
                Some(justified) => Ok(justified),
                None => vstd::pervasive::unreached(),
            },
            Err(_) => Err(Error::BadJustification(header.hash().to_hex())),
        }
    }

    /// Executes a block on the state that `transaction` was opened on, and
    /// returns the changes that the execution made.
    ///
    /// The executor is handed the code of that state, the entry point
    /// `execute_block`, the bytes that `block_to_execute` makes of the block,
    /// and a view of the state without pending writes. What it returns is
    /// passed over; the writes that it left are the changes.
    pub fn run_block(
        &self,
        transaction: &BlockImportOperation,
        header: &Header,
        body: &Option<Vec<UncheckedExtrinsic>>,
    ) -> (r: Result<StorageUpdate, Error>)
        ensures
            match r {
                Ok(update) => exists|
                    ext: &mut Ext,
                    handed: &[u8],
                    input: &[u8],
                    outcome: Result<Vec<u8>, String>,
                |
                    #[trigger] call_ensures(
                        E::call,
                        (&self.executor(), ext, handed, "execute_block", input),
                        outcome,
                    ) && set_up(
                        ext,
                        handed,
                        input,
                        transaction@.old_state,
                        execution_input(header@, body_view(*body)),
                    ) && outcome is Ok && writes_view(update@) == final(ext.overlay).writes(),
                Err(Error::Execution(message)) => transaction@.old_state.contains_key(code_key())
                    ==> exists|
                    ext: &mut Ext,
                    handed: &[u8],
                    input: &[u8],
                    outcome: Result<Vec<u8>, String>,
                |
                    #[trigger] call_ensures(
                        E::call,
                        (&self.executor(), ext, handed, "execute_block", input),
                        outcome,
                    ) && set_up(
                        ext,
                        handed,
                        input,
                        transaction@.old_state,
                        execution_input(header@, body_view(*body)),
                    ) && outcome == Err::<Vec<u8>, String>(message),
                Err(_) => false,
            },
    {
        let mut overlay = OverlayedChanges::new();
        let block_bytes = block_to_execute(header, body);
        match transaction.state() {
            Ok(state) => {
                proof {
                    crate::state_machine::lemma_read_through(
                        state@,
                        overlay.writes(),
                        code_key(),
                    );
                    crate::state_machine::lemma_overlaid_nothing(state@);
                }
                let executed = execute(
                    state,
                    &mut overlay,
                    &self.executor,
                    "execute_block",
                    block_bytes.as_slice(),
                );
                assert(self.executor() == self.executor);
                match executed {
                    Ok((_out, storage_update)) => Ok(storage_update),
                    Err(e) => Err(e),
                }
            },
            Err(_) => vstd::pervasive::unreached(),
        }
    }

    /// Writes an executed block to the backend and tells the subscribers.
    ///
    /// The block is the best block where its number is one more than that of
    /// the best block so far. Its state is the one that `transaction` was
    /// opened on with `storage_update` applied. Subscribers are told where
    /// `origin` is announced; the channels that do not take the notification
    /// are dropped. Where the backend fails, nothing has changed.
    pub fn commit_import(
        &mut self,
        origin: BlockOrigin,
        header: Header,
        justification: Justification,
        body: Option<Vec<UncheckedExtrinsic>>,
        transaction: BlockImportOperation,
        storage_update: &StorageUpdate,
    ) -> (r: Result<ImportResult, Error>)
        ensures
            final(self).infallible() == old(self).infallible(),
            final(self).executor() == old(self).executor(),
            match r {
                Ok(result) => result == ImportResult::Queued && final(self)@ == old(self)@.import(
                    header@,
                    body_view(body),
                    justification@,
                    transaction@.old_state,
                    writes_view(storage_update@),
                ) && fanned_out(
                    origin,
                    old(self)@.announcement(origin, header@),
                    old(self).sinks(),
                    final(self).sinks(),
                ),
                Err(e) => e is Backend && !old(self).infallible() && final(self)@ == old(self)@
                    && final(self).sinks() == old(self).sinks(),
            },
    {
        let mut transaction = transaction;
        let best_number = match crate::blockchain::Backend::info(self.backend.blockchain()) {
            Ok(info) => info.best_number,
            Err(e) => { return Err(e); },
        };
        let is_new_best = is_next(header.number, best_number);
        let hash = header.hash();
        let announced = header.clone();
        match transaction.set_block_data(header, body, Some(justification.uncheck()), is_new_best) {
            Ok(()) => {},
            Err(_) => vstd::pervasive::unreached(),
        }
        match transaction.update_storage(storage_update) {
            Ok(()) => {},
            Err(_) => vstd::pervasive::unreached(),
        }
        match self.backend.commit_operation(transaction) {
            Ok(()) => {},
            Err(e) => { return Err(e); },
        }
        match notification_for(origin, hash, &announced, is_new_best) {
            Some(notification) => {
                let _delivered = fan_out(&mut self.import_notification_sinks, &notification);
            },
            None => {},
        }
        Ok(ImportResult::Queued)
    }

    /// Queue a block for import.
    ///
    /// A block whose parent the chain does not have is not imported. A block
    /// whose parent it has is executed on the state of the parent, as
    /// `run_block` says. Where the executor returns, the block is written with
    /// the state that the writes of the execution make of the state of the
    /// parent, it is the best block where its number is one more than that of
    /// the best block so far, and the subscribers are told where the origin
    /// is announced. Where the executor fails, or the state of the parent
    /// holds no code, nothing changes.
    pub fn import_block(
        &mut self,
        origin: BlockOrigin,
        header: JustifiedHeader,
        body: Option<Vec<UncheckedExtrinsic>>,
    ) -> (r: Result<ImportResult, Error>)
        ensures
            final(self).infallible() == old(self).infallible(),
            final(self).executor() == old(self).executor(),
            match r {
                Ok(ImportResult::UnknownParent) => !old(self)@.parent_known(header.header())
                    && final(self)@ == old(self)@ && final(self).sinks() == old(self).sinks(),
                Ok(result) => result == ImportResult::Queued && old(self)@.parent_known(
                    header.header(),
                ) && fanned_out(
                    origin,
                    old(self)@.announcement(origin, header.header()),
                    old(self).sinks(),
                    final(self).sinks(),
                ) && exists|
                    ext: &mut Ext,
                    handed: &[u8],
                    input: &[u8],
                    outcome: Result<Vec<u8>, String>,
                |
                    #[trigger] call_ensures(
                        E::call,
                        (&old(self).executor(), ext, handed, "execute_block", input),
                        outcome,
                    ) && old(self)@.block_set_up(
                        header.header(),
                        body_view(body),
                        ext,
                        handed,
                        input,
                    ) && outcome is Ok && final(self)@ == old(self)@.import_on_parent(
                        header.header(),
                        body_view(body),
                        header.justification(),
                        final(ext.overlay).writes(),
                    ),
                Err(Error::Execution(message)) => old(self)@.parent_known(header.header())
                    && final(self)@ == old(self)@ && final(self).sinks() == old(self).sinks() && (
                old(self)@.parent_state(header.header().parent_hash).contains_key(code_key())
                    ==> exists|
                    ext: &mut Ext,
                    handed: &[u8],
                    input: &[u8],
                    outcome: Result<Vec<u8>, String>,
                |
                    #[trigger] call_ensures(
                        E::call,
                        (&old(self).executor(), ext, handed, "execute_block", input),
                        outcome,
                    ) && old(self)@.block_set_up(
                        header.header(),
                        body_view(body),
                        ext,
                        handed,
                        input,
                    ) && outcome == Err::<Vec<u8>, String>(message)),
                Err(e) => e is Backend && !old(self).infallible() && final(self)@ == old(self)@
                    && final(self).sinks() == old(self).sinks(),
            },
            final(self)@.chain.best_number >= old(self)@.chain.best_number,
            final(self)@.chain.best_number == old(self)@.chain.best_number
                || final(self)@.chain.best_number == header.header().number,
            old(self)@.head_known() ==> final(self)@.head_known(),
    {
        let ghost before = self@;
        let (header, justification) = header.into_inner();
        let parent_hash = header.parent_hash;
        match crate::blockchain::Backend::status(
            self.backend.blockchain(),
            BlockId::Hash(parent_hash),
        ) {
            Ok(crate::blockchain::BlockStatus::InChain) => {},
            Ok(crate::blockchain::BlockStatus::Unknown) => {
                return Ok(ImportResult::UnknownParent);
            },
            Err(e) => { return Err(e); },
        }
        let transaction = match self.backend.begin_operation(BlockId::Hash(parent_hash)) {
            Ok(t) => t,
            Err(e) => { return Err(e); },
        };
        assert(transaction@.old_state == before.parent_state(parent_hash));
        match self.run_block(&transaction, &header, &body) {
            Ok(storage_update) => {
                let ghost update = writes_view(storage_update@);
                let ghost after = before.import(
                    header@,
                    body_view(body),
                    justification@,
                    before.parent_state(parent_hash),
                    update,
                );
                proof {
                    lemma_import_best_number(
                        before,
                        header@,
                        body_view(body),
                        justification@,
                        before.parent_state(parent_hash),
                        update,
                    );
                    if before.head_known() {
                        lemma_import_keeps_head(
                            before,
                            header@,
                            body_view(body),
                            justification@,
                            before.parent_state(parent_hash),
                            update,
                        );
                    }
                }
                let r = self.commit_import(
                    origin,
                    header,
                    justification,
                    body,
                    transaction,
                    &storage_update,
                );
                assert(r is Ok ==> self@ == after);
                r
            },
            Err(e) => Err(e),
        }
    }

    /// Set up the execution environment over the state at a given block and
    /// the given pending writes, and run `f` in it. What comes back is what
    /// `f` returned; what `f` wrote is in the pending writes.
    pub fn using_environment_at<F: FnOnce(&mut Ext) -> T, T>(
        &self,
        id: &BlockId,
        overlay: &mut OverlayedChanges,
        f: F,
    ) -> (r: Result<T, Error>)
        requires
            forall|ext: &mut Ext| #[trigger] f.requires((ext,)),
        ensures
            match r {
                Ok(returned) => exists|ext: &mut Ext, value: T|
                    #[trigger] f.ensures((ext,), value) && value == returned && self@.state(*id)
                        == Some(ext.backend@) && *ext.overlay == *old(overlay)
                        && *final(ext.overlay) == *final(overlay),
                Err(e) => e is Backend && (self.infallible() ==> self@.state(*id).is_none())
                    && *final(overlay) == *old(overlay),
            },
    {
        let state = match self.state_at(id) {
            Ok(s) => s,
            Err(e) => { return Err(e); },
        };
        let returned = with_externalities(&state, overlay, f);
        Ok(returned)
    }

    /// Set up the execution environment over the state at the best block,
    /// without pending writes, and run `f` in it. What comes back is what `f`
    /// returned; what `f` wrote is dropped.
    pub fn using_environment<F: FnOnce(&mut Ext) -> T, T>(&self, f: F) -> (r: Result<T, Error>)
        requires
            forall|ext: &mut Ext| #[trigger] f.requires((ext,)),
        ensures
            match r {
                Ok(returned) => exists|ext: &mut Ext, value: T|
                    #[trigger] f.ensures((ext,), value) && value == returned && self@.state(
                        BlockId::Number(self@.chain.best_number),
                    ) == Some(ext.backend@) && ext.overlay.fresh(),
                Err(e) => e is Backend && (self.infallible() ==> self@.state(
                    BlockId::Number(self@.chain.best_number),
                ).is_none()),
            },
    {
        let best_number = match self.info() {
            Ok(info) => info.chain.best_number,
            Err(e) => { return Err(e); },
        };
        let mut overlay = OverlayedChanges::new();
        self.using_environment_at(&BlockId::Number(best_number), &mut overlay, f)
    }
}

impl<B: Backend, E: CodeExecutor> BlockImport for Client<B, E> {
    /// Imports a block that the authorities have agreed on, as one that was
    /// broadcast after consensus, with its extrinsics as its body.
    ///
    /// A justification for another parent than that of the block is passed
    /// over, and so is a block whose parent the chain does not have: nothing
    /// changes. Otherwise the block is executed on the state of its parent as
    /// `Client::run_block` says. Where the executor returns, the block is
    /// written and the subscribers are told, as `Client::import_block` says;
    /// where it fails, or the state of the parent holds no code, nothing
    /// changes. A failure of the import is not reported. A backend that may
    /// fail may leave things as they were at any point.
    fn import_block(&mut self, block: Block, justification: Justification)
        ensures
            final(self).infallible() == old(self).infallible(),
            final(self).executor() == old(self).executor(),
            final(self)@.chain.best_number >= old(self)@.chain.best_number,
            final(self)@.chain.best_number == old(self)@.chain.best_number
                || final(self)@.chain.best_number == block.header.number,
            old(self)@.head_known() ==> final(self)@.head_known(),
            justification@.parent_hash != block.header.parent_hash || !old(self)@.parent_known(
                block.header@,
            ) || (old(self).infallible() && !old(self)@.parent_state(
                block.header.parent_hash,
            ).contains_key(code_key())) ==> final(self)@ == old(self)@ && final(self).sinks()
                == old(self).sinks(),
            justification@.parent_hash == block.header.parent_hash && old(self)@.parent_known(
                block.header@,
            ) && old(self).infallible() && old(self)@.parent_state(
                block.header.parent_hash,
            ).contains_key(code_key()) ==> exists|
                ext: &mut Ext,
                handed: &[u8],
                input: &[u8],
                outcome: Result<Vec<u8>, String>,
            |
                #[trigger] call_ensures(
                    E::call,
                    (&old(self).executor(), ext, handed, "execute_block", input),
                    outcome,
                ) && old(self)@.block_set_up(
                    block.header@,
                    Some(block.extrinsics.deep_view()),
                    ext,
                    handed,
                    input,
                ) && match outcome {
                    Ok(_) => final(self)@ == old(self)@.import_on_parent(
                        block.header@,
                        Some(block.extrinsics.deep_view()),
                        justification@,
                        final(ext.overlay).writes(),
                    ) && fanned_out(
                        BlockOrigin::ConsensusBroadcast,
                        old(self)@.announcement(BlockOrigin::ConsensusBroadcast, block.header@),
                        old(self).sinks(),
                        final(self).sinks(),
                    ),
                    Err(_) => final(self)@ == old(self)@
                        && final(self).sinks() == old(self).sinks(),
                },
            (final(self)@ == old(self)@ && final(self).sinks() == old(self).sinks()) || (
            justification@.parent_hash == block.header.parent_hash && old(self)@.parent_known(
                block.header@,
            ) && fanned_out(
                BlockOrigin::ConsensusBroadcast,
                old(self)@.announcement(BlockOrigin::ConsensusBroadcast, block.header@),
                old(self).sinks(),
                final(self).sinks(),
            ) && exists|
                ext: &mut Ext,
                handed: &[u8],
                input: &[u8],
                outcome: Result<Vec<u8>, String>,
            |
                #[trigger] call_ensures(
                    E::call,
                    (&old(self).executor(), ext, handed, "execute_block", input),
                    outcome,
                ) && old(self)@.block_set_up(
                    block.header@,
                    Some(block.extrinsics.deep_view()),
                    ext,
                    handed,
                    input,
                ) && outcome is Ok && final(self)@ == old(self)@.import_on_parent(
                    block.header@,
                    Some(block.extrinsics.deep_view()),
                    justification@,
                    final(ext.overlay).writes(),
                )),
    {
        let (header, extrinsics) = block.deconstruct();
        match JustifiedHeader::new(header, justification) {
            Some(justified_header) => {
                let _ = Client::import_block(
                    self,
                    BlockOrigin::ConsensusBroadcast,
                    justified_header,
                    Some(extrinsics),
                );
            },
            None => {},
        }
    }
}

impl<B: Backend, E: CodeExecutor> Authorities for Client<B, E> {
    /// The authorities in the state at a block, or the word that the state
    /// does not give them.
    fn authorities(&self, at: &BlockId) -> (r: Result<Vec<AuthorityId>, crate::bft::Error>)
        ensures
            match r {
                Ok(v) => self@.authorities(*at) == Some(Ok::<Seq<AuthorityId>, Error>(v@)),
                Err(crate::bft::Error::StateUnavailable(id)) => id == *at && (self.infallible()
                    ==> !(self@.authorities(*at) matches Some(Ok(_)))),
            },
    {
        match self.authorities_at(at) {
            Ok(authorities) => Ok(authorities),
            Err(_) => Err(crate::bft::Error::StateUnavailable(*at)),
        }
    }
}

impl<B: Backend, E: CodeExecutor> BlockchainEvents for Client<B, E> {
    /// Get block import event stream: the receiving end of a new channel
    /// whose sending end the client keeps, after those it has.
    fn import_notification_stream(&mut self) -> (r: UnboundedReceiver<BlockImportNotification>)
        ensures
            final(self)@ == old(self)@,
            final(self).infallible() == old(self).infallible(),
            final(self).executor() == old(self).executor(),
            final(self).sinks().len() == old(self).sinks().len() + 1,
            final(self).sinks().drop_last() == old(self).sinks(),
            opened(final(self).sinks().last(), r),
    {
        let (sink, stream) = channel();
        self.import_notification_sinks.push(sink);
        assert(self.sinks().drop_last() =~= old(self).sinks());
        stream
    }
}

impl<B: Backend, E: CodeExecutor> ChainHead for Client<B, E> {
    open spec fn head_known(&self) -> bool {
        self@.head_known()
    }

    fn best_block_header(&self) -> (r: Result<Header, Error>)
        ensures
            match r {
                Ok(h) => self@.chain.header(BlockId::Hash(self@.chain.best_hash)) == Some(h@),
                Err(e) => e is Backend && !self.infallible(),
            },
    {
        Client::best_block_header(self)
    }
}

} // verus!
