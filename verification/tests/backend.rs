use substrate_client::backend::{Backend as BackendApi, BlockImportOperation};
use substrate_client::bft::UncheckedJustification;
use substrate_client::blockchain::{Backend as ChainApi, BlockStatus, Info};
use substrate_client::error::Error;
use substrate_client::generic::{BlockId, Digest, Extrinsic, Header, UncheckedExtrinsic};
use substrate_client::hash::{H256, H512};
use substrate_client::in_mem::{Backend, Blockchain};
use substrate_client::state_machine::InMemory;

fn header(number: u64, parent: H256, mark: u8) -> Header {
    let mut digest = Digest::new();
    digest.push(vec![mark]);
    Header::new(number, H256::zero(), H256::zero(), parent, digest)
}

fn extrinsic(index: u64) -> UncheckedExtrinsic {
    UncheckedExtrinsic {
        extrinsic: Extrinsic { signed: H256([1u8; 32]), index, function: vec![1, 2] },
        signature: H512([2u8; 64]),
    }
}

fn unchecked(parent: H256) -> UncheckedJustification {
    UncheckedJustification { round_number: 3, parent_hash: parent, signatures: vec![] }
}

#[test]
fn empty_chain_knows_nothing() {
    let chain = Blockchain::new();
    assert_eq!(
        chain.info().unwrap(),
        Info { best_hash: H256::zero(), best_number: 0, genesis_hash: H256::zero() }
    );
    assert_eq!(chain.header(BlockId::Number(0)).unwrap(), None);
    assert_eq!(chain.header(BlockId::Hash(H256::zero())).unwrap(), None);
    assert_eq!(chain.body(BlockId::Number(0)).unwrap(), None);
    assert_eq!(chain.justification(BlockId::Number(0)).unwrap(), None);
    assert_eq!(chain.status(BlockId::Number(0)).unwrap(), BlockStatus::Unknown);
    assert_eq!(chain.hash(0).unwrap(), None);
    assert_eq!(chain.id(BlockId::Number(0)), None);
    assert_eq!(chain.id(BlockId::Hash(H256([3u8; 32]))), Some(H256([3u8; 32])));
}

#[test]
fn chain_files_blocks_by_hash_and_number() {
    let mut chain = Blockchain::new();
    let genesis = header(0, H256::zero(), 0);
    let genesis_hash = chain.insert(genesis.clone(), None, Some(vec![]), true);
    assert_eq!(genesis_hash, genesis.hash());
    let first = header(1, genesis_hash, 1);
    let first_hash = chain.insert(
        first.clone(),
        Some(unchecked(genesis_hash)),
        Some(vec![extrinsic(0), extrinsic(1)]),
        true,
    );
    let sibling = header(1, genesis_hash, 2);
    let sibling_hash = chain.insert(sibling.clone(), None, None, false);

    assert_eq!(
        chain.info().unwrap(),
        Info { best_hash: first_hash, best_number: 1, genesis_hash }
    );
    assert_eq!(chain.header(BlockId::Hash(first_hash)).unwrap(), Some(first.clone()));
    assert_eq!(chain.header(BlockId::Hash(sibling_hash)).unwrap(), Some(sibling.clone()));
    assert_eq!(chain.header(BlockId::Number(0)).unwrap(), Some(genesis));
    // Under a number the block that was written last is filed.
    assert_eq!(chain.hash(1).unwrap(), Some(sibling_hash));
    assert_eq!(chain.header(BlockId::Number(1)).unwrap(), Some(sibling));
    assert_eq!(chain.body(BlockId::Hash(first_hash)).unwrap(), Some(vec![extrinsic(0), extrinsic(1)]));
    assert_eq!(chain.body(BlockId::Hash(sibling_hash)).unwrap(), None);
    assert_eq!(chain.body(BlockId::Number(0)).unwrap(), Some(vec![]));
    assert_eq!(chain.justification(BlockId::Hash(first_hash)).unwrap(), Some(unchecked(genesis_hash)));
    assert_eq!(chain.justification(BlockId::Hash(sibling_hash)).unwrap(), None);
    assert_eq!(chain.status(BlockId::Hash(first_hash)).unwrap(), BlockStatus::InChain);
    assert_eq!(chain.status(BlockId::Number(1)).unwrap(), BlockStatus::InChain);
    assert_eq!(chain.status(BlockId::Number(2)).unwrap(), BlockStatus::Unknown);
    assert_eq!(chain.status(BlockId::Hash(H256([7u8; 32]))).unwrap(), BlockStatus::Unknown);
}

#[test]
fn a_block_with_the_number_zero_is_the_genesis_block() {
    let mut chain = Blockchain::new();
    let first = header(1, H256([1u8; 32]), 0);
    chain.insert(first, None, None, false);
    assert_eq!(chain.info().unwrap().genesis_hash, H256::zero());
    let genesis = header(0, H256::zero(), 0);
    let hash = chain.insert(genesis, None, None, false);
    let info = chain.info().unwrap();
    assert_eq!(info.genesis_hash, hash);
    assert_eq!(info.best_hash, H256::zero());
    assert_eq!(info.best_number, 0);
}

#[test]
fn operation_is_filled_and_taken_apart() {
    let state = InMemory::from_pairs(&vec![(b"a".to_vec(), b"1".to_vec())]);
    let mut op = BlockImportOperation::new(state.clone());
    assert!(*op.state().unwrap() == state);
    let (pending, written) = BlockImportOperation::new(state.clone()).into_parts();
    assert!(pending.is_none());
    assert!(written == state);

    op.set_block_data(header(1, H256::zero(), 0), Some(vec![extrinsic(0)]), None, true).unwrap();
    op.update_storage(&vec![(b"a".to_vec(), None), (b"b".to_vec(), Some(b"2".to_vec()))]).unwrap();
    assert!(*op.state().unwrap() == state);
    let (pending, written) = op.into_parts();
    let (block, is_best) = pending.unwrap();
    assert_eq!(block.header, header(1, H256::zero(), 0));
    assert_eq!(block.body, Some(vec![extrinsic(0)]));
    assert_eq!(block.justification, None);
    assert!(is_best);
    assert!(written == InMemory::from_pairs(&vec![(b"b".to_vec(), b"2".to_vec())]));

    let mut op = BlockImportOperation::new(state);
    op.reset_storage(&vec![(b"c".to_vec(), b"3".to_vec())]).unwrap();
    let (_, written) = op.into_parts();
    assert!(written == InMemory::from_pairs(&vec![(b"c".to_vec(), b"3".to_vec())]));
}

#[test]
fn backend_opens_on_the_empty_state_for_the_hash_of_zeros() {
    let backend = Backend::new();
    let op = backend.begin_operation(BlockId::Hash(H256::zero())).unwrap();
    assert!(*op.state().unwrap() == InMemory::new());
    match backend.begin_operation(BlockId::Hash(H256([1u8; 32]))) {
        Err(Error::Backend(_)) => {}
        other => panic!("unexpected: {:?}", other),
    }
    match backend.begin_operation(BlockId::Number(0)) {
        Err(Error::Backend(_)) => {}
        other => panic!("unexpected: {:?}", other),
    }
    match backend.state_at(BlockId::Hash(H256::zero())) {
        Err(Error::Backend(_)) => {}
        other => panic!("unexpected: {:?}", other),
    }
}

#[test]
fn commit_writes_block_and_state_together() {
    let mut backend = Backend::new();
    let genesis = header(0, H256::zero(), 0);
    let mut op = backend.begin_operation(BlockId::Hash(H256::zero())).unwrap();
    op.reset_storage(&vec![(b"a".to_vec(), b"1".to_vec())]).unwrap();
    op.set_block_data(genesis.clone(), Some(vec![]), None, true).unwrap();
    // Nothing is written before the commit.
    assert_eq!(backend.blockchain().status(BlockId::Number(0)).unwrap(), BlockStatus::Unknown);
    backend.commit_operation(op).unwrap();
    assert_eq!(backend.blockchain().status(BlockId::Number(0)).unwrap(), BlockStatus::InChain);
    assert_eq!(backend.blockchain().info().unwrap().best_hash, genesis.hash());
    let state = backend.state_at(BlockId::Number(0)).unwrap();
    assert_eq!(state.storage(b"a"), Some(&b"1".to_vec()));
    assert!(backend.state_at(BlockId::Hash(genesis.hash())).unwrap() == state);

    // A block without changes to the state has the state it was opened on.
    let first = header(1, genesis.hash(), 0);
    let mut op = backend.begin_operation(BlockId::Hash(genesis.hash())).unwrap();
    op.set_block_data(first.clone(), None, None, false).unwrap();
    backend.commit_operation(op).unwrap();
    assert!(backend.state_at(BlockId::Hash(first.hash())).unwrap() == state);
    assert_eq!(backend.blockchain().info().unwrap().best_hash, genesis.hash());

    // An operation that was dropped has written nothing.
    let second = header(2, first.hash(), 0);
    let mut op = backend.begin_operation(BlockId::Number(1)).unwrap();
    op.set_block_data(second.clone(), None, None, true).unwrap();
    drop(op);
    assert_eq!(backend.blockchain().status(BlockId::Hash(second.hash())).unwrap(), BlockStatus::Unknown);

    // An operation without a block commits to nothing.
    let mut op = backend.begin_operation(BlockId::Number(1)).unwrap();
    op.update_storage(&vec![(b"a".to_vec(), None)]).unwrap();
    backend.commit_operation(op).unwrap();
    assert_eq!(backend.state_at(BlockId::Number(1)).unwrap().storage(b"a"), Some(&b"1".to_vec()));
    assert_eq!(backend.blockchain().hash(2).unwrap(), None);
}
