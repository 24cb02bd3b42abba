use ed25519_dalek::{Signer, SigningKey};
use futures::Stream;
use substrate_client::authorities::authority_pairs;
use substrate_client::backend::Backend as BackendApi;
use substrate_client::blockchain::Backend as ChainApi;
use substrate_client::bft::{
    check_justification, commit_message_bytes, Authorities, BlockImport, UncheckedJustification,
};
use substrate_client::block_builder::{header_from_runtime, BlockBuilder};
use substrate_client::client::{
    block_to_execute, is_next, new_in_mem, write_genesis, BlockStatus, BlockchainEvents,
    ChainHead, Client, ImportResult, JustifiedHeader, StorageKey,
};
use substrate_client::codec::{encode_bytes, Input};
use substrate_client::error::Error;
use substrate_client::events::{
    notification_for, retain_flagged, BlockImportNotification, BlockOrigin,
};
use substrate_client::generic::{
    encode_extrinsics, Block, BlockId, Digest, Extrinsic, Header, UncheckedExtrinsic,
};
use substrate_client::hash::{hash, H256, H512};
use substrate_client::in_mem::Backend;
use substrate_client::state_machine::{CodeExecutor, Ext, OverlayedChanges};

const CODE: &[u8] = b"test-runtime";
const LATEST: &[u8] = b"latest";
const PENDING_HEADER: &[u8] = b":pending:header";
const PENDING_EXTRINSICS: &[u8] = b":pending:extrinsics";

fn key(name: &str) -> SigningKey {
    let mut seed = [b' '; 32];
    seed[..name.len()].copy_from_slice(name.as_bytes());
    SigningKey::from_bytes(&seed)
}

fn public(name: &str) -> H256 {
    H256(key(name).verifying_key().to_bytes())
}

fn sign(name: &str, message: &[u8]) -> H512 {
    H512(key(name).sign(message).to_bytes())
}

fn balance_key(who: &H256) -> Vec<u8> {
    let mut k = b"balance:".to_vec();
    k.extend_from_slice(who.as_bytes());
    k
}

fn nonce_key(who: &H256) -> Vec<u8> {
    let mut k = b"nonce:".to_vec();
    k.extend_from_slice(who.as_bytes());
    k
}

fn read_u64(ext: &Ext, key: &[u8]) -> u64 {
    match ext.storage(key) {
        Some(bytes) => {
            let mut b = [0u8; 8];
            b.copy_from_slice(&bytes[..8]);
            u64::from_le_bytes(b)
        }
        None => 0,
    }
}

fn balance_of(ext: &mut Ext, who: H256) -> u64 {
    read_u64(ext, &balance_key(&who))
}

fn latest_block_hash(ext: &mut Ext) -> H256 {
    H256::from_slice(&ext.storage(LATEST).unwrap()).unwrap()
}

fn apply(ext: &mut Ext, xt: &UncheckedExtrinsic) -> Result<(), String> {
    let checked = xt.clone().check().map_err(|_| "bad signature".to_string())?;
    let from = *checked.sender();
    if *checked.index() != read_u64(ext, &nonce_key(&from)) {
        return Err("bad nonce".to_string());
    }
    let call = &checked.deref().function;
    if call.len() != 40 {
        return Err("bad call".to_string());
    }
    let to = H256::from_slice(&call[..32]).unwrap();
    let amount = read_u64_from(&call[32..]);
    let from_balance = balance_of(ext, from);
    if from_balance < amount {
        return Err("balance too low".to_string());
    }
    ext.set_storage(nonce_key(&from), (*checked.index() + 1).to_le_bytes().to_vec());
    ext.set_storage(balance_key(&from), (from_balance - amount).to_le_bytes().to_vec());
    let to_balance = balance_of(ext, to);
    ext.set_storage(balance_key(&to), (to_balance + amount).to_le_bytes().to_vec());
    Ok(())
}

fn read_u64_from(bytes: &[u8]) -> u64 {
    let mut b = [0u8; 8];
    b.copy_from_slice(&bytes[..8]);
    u64::from_le_bytes(b)
}

fn extrinsics_root(extrinsics: &Vec<UncheckedExtrinsic>) -> H256 {
    hash(&encode_extrinsics(extrinsics))
}

#[derive(Clone)]
struct TestRuntime;

impl CodeExecutor for TestRuntime {
    fn call(&self, ext: &mut Ext, code: &[u8], method: &str, data: &[u8]) -> Result<Vec<u8>, String> {
        if code != CODE {
            return Err("unknown code".to_string());
        }
        match method {
            "execute_block" => {
                let block = Block::decode(&mut Input::new(data)).ok_or("bad block".to_string())?;
                if latest_block_hash(ext) != block.header.parent_hash {
                    return Err("parent is not the latest block".to_string());
                }
                if block.header.extrinsics_root != extrinsics_root(&block.extrinsics) {
                    return Err("extrinsics root must be valid".to_string());
                }
                for xt in block.extrinsics.iter() {
                    apply(ext, xt)?;
                }
                ext.set_storage(LATEST.to_vec(), block.header.hash().as_bytes().to_vec());
                Ok(vec![])
            }
            "initialise_block" => {
                Header::decode(&mut Input::new(data)).ok_or("bad header".to_string())?;
                ext.set_storage(PENDING_HEADER.to_vec(), data.to_vec());
                ext.set_storage(PENDING_EXTRINSICS.to_vec(), vec![]);
                Ok(vec![])
            }
            "apply_extrinsic" => {
                let xt = UncheckedExtrinsic::decode(&mut Input::new(data))
                    .ok_or("bad extrinsic".to_string())?;
                apply(ext, &xt)?;
                let mut applied = ext.storage(PENDING_EXTRINSICS).unwrap();
                applied.extend_from_slice(data);
                ext.set_storage(PENDING_EXTRINSICS.to_vec(), applied);
                Ok(vec![])
            }
            "finalise_block" => {
                let pending = ext.storage(PENDING_HEADER).ok_or("no block is open".to_string())?;
                let mut header = Header::decode(&mut Input::new(&pending)).unwrap();
                let applied = ext.storage(PENDING_EXTRINSICS).unwrap();
                header.set_extrinsics_root(hash(&encode_bytes(&applied)));
                Ok(header.encode())
            }
            "balance_of" => {
                let who = H256::from_slice(data).ok_or("bad account".to_string())?;
                Ok(balance_of(ext, who).to_le_bytes().to_vec())
            }
            "garbage_header" => Ok(vec![1, 2, 3]),
            _ => Err(format!("no such method: {}", method)),
        }
    }
}

fn genesis_header() -> Header {
    Header::new(0, H256::zero(), H256::zero(), H256::zero(), Digest::new())
}

fn genesis() -> (Header, Vec<(Vec<u8>, Vec<u8>)>) {
    let header = genesis_header();
    let mut store = vec![(b":code".to_vec(), CODE.to_vec())];
    for name in ["Alice", "Bob", "Charlie", "Dave", "Eve"] {
        store.push((balance_key(&public(name)), 1000u64.to_le_bytes().to_vec()));
    }
    store.extend(authority_pairs(&[public("Alice"), public("Bob"), public("Charlie")]));
    store.push((LATEST.to_vec(), header.hash().as_bytes().to_vec()));
    (header, store)
}

fn new_client() -> Client<Backend, TestRuntime> {
    new_in_mem(TestRuntime, genesis).unwrap()
}

fn justification(header: &Header, signers: &[&str]) -> UncheckedJustification {
    let message = commit_message_bytes(1, &header.parent_hash);
    UncheckedJustification {
        round_number: 1,
        parent_hash: header.parent_hash,
        signatures: signers.iter().map(|s| (public(s), sign(s, &message))).collect(),
    }
}

fn justify(client: &Client<Backend, TestRuntime>, header: Header) -> Result<JustifiedHeader, Error> {
    let justification = justification(&header, &["Alice", "Bob", "Charlie"]);
    client.check_justification(header, justification)
}

fn justify_and_import(
    client: &mut Client<Backend, TestRuntime>,
    origin: BlockOrigin,
    block: Block,
) -> Result<ImportResult, Error> {
    let (header, extrinsics) = block.deconstruct();
    let justified = justify(client, header)?;
    client.import_block(origin, justified, Some(extrinsics))
}

fn transfer(from: &str, to: &str, amount: u64, nonce: u64) -> UncheckedExtrinsic {
    let mut function = public(to).as_bytes().to_vec();
    function.extend_from_slice(&amount.to_le_bytes());
    let extrinsic = Extrinsic { signed: public(from), index: nonce, function };
    let signature = sign(from, &extrinsic.encode());
    UncheckedExtrinsic { extrinsic, signature }
}

fn received(stream: futures::sync::mpsc::UnboundedReceiver<BlockImportNotification>) -> Vec<BlockImportNotification> {
    stream.wait().map(|n| n.unwrap()).collect()
}

#[test]
fn client_initialises_from_genesis_ok() {
    let client = new_client();
    let genesis_hash = client.block_hash(0).unwrap().unwrap();

    assert_eq!(client.using_environment(|ext: &mut Ext| latest_block_hash(ext)).unwrap(), genesis_hash);
    assert_eq!(client.using_environment(|ext: &mut Ext| balance_of(ext, public("Alice"))).unwrap(), 1000);
    assert_eq!(client.using_environment(|ext: &mut Ext| balance_of(ext, public("Ferdie"))).unwrap(), 0);
}

#[test]
fn authorities_call_works() {
    let client = new_client();

    assert_eq!(client.info().unwrap().chain.best_number, 0);
    assert_eq!(
        client.authorities_at(&BlockId::Number(0)).unwrap(),
        vec![public("Alice"), public("Bob"), public("Charlie")]
    );
}

#[test]
fn block_builder_works_with_no_transactions() {
    let mut client = new_client();

    let builder = client.new_block().unwrap();

    justify_and_import(&mut client, BlockOrigin::Own, builder.bake().unwrap()).unwrap();

    assert_eq!(client.info().unwrap().chain.best_number, 1);
    assert_eq!(
        client.using_environment(|ext: &mut Ext| latest_block_hash(ext)).unwrap(),
        client.block_hash(1).unwrap().unwrap()
    );
}

#[test]
fn block_builder_works_with_transactions() {
    let mut client = new_client();

    let mut builder = client.new_block().unwrap();

    builder.push(transfer("Alice", "Ferdie", 42, 0)).unwrap();

    justify_and_import(&mut client, BlockOrigin::Own, builder.bake().unwrap()).unwrap();

    assert_eq!(client.info().unwrap().chain.best_number, 1);
    assert!(client.state_at(&BlockId::Number(1)).unwrap() != client.state_at(&BlockId::Number(0)).unwrap());
    assert_eq!(client.using_environment(|ext: &mut Ext| balance_of(ext, public("Alice"))).unwrap(), 958);
    assert_eq!(client.using_environment(|ext: &mut Ext| balance_of(ext, public("Ferdie"))).unwrap(), 42);
}

#[test]
fn genesis_is_the_best_block_with_an_empty_body() {
    let client = new_client();
    let genesis_hash = genesis_header().hash();
    let info = client.info().unwrap();
    assert_eq!(info.chain.best_number, 0);
    assert_eq!(info.chain.best_hash, genesis_hash);
    assert_eq!(info.chain.genesis_hash, genesis_hash);
    assert_eq!(info.best_queued_number, None);
    assert_eq!(info.best_queued_hash, None);
    assert_eq!(client.header(&BlockId::Number(0)).unwrap(), Some(genesis_header()));
    assert_eq!(client.body(&BlockId::Number(0)).unwrap(), Some(vec![]));
    assert_eq!(client.justification(&BlockId::Number(0)).unwrap(), None);
    assert_eq!(client.best_block_header().unwrap(), genesis_header());
    assert_eq!(ChainHead::best_block_header(&client).unwrap(), genesis_header());
    assert_eq!(ChainApi::info(BackendApi::blockchain(client.backend())).unwrap(), info.chain);
}

#[test]
fn empty_block_changes_no_balance() {
    let mut client = new_client();
    let block = client.new_block().unwrap().bake().unwrap();
    assert_eq!(justify_and_import(&mut client, BlockOrigin::Own, block).unwrap(), ImportResult::Queued);
    for name in ["Alice", "Bob", "Charlie", "Dave", "Eve"] {
        assert_eq!(client.using_environment(|ext: &mut Ext| balance_of(ext, public(name))).unwrap(), 1000);
    }
    assert_eq!(client.using_environment(|ext: &mut Ext| balance_of(ext, public("Ferdie"))).unwrap(), 0);
}

#[test]
fn genesis_is_not_built_for_a_backend_that_has_one() {
    let mut backend = Backend::new();
    let (header, store) = genesis();
    write_genesis(&mut backend, header, &store).unwrap();
    let client = Client::new(backend, TestRuntime, || -> (Header, Vec<(Vec<u8>, Vec<u8>)>) {
        panic!("the backend has a genesis block")
    })
    .unwrap();
    assert_eq!(client.block_hash(0).unwrap(), Some(genesis_header().hash()));
    assert_eq!(client.info().unwrap().chain.best_number, 0);
}

#[test]
fn header_by_hash_has_that_hash() {
    let mut client = new_client();
    let block = client.new_block().unwrap().bake().unwrap();
    let hash = block.header.hash();
    justify_and_import(&mut client, BlockOrigin::File, block).unwrap();
    for stored in [genesis_header().hash(), hash] {
        let header = client.header(&BlockId::Hash(stored)).unwrap().unwrap();
        assert_eq!(header.hash(), stored);
    }
    assert_eq!(client.header(&BlockId::Hash(H256([9u8; 32]))).unwrap(), None);
    assert_eq!(client.header(&BlockId::Number(2)).unwrap(), None);
}

#[test]
fn ids_resolve_to_hashes_and_numbers() {
    let mut client = new_client();
    let block = client.new_block().unwrap().bake().unwrap();
    let hash = block.header.hash();
    justify_and_import(&mut client, BlockOrigin::Own, block).unwrap();
    assert_eq!(client.block_hash(1).unwrap(), Some(hash));
    assert_eq!(client.block_hash(2).unwrap(), None);
    assert_eq!(client.block_hash_from_id(&BlockId::Number(1)).unwrap(), Some(hash));
    assert_eq!(client.block_hash_from_id(&BlockId::Number(2)).unwrap(), None);
    assert_eq!(client.block_hash_from_id(&BlockId::Hash(H256([9u8; 32]))).unwrap(), Some(H256([9u8; 32])));
    assert_eq!(client.block_number_from_id(&BlockId::Hash(hash)).unwrap(), Some(1));
    assert_eq!(client.block_number_from_id(&BlockId::Hash(H256([9u8; 32]))).unwrap(), None);
    assert_eq!(client.block_number_from_id(&BlockId::Number(7)).unwrap(), Some(7));
    assert_eq!(client.block_status(&BlockId::Hash(hash)).unwrap(), BlockStatus::InChain);
    assert_eq!(client.block_status(&BlockId::Number(1)).unwrap(), BlockStatus::InChain);
    assert_eq!(client.block_status(&BlockId::Number(2)).unwrap(), BlockStatus::Unknown);
    assert_eq!(client.block_status(&BlockId::Hash(H256([9u8; 32]))).unwrap(), BlockStatus::Unknown);
}

#[test]
fn imported_block_is_stored_with_body_and_justification() {
    let mut client = new_client();
    let mut builder = client.new_block().unwrap();
    builder.push(transfer("Bob", "Alice", 1, 0)).unwrap();
    let block = builder.bake().unwrap();
    let copy = block.clone();
    justify_and_import(&mut client, BlockOrigin::Own, block).unwrap();
    let id = BlockId::Hash(copy.header.hash());
    assert_eq!(client.header(&id).unwrap(), Some(copy.header.clone()));
    assert_eq!(client.body(&id).unwrap(), Some(copy.extrinsics.clone()));
    assert_eq!(
        client.justification(&id).unwrap(),
        Some(justification(&copy.header, &["Alice", "Bob", "Charlie"]))
    );
}

#[test]
fn storage_tells_absent_from_empty() {
    let mut backend = Backend::new();
    let (header, mut store) = genesis();
    store.push((b"empty".to_vec(), vec![]));
    write_genesis(&mut backend, header, &store).unwrap();
    let client = Client::new(backend, TestRuntime, genesis).unwrap();
    let at = BlockId::Number(0);
    assert_eq!(client.storage(&at, &StorageKey(b"empty".to_vec())).unwrap().0, Vec::<u8>::new());
    assert_eq!(
        client.storage(&at, &StorageKey(b"absent".to_vec())),
        Err(Error::NoValueForKey(b"absent".to_vec()))
    );
    assert_eq!(
        client.storage(&at, &StorageKey(balance_key(&public("Alice")))).unwrap().0,
        1000u64.to_le_bytes().to_vec()
    );
    assert_eq!(client.code_at(&at).unwrap(), CODE.to_vec());
    match client.storage(&BlockId::Number(3), &StorageKey(b"empty".to_vec())) {
        Err(Error::Backend(_)) => {}
        other => panic!("unexpected: {:?}", other),
    }
}

#[test]
fn state_of_an_unknown_block_is_a_backend_error() {
    let client = new_client();
    match client.state_at(&BlockId::Number(1)) {
        Err(Error::Backend(_)) => {}
        other => panic!("unexpected: {:?}", other),
    }
    match client.state_at(&BlockId::Hash(H256([9u8; 32]))) {
        Err(Error::Backend(_)) => {}
        other => panic!("unexpected: {:?}", other),
    }
    match client.authorities_at(&BlockId::Number(1)) {
        Err(Error::Backend(_)) => {}
        other => panic!("unexpected: {:?}", other),
    }
    match client.code_at(&BlockId::Number(1)) {
        Err(Error::Backend(_)) => {}
        other => panic!("unexpected: {:?}", other),
    }
    match client.using_environment_at(&BlockId::Number(1), &mut OverlayedChanges::new(), |_: &mut Ext| 1) {
        Err(Error::Backend(_)) => {}
        other => panic!("unexpected: {:?}", other),
    }
    match client.new_block_at(&BlockId::Number(1)) {
        Err(Error::Backend(_)) => {}
        Err(other) => panic!("unexpected: {:?}", other),
        Ok(_) => panic!("built on an unknown block"),
    }
}

#[test]
fn code_missing_from_the_state_is_no_value_for_key() {
    let client = new_in_mem(TestRuntime, || (genesis_header(), vec![])).unwrap();
    assert_eq!(client.code_at(&BlockId::Number(0)), Err(Error::NoValueForKey(b":code".to_vec())));
    assert_eq!(client.authorities_at(&BlockId::Number(0)), Err(Error::AuthLenEmpty));
    match client.call(&BlockId::Number(0), "balance_of", public("Alice").as_bytes()) {
        Err(Error::Execution(_)) => {}
        other => panic!("unexpected: {:?}", other.map(|r| r.return_data)),
    }
}

#[test]
fn malformed_authorities_in_genesis() {
    let with = |pairs: Vec<(Vec<u8>, Vec<u8>)>| new_in_mem(TestRuntime, move || (genesis_header(), pairs)).unwrap();
    let at = BlockId::Number(0);
    let client = with(vec![(b":auth:len".to_vec(), vec![1])]);
    assert_eq!(client.authorities_at(&at), Err(Error::AuthLenInvalid));
    let client = with(vec![(b":auth:len".to_vec(), vec![1, 0, 0, 0])]);
    assert_eq!(client.authorities_at(&at), Err(Error::AuthEmpty(0)));
    let client = with(vec![
        (b":auth:len".to_vec(), vec![1, 0, 0, 0]),
        (b":auth:\x00\x00\x00\x00".to_vec(), vec![7; 5]),
    ]);
    assert_eq!(client.authorities_at(&at), Err(Error::AuthInvalid(0)));
    // A justification cannot be checked against such a state.
    let header = Header::new(1, H256::zero(), H256::zero(), genesis_header().hash(), Digest::new());
    let unchecked = justification(&header, &["Alice", "Bob", "Charlie"]);
    assert_eq!(client.check_justification(header, unchecked), Err(Error::AuthInvalid(0)));
}

#[test]
fn call_returns_data_and_changes_without_touching_the_state() {
    let client = new_client();
    let result = client.call(&BlockId::Number(0), "balance_of", public("Alice").as_bytes()).unwrap();
    assert_eq!(result.return_data, 1000u64.to_le_bytes().to_vec());
    assert_eq!(result.changes.to_update(), vec![]);
    let header = Header::new(1, H256::zero(), H256::zero(), genesis_header().hash(), Digest::new());
    let result = client.call(&BlockId::Number(0), "initialise_block", &header.encode()).unwrap();
    assert_eq!(result.return_data, Vec::<u8>::new());
    assert_eq!(result.changes.storage(PENDING_HEADER), Some(&Some(header.encode())));
    // The state at the block is as it was.
    assert_eq!(
        client.storage(&BlockId::Number(0), &StorageKey(PENDING_HEADER.to_vec())),
        Err(Error::NoValueForKey(PENDING_HEADER.to_vec()))
    );
    assert_eq!(
        client.call(&BlockId::Number(0), "nothing", &[]).map(|r| r.return_data),
        Err(Error::Execution("no such method: nothing".to_string()))
    );
}

#[test]
fn using_environment_at_writes_into_the_overlay_only() {
    let client = new_client();
    let mut overlay = OverlayedChanges::new();
    let alice = public("Alice");
    let seen = client
        .using_environment_at(&BlockId::Number(0), &mut overlay, |ext: &mut Ext| {
            ext.set_storage(balance_key(&alice), 5u64.to_le_bytes().to_vec());
            balance_of(ext, alice)
        })
        .unwrap();
    assert_eq!(seen, 5);
    assert_eq!(overlay.storage(&balance_key(&alice)), Some(&Some(5u64.to_le_bytes().to_vec())));
    assert_eq!(client.using_environment(|ext: &mut Ext| balance_of(ext, alice)).unwrap(), 1000);
}

#[test]
fn bad_justification_is_refused_and_changes_nothing() {
    let mut client = new_client();
    let block = client.new_block().unwrap().bake().unwrap();
    let (header, _extrinsics) = block.deconstruct();
    let expected = header.hash().to_hex();
    assert_eq!(expected.len(), 64);
    let unchecked = justification(&header, &["Alice", "Bob"]);
    assert_eq!(
        client.check_justification(header.clone(), unchecked),
        Err(Error::BadJustification(expected.clone()))
    );
    let mut unchecked = justification(&header, &["Alice", "Bob", "Charlie"]);
    unchecked.signatures[0].1 .0[0] ^= 1;
    assert_eq!(
        client.check_justification(header.clone(), unchecked),
        Err(Error::BadJustification(expected.clone()))
    );
    let mut unchecked = justification(&header, &["Alice", "Bob", "Charlie"]);
    unchecked.parent_hash = H256([5u8; 32]);
    assert_eq!(client.check_justification(header.clone(), unchecked), Err(Error::BadJustification(expected)));
    assert_eq!(client.info().unwrap().chain.best_number, 0);
    assert_eq!(client.block_hash(1).unwrap(), None);
    let stream = client.import_notification_stream();
    drop(client);
    assert_eq!(received(stream), vec![]);
}

#[test]
fn good_justification_pairs_with_its_header() {
    let client = new_client();
    let block = client.new_block().unwrap().bake().unwrap();
    let header = block.header.clone();
    let justified = justify(&client, block.header).unwrap();
    let (inner, checked) = justified.into_inner();
    assert_eq!(inner, header);
    assert_eq!(checked.uncheck(), justification(&header, &["Alice", "Bob", "Charlie"]));
}

fn orphan() -> (Header, JustifiedHeader) {
    let parent = H256([9u8; 32]);
    let header = Header::new(1, H256::zero(), H256::zero(), parent, Digest::new());
    let authorities = [public("Alice"), public("Bob"), public("Charlie")];
    let checked = check_justification(
        &authorities,
        parent,
        justification(&header, &["Alice", "Bob", "Charlie"]),
    )
    .unwrap();
    (header.clone(), JustifiedHeader::new(header, checked).unwrap())
}

#[test]
fn unknown_parent_is_a_result_and_changes_nothing() {
    let mut client = new_client();
    let stream = client.import_notification_stream();
    let (header, justified) = orphan();
    assert_eq!(client.import_block(BlockOrigin::Own, justified, None).unwrap(), ImportResult::UnknownParent);
    assert_eq!(client.info().unwrap().chain.best_number, 0);
    assert_eq!(client.header(&BlockId::Hash(header.hash())).unwrap(), None);
    assert_eq!(client.block_hash(1).unwrap(), None);
    drop(client);
    assert_eq!(received(stream), vec![]);
}

#[test]
fn a_justification_for_another_parent_pairs_with_no_header() {
    let (_, justified) = orphan();
    let (_, checked) = justified.into_inner();
    let other = Header::new(1, H256::zero(), H256::zero(), H256([8u8; 32]), Digest::new());
    assert_eq!(JustifiedHeader::new(other, checked), None);
}

#[test]
fn subscribers_hear_of_announced_origins_only() {
    let origins = [
        (BlockOrigin::Genesis, false),
        (BlockOrigin::NetworkInitialSync, false),
        (BlockOrigin::NetworkBroadcast, true),
        (BlockOrigin::ConsensusBroadcast, true),
        (BlockOrigin::Own, true),
        (BlockOrigin::File, false),
    ];
    for (origin, announced) in origins {
        assert_eq!(origin.is_announced(), announced);
        let mut client = new_client();
        let first = client.import_notification_stream();
        let second = client.import_notification_stream();
        let block = client.new_block().unwrap().bake().unwrap();
        let header = block.header.clone();
        assert_eq!(justify_and_import(&mut client, origin, block).unwrap(), ImportResult::Queued);
        assert_eq!(client.info().unwrap().chain.best_number, 1);
        drop(client);
        let expected = if announced {
            vec![BlockImportNotification { hash: header.hash(), origin, header, is_new_best: true }]
        } else {
            vec![]
        };
        assert_eq!(received(first), expected);
        assert_eq!(received(second), expected);
    }
}

#[test]
fn best_block_is_the_one_after_the_best() {
    assert!(is_next(1, 0));
    assert!(is_next(u64::MAX, u64::MAX - 1));
    assert!(!is_next(0, 0));
    assert!(!is_next(5, 5));
    assert!(!is_next(7, 5));
    assert!(!is_next(4, 5));
    assert!(!is_next(0, u64::MAX));
}

#[test]
fn executor_is_handed_the_encoded_block() {
    let header = genesis_header();
    let body = vec![transfer("Alice", "Bob", 1, 0)];
    assert_eq!(
        block_to_execute(&header, &Some(body.clone())),
        Block::new(header.clone(), body).encode()
    );
    assert_eq!(block_to_execute(&header, &None), Block::new(header.clone(), vec![]).encode());
    assert_eq!(block_to_execute(&header, &None), block_to_execute(&header, &Some(vec![])));
}

#[test]
fn justified_header_can_be_copied() {
    let (header, justified) = orphan();
    let copy = justified.clone();
    assert_eq!(copy, justified);
    assert_eq!(copy.into_inner().0, header);
}

#[test]
fn flagged_items_stay_in_their_order() {
    let mut items = vec![10, 11, 12, 13, 14];
    retain_flagged(&mut items, &vec![true, false, true, true, false]);
    assert_eq!(items, vec![10, 12, 13]);
    retain_flagged(&mut items, &vec![false, false, false]);
    assert_eq!(items, Vec::<i32>::new());
    let mut items = vec![1, 2, 3];
    retain_flagged(&mut items, &vec![true, true, true]);
    assert_eq!(items, vec![1, 2, 3]);
    // An item without a flag goes.
    retain_flagged(&mut items, &vec![true]);
    assert_eq!(items, vec![1]);
    retain_flagged(&mut items, &vec![]);
    assert_eq!(items, Vec::<i32>::new());
}

#[test]
fn notification_is_a_summary_of_the_block() {
    let header = genesis_header();
    assert_eq!(
        notification_for(BlockOrigin::Own, H256([4u8; 32]), &header, false),
        Some(BlockImportNotification {
            hash: H256([4u8; 32]),
            origin: BlockOrigin::Own,
            header: header.clone(),
            is_new_best: false
        })
    );
    assert_eq!(notification_for(BlockOrigin::File, H256([4u8; 32]), &header, true), None);
}

#[test]
fn subscribers_hear_of_imports_in_order_and_gone_ones_are_dropped() {
    let mut client = new_client();
    let gone = client.import_notification_stream();
    let stays = client.import_notification_stream();
    drop(gone);
    let first = client.new_block().unwrap().bake().unwrap();
    let first_hash = first.header.hash();
    justify_and_import(&mut client, BlockOrigin::Own, first).unwrap();
    let late = client.import_notification_stream();
    let second = client.new_block().unwrap().bake().unwrap();
    let second_hash = second.header.hash();
    justify_and_import(&mut client, BlockOrigin::NetworkBroadcast, second).unwrap();
    drop(client);
    let heard: Vec<(H256, bool)> = received(stays).into_iter().map(|n| (n.hash, n.is_new_best)).collect();
    assert_eq!(heard, vec![(first_hash, true), (second_hash, true)]);
    let heard: Vec<H256> = received(late).into_iter().map(|n| n.hash).collect();
    assert_eq!(heard, vec![second_hash]);
}

#[test]
fn best_number_follows_blocks_that_extend_the_best() {
    let mut client = new_client();
    let first = client.new_block().unwrap().bake().unwrap();
    let first_hash = first.header.hash();
    justify_and_import(&mut client, BlockOrigin::Own, first).unwrap();
    assert_eq!(client.info().unwrap().chain.best_number, 1);

    // A second block at the same height does not become the best block.
    let mut builder = client.new_block_at(&BlockId::Number(0)).unwrap();
    builder.push(transfer("Alice", "Bob", 10, 0)).unwrap();
    let sibling = builder.bake().unwrap();
    let sibling_hash = sibling.header.hash();
    assert_ne!(sibling_hash, first_hash);
    let stream = client.import_notification_stream();
    assert_eq!(justify_and_import(&mut client, BlockOrigin::Own, sibling).unwrap(), ImportResult::Queued);
    let info = client.info().unwrap().chain;
    assert_eq!(info.best_number, 1);
    assert_eq!(info.best_hash, first_hash);
    assert_eq!(client.block_status(&BlockId::Hash(sibling_hash)).unwrap(), BlockStatus::InChain);

    // A block on top of the best block does.
    let next = client.new_block_at(&BlockId::Hash(first_hash)).unwrap().bake().unwrap();
    let next_hash = next.header.hash();
    assert_eq!(next.header.number, 2);
    justify_and_import(&mut client, BlockOrigin::Own, next).unwrap();
    let info = client.info().unwrap().chain;
    assert_eq!(info.best_number, 2);
    assert_eq!(info.best_hash, next_hash);
    assert_eq!(info.genesis_hash, genesis_header().hash());
    drop(client);
    let heard: Vec<(H256, bool)> = received(stream).into_iter().map(|n| (n.hash, n.is_new_best)).collect();
    assert_eq!(heard, vec![(sibling_hash, false), (next_hash, true)]);
}

#[test]
fn importing_a_block_again_changes_nothing() {
    let mut client = new_client();
    let mut builder = client.new_block().unwrap();
    builder.push(transfer("Alice", "Ferdie", 42, 0)).unwrap();
    let block = builder.bake().unwrap();
    let id = BlockId::Hash(block.header.hash());
    assert_eq!(
        justify_and_import(&mut client, BlockOrigin::Own, block.clone()).unwrap(),
        ImportResult::Queued
    );
    let info = client.info().unwrap().chain;
    let state = client.state_at(&id).unwrap();
    assert_eq!(
        justify_and_import(&mut client, BlockOrigin::File, block.clone()).unwrap(),
        ImportResult::Queued
    );
    assert_eq!(client.info().unwrap().chain, info);
    assert!(client.state_at(&id).unwrap() == state);
    assert_eq!(client.header(&id).unwrap(), Some(block.header.clone()));
    assert_eq!(client.body(&id).unwrap(), Some(block.extrinsics.clone()));
    assert_eq!(client.block_hash(1).unwrap(), Some(block.header.hash()));
    assert_eq!(client.using_environment(|ext: &mut Ext| balance_of(ext, public("Alice"))).unwrap(), 958);
}

#[test]
fn failed_execution_imports_nothing() {
    let mut client = new_client();
    let stream = client.import_notification_stream();
    let mut block = client.new_block().unwrap().bake().unwrap();
    block.header.set_extrinsics_root(H256([1u8; 32]));
    let hash = block.header.hash();
    assert_eq!(
        justify_and_import(&mut client, BlockOrigin::Own, block),
        Err(Error::Execution("extrinsics root must be valid".to_string()))
    );
    assert_eq!(client.info().unwrap().chain.best_number, 0);
    assert_eq!(client.block_status(&BlockId::Hash(hash)).unwrap(), BlockStatus::Unknown);
    assert_eq!(client.block_hash(1).unwrap(), None);
    drop(client);
    assert_eq!(received(stream), vec![]);
}

#[test]
fn a_body_that_was_not_handed_in_counts_as_empty() {
    let mut client = new_client();
    let block = client.new_block().unwrap().bake().unwrap();
    let id = BlockId::Hash(block.header.hash());
    let justified = justify(&client, block.header).unwrap();
    assert_eq!(client.import_block(BlockOrigin::Own, justified, None).unwrap(), ImportResult::Queued);
    assert_eq!(client.body(&id).unwrap(), None);
    assert_eq!(client.block_status(&id).unwrap(), BlockStatus::InChain);
    assert_eq!(client.info().unwrap().chain.best_number, 1);
}

#[test]
fn builder_keeps_what_was_applied_and_drops_what_was_not() {
    let client = new_client();
    let mut builder: BlockBuilder<TestRuntime> = client.new_block().unwrap();
    builder.push(transfer("Alice", "Bob", 1, 0)).unwrap();
    assert_eq!(
        builder.push(transfer("Alice", "Bob", 1, 0)),
        Err(Error::Execution("bad nonce".to_string()))
    );
    assert_eq!(
        builder.push(transfer("Ferdie", "Bob", 1, 0)),
        Err(Error::Execution("balance too low".to_string()))
    );
    builder.push(transfer("Alice", "Bob", 1, 1)).unwrap();
    let block = builder.bake().unwrap();
    assert_eq!(block.extrinsics, vec![transfer("Alice", "Bob", 1, 0), transfer("Alice", "Bob", 1, 1)]);
    assert_eq!(block.header.number, 1);
    assert_eq!(block.header.parent_hash, genesis_header().hash());
    assert_eq!(block.header.extrinsics_root, hash(&encode_extrinsics(&block.extrinsics)));
}

#[test]
fn header_from_runtime_must_be_a_header_and_nothing_else() {
    let header = genesis_header();
    assert_eq!(header_from_runtime(&header.encode(), vec![]), Ok(Block::new(header.clone(), vec![])));
    assert_eq!(header_from_runtime(&[1, 2, 3], vec![]), Err(Error::Decode));
    let mut longer = header.encode();
    longer.push(0);
    assert_eq!(header_from_runtime(&longer, vec![]), Err(Error::Decode));
}

#[test]
fn executor_can_be_cloned() {
    let client = new_client();
    let executor = client.clone_executor();
    let other = new_in_mem(executor, genesis).unwrap();
    assert_eq!(other.block_hash(0).unwrap(), client.block_hash(0).unwrap());
}

#[test]
fn consensus_hands_in_blocks_and_asks_for_authorities() {
    let mut client = new_client();
    assert_eq!(
        Authorities::authorities(&client, &BlockId::Number(0)),
        Ok(vec![public("Alice"), public("Bob"), public("Charlie")])
    );
    assert_eq!(
        Authorities::authorities(&client, &BlockId::Number(7)),
        Err(substrate_client::bft::Error::StateUnavailable(BlockId::Number(7)))
    );
    let stream = client.import_notification_stream();
    let block = client.new_block().unwrap().bake().unwrap();
    let hash = block.header.hash();
    let authorities = client.authorities_at(&BlockId::Number(0)).unwrap();
    let checked = check_justification(
        &authorities,
        block.header.parent_hash,
        justification(&block.header, &["Alice", "Bob", "Charlie"]),
    )
    .unwrap();
    BlockImport::import_block(&mut client, block, checked);
    assert_eq!(client.info().unwrap().chain.best_hash, hash);
    drop(client);
    let heard: Vec<BlockOrigin> = received(stream).into_iter().map(|n| n.origin).collect();
    assert_eq!(heard, vec![BlockOrigin::ConsensusBroadcast]);
}
