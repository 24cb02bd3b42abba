use substrate_client::authorities::{authority_pairs, read_authorities};
use substrate_client::error::Error;
use substrate_client::hash::H256;
use substrate_client::state_machine::{
    conclude, execute, find_latest, with_externalities, CodeExecutor, Ext, InMemory,
    OverlayedChanges,
};

fn pair(key: &[u8], value: &[u8]) -> (Vec<u8>, Vec<u8>) {
    (key.to_vec(), value.to_vec())
}

#[test]
fn in_memory_state_reads_what_was_put() {
    let state = InMemory::from_pairs(&vec![pair(b"a", b"1"), pair(b"b", b"2"), pair(b"a", b"3")]);
    assert_eq!(state.storage(b"a"), Some(&b"3".to_vec()));
    assert_eq!(state.storage(b"b"), Some(&b"2".to_vec()));
    assert_eq!(state.storage(b"c"), None);
    assert_eq!(InMemory::new().storage(b"a"), None);
}

#[test]
fn in_memory_state_update_puts_and_clears() {
    let state = InMemory::from_pairs(&vec![pair(b"a", b"1"), pair(b"b", b"2")]);
    let next = state.update(&vec![
        (b"a".to_vec(), None),
        (b"c".to_vec(), Some(b"3".to_vec())),
        (b"b".to_vec(), Some(b"".to_vec())),
    ]);
    assert_eq!(next.storage(b"a"), None);
    assert_eq!(next.storage(b"b"), Some(&b"".to_vec()));
    assert_eq!(next.storage(b"c"), Some(&b"3".to_vec()));
    // The state that was updated is as it was.
    assert_eq!(state.storage(b"a"), Some(&b"1".to_vec()));
    assert_eq!(state.storage(b"c"), None);
}

#[test]
fn in_memory_states_are_equal_by_content() {
    let one = InMemory::from_pairs(&vec![pair(b"a", b"1"), pair(b"b", b"2")]);
    let other = InMemory::from_pairs(&vec![pair(b"b", b"0"), pair(b"b", b"2"), pair(b"a", b"1")]);
    assert!(one == other);
    assert!(one.same_as(&other));
    assert!(one == one.clone());
    assert!(one != InMemory::new());
    assert!(InMemory::new() != one);
    assert!(one != one.update(&vec![(b"a".to_vec(), None)]));
    assert!(one != one.update(&vec![(b"a".to_vec(), Some(b"2".to_vec()))]));
    assert!(one == one.update(&vec![(b"c".to_vec(), None)]));
    assert!(one == one.update(&vec![(b"a".to_vec(), Some(b"1".to_vec()))]));
}

#[test]
fn latest_write_wins() {
    let writes = vec![
        (b"a".to_vec(), Some(b"1".to_vec())),
        (b"b".to_vec(), Some(b"2".to_vec())),
        (b"a".to_vec(), None),
    ];
    assert_eq!(find_latest(&writes, b"a"), Some(&None));
    assert_eq!(find_latest(&writes, b"b"), Some(&Some(b"2".to_vec())));
    assert_eq!(find_latest(&writes, b"c"), None);
}

#[test]
fn overlay_keeps_or_drops_prospective_writes() {
    let mut overlay = OverlayedChanges::new();
    overlay.set_storage(b"a".to_vec(), Some(b"1".to_vec()));
    overlay.commit_prospective();
    overlay.set_storage(b"a".to_vec(), Some(b"2".to_vec()));
    overlay.set_storage(b"b".to_vec(), None);
    assert_eq!(overlay.storage(b"a"), Some(&Some(b"2".to_vec())));
    assert_eq!(overlay.storage(b"b"), Some(&None));
    assert_eq!(overlay.storage(b"c"), None);
    assert_eq!(
        overlay.to_update(),
        vec![
            (b"a".to_vec(), Some(b"1".to_vec())),
            (b"a".to_vec(), Some(b"2".to_vec())),
            (b"b".to_vec(), None)
        ]
    );
    overlay.discard_prospective();
    assert_eq!(overlay.storage(b"a"), Some(&Some(b"1".to_vec())));
    assert_eq!(overlay.storage(b"b"), None);
    assert_eq!(overlay.to_update(), vec![(b"a".to_vec(), Some(b"1".to_vec()))]);
}

#[test]
fn ext_reads_through_the_overlay_and_writes_into_it() {
    let state = InMemory::from_pairs(&vec![pair(b"a", b"1"), pair(b"b", b"2")]);
    let mut overlay = OverlayedChanges::new();
    {
        let mut ext = Ext::new(&mut overlay, &state);
        assert_eq!(ext.storage(b"a"), Some(b"1".to_vec()));
        ext.set_storage(b"a".to_vec(), b"9".to_vec());
        assert_eq!(ext.storage(b"a"), Some(b"9".to_vec()));
        ext.clear_storage(b"b");
        assert_eq!(ext.storage(b"b"), None);
        ext.place_storage(b"c".to_vec(), Some(b"3".to_vec()));
        assert_eq!(ext.storage(b"c"), Some(b"3".to_vec()));
        assert_eq!(ext.storage(b"d"), None);
    }
    // The state behind is as it was, the writes are in the overlay.
    assert_eq!(state.storage(b"a"), Some(&b"1".to_vec()));
    assert_eq!(state.storage(b"b"), Some(&b"2".to_vec()));
    assert_eq!(overlay.prospective.len(), 3);
    assert_eq!(overlay.committed.len(), 0);
}

struct Scripted;

impl CodeExecutor for Scripted {
    fn call(&self, ext: &mut Ext, code: &[u8], method: &str, data: &[u8]) -> Result<Vec<u8>, String> {
        ext.set_storage(b"seen".to_vec(), data.to_vec());
        match method {
            "echo" => Ok(data.to_vec()),
            "code" => Ok(code.to_vec()),
            _ => Err(format!("no such method: {}", method)),
        }
    }
}

#[test]
fn execute_returns_the_output_and_the_writes() {
    let state = InMemory::from_pairs(&vec![pair(b":code", b"wasm")]);
    let mut overlay = OverlayedChanges::new();
    let (out, update) = execute(&state, &mut overlay, &Scripted, "echo", &[1, 2]).unwrap();
    assert_eq!(out, vec![1, 2]);
    assert_eq!(update, vec![(b"seen".to_vec(), Some(vec![1, 2]))]);
    assert_eq!(overlay.storage(b"seen"), Some(&Some(vec![1, 2])));
    let (out, _) = execute(&state, &mut overlay, &Scripted, "code", &[]).unwrap();
    assert_eq!(out, b"wasm".to_vec());
}

#[test]
fn execute_reads_the_code_through_the_overlay() {
    let state = InMemory::new();
    let mut overlay = OverlayedChanges::new();
    overlay.set_storage(b":code".to_vec(), Some(b"new".to_vec()));
    let (out, _) = execute(&state, &mut overlay, &Scripted, "code", &[]).unwrap();
    assert_eq!(out, b"new".to_vec());
}

#[test]
fn execute_without_code_fails_before_the_executor_runs() {
    let state = InMemory::from_pairs(&vec![pair(b"other", b"x")]);
    let mut overlay = OverlayedChanges::new();
    match execute(&state, &mut overlay, &Scripted, "echo", &[1]) {
        Err(Error::Execution(_)) => {}
        other => panic!("unexpected: {:?}", other),
    }
    assert_eq!(overlay.storage(b"seen"), None);
}

#[test]
fn failed_execution_drops_its_writes() {
    let state = InMemory::from_pairs(&vec![pair(b":code", b"wasm")]);
    let mut overlay = OverlayedChanges::new();
    overlay.set_storage(b"kept".to_vec(), Some(vec![1]));
    overlay.commit_prospective();
    let result = execute(&state, &mut overlay, &Scripted, "fail", &[7]);
    assert_eq!(result, Err(Error::Execution("no such method: fail".to_string())));
    assert_eq!(overlay.storage(b"seen"), None);
    assert_eq!(overlay.storage(b"kept"), Some(&Some(vec![1])));
}

#[test]
fn conclude_passes_the_outcome_on() {
    let mut overlay = OverlayedChanges::new();
    overlay.set_storage(b"a".to_vec(), Some(vec![1]));
    let done = conclude(&mut overlay, Ok(vec![5])).unwrap();
    assert_eq!(done, (vec![5], vec![(b"a".to_vec(), Some(vec![1]))]));
    assert_eq!(overlay.prospective.len(), 1);
    assert_eq!(conclude(&mut overlay, Err("boom".to_string())), Err(Error::Execution("boom".to_string())));
    assert_eq!(overlay.prospective.len(), 0);
}

#[test]
fn with_externalities_runs_the_closure_over_the_state() {
    let state = InMemory::from_pairs(&vec![pair(b"a", b"1")]);
    let mut overlay = OverlayedChanges::new();
    let read = with_externalities(&state, &mut overlay, |ext: &mut Ext| {
        ext.set_storage(b"b".to_vec(), b"2".to_vec());
        ext.storage(b"a")
    });
    assert_eq!(read, Some(b"1".to_vec()));
    assert_eq!(overlay.storage(b"b"), Some(&Some(b"2".to_vec())));
}

#[test]
fn authorities_are_read_as_they_were_written() {
    let authorities = vec![H256([1u8; 32]), H256([2u8; 32]), H256([3u8; 32])];
    let pairs = authority_pairs(&authorities);
    assert_eq!(pairs.len(), 4);
    assert_eq!(pairs[0], (b":auth:len".to_vec(), vec![3, 0, 0, 0]));
    assert_eq!(pairs[1], (b":auth:\x00\x00\x00\x00".to_vec(), vec![1u8; 32]));
    assert_eq!(pairs[3], (b":auth:\x02\x00\x00\x00".to_vec(), vec![3u8; 32]));
    let state = InMemory::from_pairs(&pairs);
    assert_eq!(read_authorities(&state), Ok(authorities));
    let none = InMemory::from_pairs(&authority_pairs(&[]));
    assert_eq!(read_authorities(&none), Ok(vec![]));
}

#[test]
fn authorities_ignore_what_else_the_state_holds() {
    let authorities = vec![H256([1u8; 32]), H256([2u8; 32])];
    let mut pairs = vec![pair(b":auth:len", &[9, 0, 0, 0]), pair(b"balance", &[1])];
    pairs.extend(authority_pairs(&authorities));
    let state = InMemory::from_pairs(&pairs);
    assert_eq!(read_authorities(&state), Ok(authorities));
}

#[test]
fn missing_or_malformed_authorities_are_told_apart() {
    assert_eq!(read_authorities(&InMemory::new()), Err(Error::AuthLenEmpty));
    let state = InMemory::from_pairs(&vec![pair(b":auth:len", &[1, 0, 0])]);
    assert_eq!(read_authorities(&state), Err(Error::AuthLenInvalid));
    let state = InMemory::from_pairs(&vec![pair(b":auth:len", &[2, 0, 0, 0])]);
    assert_eq!(read_authorities(&state), Err(Error::AuthEmpty(0)));
    let state = InMemory::from_pairs(&vec![
        pair(b":auth:len", &[2, 0, 0, 0]),
        pair(b":auth:\x00\x00\x00\x00", &[1u8; 32]),
    ]);
    assert_eq!(read_authorities(&state), Err(Error::AuthEmpty(1)));
    let state = InMemory::from_pairs(&vec![
        pair(b":auth:len", &[2, 0, 0, 0]),
        pair(b":auth:\x00\x00\x00\x00", &[1u8; 32]),
        pair(b":auth:\x01\x00\x00\x00", &[1u8; 31]),
    ]);
    assert_eq!(read_authorities(&state), Err(Error::AuthInvalid(1)));
    // The first fault counts.
    let state = InMemory::from_pairs(&vec![
        pair(b":auth:len", &[3, 0, 0, 0]),
        pair(b":auth:\x00\x00\x00\x00", &[1u8; 3]),
    ]);
    assert_eq!(read_authorities(&state), Err(Error::AuthInvalid(0)));
}
