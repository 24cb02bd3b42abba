//! The authority set as the state holds it: the number of authorities under
//! `:auth:len`, and authority `i` under `:auth:` followed by the bytes of
//! `i`.

use crate::bft::AuthorityId;
use crate::codec::{
    decode_fixed, decode_u32, encode_u32, keyed, le_bytes_u32, lemma_keyed_injective,
    lemma_u32_round_trip, take_u32, to_keyed_vec, to_vec, Input,
};
use crate::error::Error;
use crate::hash::{h256_of, lemma_h256_by_bytes, lemma_h256_of_view, H256};
use crate::journal::{latest, lemma_latest_ignores_tail};
use crate::state_machine::{overlaid, pairs_view, InMemory};
use vstd::prelude::*;

verus! {

/// The key of the number of authorities: `:auth:len`.
pub open spec fn auth_len_key() -> Seq<u8> {
    seq![0x3au8, 0x61u8, 0x75u8, 0x74u8, 0x68u8, 0x3au8, 0x6cu8, 0x65u8, 0x6eu8]
}

/// What the key of every authority starts with: `:auth:`.
pub open spec fn auth_prefix() -> Seq<u8> {
    seq![0x3au8, 0x61u8, 0x75u8, 0x74u8, 0x68u8, 0x3au8]
}

/// The key of the number of authorities.
pub fn auth_len_key_bytes() -> (r: [u8; 9])
    ensures
        r@ == auth_len_key(),
{
    let r: [u8; 9] = [0x3a, 0x61, 0x75, 0x74, 0x68, 0x3a, 0x6c, 0x65, 0x6e];
    assert(r@ =~= auth_len_key());
    r
}

/// What the key of every authority starts with.
pub fn auth_prefix_bytes() -> (r: [u8; 6])
    ensures
        r@ == auth_prefix(),
{
    let r: [u8; 6] = [0x3a, 0x61, 0x75, 0x74, 0x68, 0x3a];
    assert(r@ =~= auth_prefix());
    r
}

/// The number of authorities that a state names.
pub open spec fn authority_count(state: Map<Seq<u8>, Seq<u8>>) -> Result<u32, Error> {
    if !state.contains_key(auth_len_key()) {
        Err(Error::AuthLenEmpty)
    } else {
        match decode_u32(state[auth_len_key()]) {
            Some((n, _)) => Ok(n),
            None => Err(Error::AuthLenInvalid),
        }
    }
}

/// The authority that a state holds at index `i`.
pub open spec fn authority_entry(state: Map<Seq<u8>, Seq<u8>>, i: u32) -> Result<
    AuthorityId,
    Error,
> {
    let key = keyed(auth_prefix(), i);
    if !state.contains_key(key) {
        Err(Error::AuthEmpty(i))
    } else {
        match decode_fixed(state[key], 32) {
            Some((bytes, _)) => Ok(h256_of(bytes)),
            None => Err(Error::AuthInvalid(i)),
        }
    }
}

/// The first `n` authorities of a state, or the fault of the first index at
/// which the state holds none.
pub open spec fn authorities_upto(state: Map<Seq<u8>, Seq<u8>>, n: nat) -> Result<
    Seq<AuthorityId>,
    Error,
>
    decreases n,
{
    if n == 0 {
        Ok(Seq::empty())
    } else {
        match authorities_upto(state, (n - 1) as nat) {
            Ok(before) => match authority_entry(state, (n - 1) as u32) {
                Ok(a) => Ok(before.push(a)),
                Err(e) => Err(e),
            },
            Err(e) => Err(e),
        }
    }
}

/// The authority set of a state: as many authorities as the state names,
/// in the order of their indices.
pub open spec fn authorities_in(state: Map<Seq<u8>, Seq<u8>>) -> Result<Seq<AuthorityId>, Error> {
    match authority_count(state) {
        Ok(n) => authorities_upto(state, n as nat),
        Err(e) => Err(e),
    }
}

/// Whether a failure is one of the authority set: its number or one of its
/// entries is missing or malformed.
pub open spec fn is_authority_fault(e: Error) -> bool {
    e is AuthLenEmpty || e is AuthLenInvalid || e is AuthEmpty || e is AuthInvalid
}

/// Reading the first authorities fails by a fault of the authority set only.
pub proof fn lemma_fault_kind_upto(state: Map<Seq<u8>, Seq<u8>>, n: nat)
    ensures
        authorities_upto(state, n) matches Err(e) ==> is_authority_fault(e),
    decreases n,
{
    if n > 0 {
        lemma_fault_kind_upto(state, (n - 1) as nat);
    }
}

/// Reading the authority set fails by a fault of the authority set only.
pub proof fn lemma_fault_kind(state: Map<Seq<u8>, Seq<u8>>)
    ensures
        authorities_in(state) matches Err(e) ==> is_authority_fault(e),
{
    match authority_count(state) {
        Ok(n) => {
            lemma_fault_kind_upto(state, n as nat);
        },
        Err(_) => {},
    }
}

/// A fault among the first authorities is the fault of the whole set.
pub proof fn lemma_fault_stays(state: Map<Seq<u8>, Seq<u8>>, k: nat, n: nat)
    requires
        k <= n,
        authorities_upto(state, k).is_err(),
    ensures
        authorities_upto(state, n) == authorities_upto(state, k),
    decreases n - k,
{
    if k < n {
        lemma_fault_stays(state, k, (n - 1) as nat);
    }
}

/// Reads the authority set from a state.
pub fn read_authorities(state: &InMemory) -> (r: Result<Vec<AuthorityId>, Error>)
    ensures
        match authorities_in(state@) {
            Ok(authorities) => r matches Ok(v) && v@ == authorities,
            Err(fault) => r matches Err(e) && e == fault,
        },
{
    let len_key = auth_len_key_bytes();
    let n = match state.storage(len_key.as_slice()) {
        Some(bytes) => {
            let mut input = Input::new(bytes.as_slice());
            match take_u32(&mut input) {
                Some(n) => n,
                None => { return Err(Error::AuthLenInvalid); },
            }
        },
        None => { return Err(Error::AuthLenEmpty); },
    };
    let prefix = auth_prefix_bytes();
    let mut authorities: Vec<AuthorityId> = Vec::new();
    let mut i: u32 = 0;
    while i < n
        invariant
            i <= n,
            prefix@ == auth_prefix(),
            authority_count(state@) == Ok::<u32, Error>(n),
            authorities_upto(state@, i as nat) == Ok::<Seq<AuthorityId>, Error>(authorities@),
        decreases n - i,
    {
        let key = to_keyed_vec(i, prefix.as_slice());
        match state.storage(key.as_slice()) {
            Some(bytes) => {
                let mut input = Input::new(bytes.as_slice());
                match H256::take(&mut input) {
                    Some(authority) => {
                        proof {
                            lemma_h256_of_view(authority);
                        }
                        authorities.push(authority);
                    },
                    None => {
                        proof {
                            lemma_fault_stays(state@, (i + 1) as nat, n as nat);
                        }
                        return Err(Error::AuthInvalid(i));
                    },
                }
            },
            None => {
                proof {
                    lemma_fault_stays(state@, (i + 1) as nat, n as nat);
                }
                return Err(Error::AuthEmpty(i));
            },
        }
        i = i + 1;
    }
    Ok(authorities)
}

/// The writes that put an authority set into a state: the number of
/// authorities, then each of them under its index.
pub open spec fn authority_writes(authorities: Seq<AuthorityId>) -> Seq<
    (Seq<u8>, Option<Seq<u8>>),
> {
    seq![(auth_len_key(), Some(le_bytes_u32(authorities.len() as u32)))] + Seq::new(
        authorities.len(),
        |i: int| (keyed(auth_prefix(), i as u32), Some(authorities[i]@)),
    )
}

/// The storage pairs that put an authority set into a genesis state.
pub fn authority_pairs(authorities: &[AuthorityId]) -> (r: Vec<(Vec<u8>, Vec<u8>)>)
    ensures
        pairs_view(r@) == authority_writes(authorities@),
{
    let len_key = auth_len_key_bytes();
    let prefix = auth_prefix_bytes();
    let mut pairs: Vec<(Vec<u8>, Vec<u8>)> = Vec::new();
    pairs.push(
        (to_vec(len_key.as_slice()), encode_u32(#[verifier::truncate] (authorities.len() as u32))),
    );
    let mut i: usize = 0;
    assert(pairs_view(pairs@) =~= authority_writes(authorities@).take(1));
    while i < authorities.len()
        invariant
            i <= authorities@.len(),
            prefix@ == auth_prefix(),
            pairs_view(pairs@) == authority_writes(authorities@).take(i + 1),
        decreases authorities@.len() - i,
    {
        let key = to_keyed_vec(#[verifier::truncate] (i as u32), prefix.as_slice());
        let value = to_vec(authorities[i].as_bytes());
        let ghost before = pairs_view(pairs@);
        pairs.push((key, value));
        i = i + 1;
        assert(pairs_view(pairs@) =~= before.push((key@, Some(value@))));
        assert(pairs_view(pairs@) =~= authority_writes(authorities@).take(i + 1));
    }
    assert(authority_writes(authorities@).take(authorities@.len() as int + 1) =~= authority_writes(
        authorities@,
    ));
    pairs
}

/// A state into which an authority set was written holds that set, whatever
/// else it holds: what `authorities_in` reads is what `authority_writes`
/// wrote.
pub proof fn lemma_authorities_written(
    base: Map<Seq<u8>, Seq<u8>>,
    authorities: Seq<AuthorityId>,
)
    requires
        authorities.len() <= u32::MAX,
    ensures
        authorities_in(overlaid(base, authority_writes(authorities))) == Ok::<
            Seq<AuthorityId>,
            Error,
        >(authorities),
{
    let writes = authority_writes(authorities);
    let state = overlaid(base, writes);
    let n = authorities.len();
    assert(writes.len() == n + 1);
    assert forall|j: int| 1 <= j < writes.len() implies (#[trigger] writes[j]).0
        != auth_len_key() by {
        assert(writes[j].0 == keyed(auth_prefix(), (j - 1) as u32));
        assert(keyed(auth_prefix(), (j - 1) as u32).len() == 10);
        assert(auth_len_key().len() == 9);
    }
    lemma_latest_ignores_tail(writes, 1, auth_len_key());
    assert(writes.take(1).last() == writes[0]);
    assert(latest(writes, auth_len_key()) == Some(Some(le_bytes_u32(n as u32))));
    lemma_u32_round_trip(n as u32, Seq::empty());
    assert(le_bytes_u32(n as u32) + Seq::<u8>::empty() =~= le_bytes_u32(n as u32));
    assert(authority_count(state) == Ok::<u32, Error>(n as u32));
    assert forall|i: int| 0 <= i < n implies authority_entry(state, i as u32) == Ok::<
        AuthorityId,
        Error,
    >(authorities[i]) by {
        let key = keyed(auth_prefix(), i as u32);
        assert forall|j: int| i + 2 <= j < writes.len() implies (#[trigger] writes[j]).0
            != key by {
            assert(writes[j].0 == keyed(auth_prefix(), (j - 1) as u32));
            lemma_keyed_injective(auth_prefix(), (j - 1) as u32, i as u32);
        }
        lemma_latest_ignores_tail(writes, i + 2, key);
        assert(writes.take(i + 2).last() == writes[i + 1]);
        assert(writes[i + 1] == (key, Some(authorities[i]@)));
        assert(latest(writes, key) == Some(Some(authorities[i]@)));
        lemma_h256_by_bytes(authorities[i], authorities[i]);
        lemma_h256_of_view(authorities[i]);
        assert(authorities[i]@.take(32) =~= authorities[i]@);
    }
    lemma_authorities_upto(state, authorities, n);
    assert(authorities.take(n as int) =~= authorities);
}

/// Where the first `k` entries of a state are the first `k` of `authorities`,
/// they are what is read.
proof fn lemma_authorities_upto(
    state: Map<Seq<u8>, Seq<u8>>,
    authorities: Seq<AuthorityId>,
    k: nat,
)
    requires
        k <= authorities.len() <= u32::MAX,
        forall|i: int|
            0 <= i < authorities.len() ==> authority_entry(state, i as u32) == Ok::<
                AuthorityId,
                Error,
            >(authorities[i]),
    ensures
        authorities_upto(state, k) == Ok::<Seq<AuthorityId>, Error>(authorities.take(k as int)),
    decreases k,
{
    if k == 0 {
        assert(authorities.take(0) =~= Seq::<AuthorityId>::empty());
    } else {
        lemma_authorities_upto(state, authorities, (k - 1) as nat);
        assert(authority_entry(state, (k - 1) as u32) == Ok::<AuthorityId, Error>(
            authorities[k - 1],
        ));
        assert(authorities.take(k as int) =~= authorities.take(k - 1).push(authorities[k - 1]));
    }
}

} // verus!
