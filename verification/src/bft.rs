//! Justifications: the signatures by which the authorities vouch for a
//! block, and the check that enough of them did.

use crate::codec::{le_bytes_u32, put_u32};
use crate::ed25519::{ed25519_verifies, verify_strict};
use crate::generic::{Block, BlockId};
use crate::hash::{lemma_h256_by_bytes, H256, H512};
use vstd::prelude::*;

verus! {

/// A node entitled to vote, by its public key.
pub type AuthorityId = H256;

/// A justification as it arrives: a round, the parent that the round built
/// on, and signatures that nobody has checked yet.
#[derive(Debug, PartialEq, Eq)]
pub struct UncheckedJustification {
    /// The round in which the block was agreed on.
    pub round_number: u32,
    /// The hash of the parent of the block.
    pub parent_hash: H256,
    /// The signers with their signatures.
    pub signatures: Vec<(AuthorityId, H512)>,
}

/// What a justification holds.
pub struct JustificationView {
    pub round_number: u32,
    pub parent_hash: H256,
    pub signatures: Seq<(AuthorityId, H512)>,
}

impl View for UncheckedJustification {
    type V = JustificationView;

    open spec fn view(&self) -> JustificationView {
        JustificationView {
            round_number: self.round_number,
            parent_hash: self.parent_hash,
            signatures: self.signatures@,
        }
    }
}

impl DeepView for UncheckedJustification {
    type V = JustificationView;

    open spec fn deep_view(&self) -> JustificationView {
        self@
    }
}

impl Clone for UncheckedJustification {
    fn clone(&self) -> (r: Self)
        ensures
            r@ == self@,
    {
        let mut signatures: Vec<(AuthorityId, H512)> = Vec::new();
        let mut i: usize = 0;
        while i < self.signatures.len()
            invariant
                i <= self.signatures@.len(),
                signatures@ == self.signatures@.take(i as int),
            decreases self.signatures@.len() - i,
        {
            signatures.push(self.signatures[i]);
            i = i + 1;
            assert(signatures@ =~= self.signatures@.take(i as int));
        }
        assert(self.signatures@.take(self.signatures@.len() as int) =~= self.signatures@);
        UncheckedJustification {
            round_number: self.round_number,
            parent_hash: self.parent_hash,
            signatures,
        }
    }
}

/// The message that the authorities sign to commit to a block in a round:
/// the round, then the hash of the parent.
pub open spec fn commit_message(round_number: u32, parent_hash: H256) -> Seq<u8> {
    le_bytes_u32(round_number) + parent_hash@
}

/// How many signers make a supermajority of `n` authorities: two thirds of
/// them, rounded up, and one more.
pub open spec fn supermajority(n: nat) -> nat {
    (2 * n + 2) / 3 + 1
}

/// Whether the signature at `i` is one of `message` under the key of its
/// signer, who has not signed before.
pub open spec fn signed_afresh(
    message: Seq<u8>,
    signatures: Seq<(AuthorityId, H512)>,
    i: int,
) -> bool {
    &&& ed25519_verifies(signatures[i].1@, message, signatures[i].0@)
    &&& forall|j: int| 0 <= j < i ==> (#[trigger] signatures[j]).0 != signatures[i].0
}

/// Whether the signer at `i` counts: it is an authority, its signature is
/// one of `message` under its key, and it has not signed before.
pub open spec fn signer_counts(
    authorities: Seq<AuthorityId>,
    message: Seq<u8>,
    signatures: Seq<(AuthorityId, H512)>,
    i: int,
) -> bool {
    authorities.contains(signatures[i].0) && signed_afresh(message, signatures, i)
}

/// Whether the justification vouches for a block on `parent_hash` in the
/// name of `authorities`: it names that parent, every signer counts, and the
/// signers are a supermajority.
pub open spec fn justifies(
    authorities: Seq<AuthorityId>,
    parent_hash: H256,
    justification: JustificationView,
) -> bool {
    &&& justification.parent_hash == parent_hash
    &&& forall|i: int|
        0 <= i < justification.signatures.len() ==> #[trigger] signer_counts(
            authorities,
            commit_message(justification.round_number, justification.parent_hash),
            justification.signatures,
            i,
        )
    &&& justification.signatures.len() >= supermajority(authorities.len())
}

/// Too few signatures justify nothing, whoever made them: with three
/// authorities all three must sign.
pub proof fn lemma_too_few_signers(
    authorities: Seq<AuthorityId>,
    parent_hash: H256,
    justification: JustificationView,
)
    requires
        justification.signatures.len() < supermajority(authorities.len()),
    ensures
        !justifies(authorities, parent_hash, justification),
        supermajority(3) == 3,
{
}

/// One signature that is not of the commit message, or not by an authority,
/// or by one that has signed before, spoils the justification.
pub proof fn lemma_bad_signer(
    authorities: Seq<AuthorityId>,
    parent_hash: H256,
    justification: JustificationView,
    i: int,
)
    requires
        0 <= i < justification.signatures.len(),
        !signer_counts(
            authorities,
            commit_message(justification.round_number, justification.parent_hash),
            justification.signatures,
            i,
        ),
    ensures
        !justifies(authorities, parent_hash, justification),
{
}

/// The signers of a justification.
pub open spec fn signers(justification: JustificationView) -> Seq<AuthorityId> {
    justification.signatures.map_values(|s: (AuthorityId, H512)| s.0)
}

/// A justification that vouches for a block was signed by a supermajority
/// of the authorities: its signers are authorities, no two of them are the
/// same, they are as many as a supermajority takes, and each has signed the
/// commit message for the round and the parent.
pub proof fn lemma_justified_by_supermajority(
    authorities: Seq<AuthorityId>,
    parent_hash: H256,
    justification: JustificationView,
)
    requires
        justifies(authorities, parent_hash, justification),
    ensures
        signers(justification).no_duplicates(),
        signers(justification).to_set().subset_of(authorities.to_set()),
        signers(justification).to_set().len() >= supermajority(authorities.len()),
        forall|i: int|
            0 <= i < justification.signatures.len() ==> ed25519_verifies(
                (#[trigger] justification.signatures[i]).1@,
                commit_message(justification.round_number, parent_hash),
                justification.signatures[i].0@,
            ),
{
    let who = signers(justification);
    let message = commit_message(justification.round_number, justification.parent_hash);
    assert forall|i: int, j: int| 0 <= i < who.len() && 0 <= j < who.len() && i != j implies who[i]
        != who[j] by {
        assert(signer_counts(authorities, message, justification.signatures, i));
        assert(signer_counts(authorities, message, justification.signatures, j));
        if i < j {
            assert(justification.signatures[i].0 != justification.signatures[j].0);
        } else {
            assert(justification.signatures[j].0 != justification.signatures[i].0);
        }
    }
    assert forall|a: AuthorityId| who.to_set().contains(a) implies authorities.to_set().contains(
        a,
    ) by {
        let i = choose|i: int| 0 <= i < who.len() && who[i] == a;
        assert(signer_counts(authorities, message, justification.signatures, i));
    }
    who.unique_seq_to_set();
    assert forall|i: int| 0 <= i < justification.signatures.len() implies ed25519_verifies(
        (#[trigger] justification.signatures[i]).1@,
        commit_message(justification.round_number, parent_hash),
        justification.signatures[i].0@,
    ) by {
        assert(signer_counts(authorities, message, justification.signatures, i));
    }
}

/// The bytes of the commit message.
pub fn commit_message_bytes(round_number: u32, parent_hash: &H256) -> (r: Vec<u8>)
    ensures
        r@ == commit_message(round_number, *parent_hash),
{
    let mut out = Vec::new();
    put_u32(&mut out, round_number);
    parent_hash.put(&mut out);
    assert(out@ =~= commit_message(round_number, *parent_hash));
    out
}

/// Whether `who` is among `authorities`.
pub fn is_authority(authorities: &[AuthorityId], who: &AuthorityId) -> (r: bool)
    ensures
        r == authorities@.contains(*who),
{
    let mut i: usize = 0;
    while i < authorities.len()
        invariant
            i <= authorities@.len(),
            forall|j: int| 0 <= j < i ==> authorities@[j] != *who,
        decreases authorities@.len() - i,
    {
        proof {
            lemma_h256_by_bytes(authorities@[i as int], *who);
        }
        if authorities[i] == *who {
            return true;
        }
        i = i + 1;
    }
    false
}

/// Whether `who` signed before the signature at `upto`.
fn signed_before(signatures: &Vec<(AuthorityId, H512)>, upto: usize, who: &AuthorityId) -> (r:
    bool)
    requires
        upto <= signatures@.len(),
    ensures
        r == !(forall|j: int| 0 <= j < upto ==> (#[trigger] signatures@[j]).0 != *who),
{
    let mut j: usize = 0;
    while j < upto
        invariant
            j <= upto <= signatures@.len(),
            forall|k: int| 0 <= k < j ==> (#[trigger] signatures@[k]).0 != *who,
        decreases upto - j,
    {
        proof {
            lemma_h256_by_bytes(signatures@[j as int].0, *who);
        }
        if signatures[j].0 == *who {
            return true;
        }
        j = j + 1;
    }
    false
}

/// Whether `have` signers are a supermajority of `of` authorities.
pub fn is_supermajority(have: usize, of: usize) -> (r: bool)
    ensures
        r == (have >= supermajority(of as nat)),
{
    let need: u128 = (2 * (of as u128) + 2) / 3 + 1;
    (have as u128) >= need
}

/// A justification that has passed the check. Only `check_justification`
/// makes one.
#[derive(Debug, PartialEq, Eq)]
pub struct Justification(UncheckedJustification);

impl View for Justification {
    type V = JustificationView;

    closed spec fn view(&self) -> JustificationView {
        self.0@
    }
}

impl Clone for Justification {
    fn clone(&self) -> (r: Self)
        ensures
            r@ == self@,
    {
        proof {
            use_type_invariant(self);
        }
        Justification(self.0.clone())
    }
}

/// Whether every signature is one of the commit message that the
/// justification names, each by another signer.
pub open spec fn well_signed(justification: JustificationView) -> bool {
    forall|i: int|
        0 <= i < justification.signatures.len() ==> #[trigger] signed_afresh(
            commit_message(justification.round_number, justification.parent_hash),
            justification.signatures,
            i,
        )
}

impl Justification {
    #[verifier::type_invariant]
    spec fn checked(&self) -> bool {
        well_signed(self.0@)
    }

    /// The justification as it was before the check.
    pub fn uncheck(self) -> (r: UncheckedJustification)
        ensures
            r@ == self@,
            well_signed(r@),
    {
        proof {
            use_type_invariant(&self);
        }
        self.0
    }

    /// The hash of the parent that the justification names.
    pub fn parent_hash(&self) -> (r: H256)
        ensures
            r == self@.parent_hash,
            well_signed(self@),
    {
        proof {
            use_type_invariant(self);
        }
        self.0.parent_hash
    }
}

/// Checks a justification for a block on `parent_hash` against the
/// authorities of that parent. A justification that passes comes back
/// checked; one that fails comes back as it was.
pub fn check_justification(
    authorities: &[AuthorityId],
    parent_hash: H256,
    justification: UncheckedJustification,
) -> (r: Result<Justification, UncheckedJustification>)
    ensures
        match r {
            Ok(checked) => justifies(authorities@, parent_hash, justification@) && checked@
                == justification@,
            Err(unchecked) => !justifies(authorities@, parent_hash, justification@)
                && unchecked == justification,
        },
{
    proof {
        lemma_h256_by_bytes(justification.parent_hash, parent_hash);
    }
    if !(justification.parent_hash == parent_hash) {
        return Err(justification);
    }
    let message = commit_message_bytes(justification.round_number, &justification.parent_hash);
    let mut i: usize = 0;
    while i < justification.signatures.len()
        invariant
            i <= justification.signatures@.len(),
            message@ == commit_message(justification.round_number, justification.parent_hash),
            forall|k: int|
                0 <= k < i ==> #[trigger] signer_counts(
                    authorities@,
                    message@,
                    justification.signatures@,
                    k,
                ),
        decreases justification.signatures@.len() - i,
    {
        let signer = justification.signatures[i].0;
        let signature = justification.signatures[i].1;
        let counts = is_authority(authorities, &signer) && verify_strict(
            &signature,
            message.as_slice(),
            &signer,
        ) && !signed_before(&justification.signatures, i, &signer);
        if !counts {
            proof {
                lemma_bad_signer(authorities@, parent_hash, justification@, i as int);
            }
            return Err(justification);
        }
        i = i + 1;
    }
    if !is_supermajority(justification.signatures.len(), authorities.len()) {
        return Err(justification);
    }
    proof {
        assert forall|k: int| 0 <= k < justification@.signatures.len() implies #[trigger]
            signed_afresh(
            commit_message(justification@.round_number, justification@.parent_hash),
            justification@.signatures,
            k,
        ) by {
            assert(signer_counts(authorities@, message@, justification.signatures@, k));
        }
    }
    Ok(Justification(justification))
}

/// What the agreement on blocks may be told in place of an authority set.
#[derive(Debug, PartialEq, Eq)]
pub enum Error {
    /// The state at this block could not give its authorities.
    StateUnavailable(BlockId),
}

/// Where the agreement on blocks hands the blocks that it has agreed on.
pub trait BlockImport {
    /// Imports the block.
    fn import_block(&mut self, block: Block, justification: Justification);
}

/// Where the agreement on blocks learns who the authorities are.
pub trait Authorities {
    /// The authorities in the state at a block.
    fn authorities(&self, at: &BlockId) -> Result<Vec<AuthorityId>, Error>;
}

} // verus!
