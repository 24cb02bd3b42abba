//! Ed25519 signature verification.

use crate::hash::{H256, H512};
use vstd::prelude::*;

verus! {

/// Whether `signature` is a valid Ed25519 signature of `message` under the
/// public key `public`, as the strict verification of the `ed25519-dalek`
/// crate decides it. False where `public` is not the encoding of a curve
/// point.
pub uninterp spec fn ed25519_verifies(
    signature: Seq<u8>,
    message: Seq<u8>,
    public: Seq<u8>,
) -> bool;

/// Calls `ed25519_dalek::VerifyingKey::verify_strict` on the key that
/// `VerifyingKey::from_bytes` makes of `public` and the signature that
/// `Signature::from_bytes` makes of `signature`. The contract names the
/// outcome; a key that does not decode counts as a failed verification.
#[verifier::external_body]
pub(crate) fn verify_strict(signature: &H512, message: &[u8], public: &H256) -> (ok: bool)
    ensures
        ok == ed25519_verifies(signature@, message@, public@),
{
    match ed25519_dalek::VerifyingKey::from_bytes(&public.0) {
        Ok(key) => key.verify_strict(
            message,
            &ed25519_dalek::Signature::from_bytes(&signature.0),
        ).is_ok(),
        Err(_) => false,
    }
}

} // verus!
