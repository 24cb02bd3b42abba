//! The block model: extrinsics, digests, headers and blocks, each with its
//! wire encoding.

use crate::codec::{
    bytes_encoding, concat_all, decode_bytes, decode_fixed, decode_sequence, decode_u32,
    decode_u64, items_encoding, le_bytes_u32, le_bytes_u64, lemma_bytes_round_trip,
    lemma_concat_all_push, lemma_fixed_round_trip, lemma_sequence_round_trip,
    lemma_u32_round_trip, lemma_u64_round_trip, put_bytes, put_raw, put_u32, put_u64, take_bytes,
    take_u32, take_u64, to_vec, Input, MAX_PREFIXED_LEN,
};
use crate::ed25519::{ed25519_verifies, verify_strict};
use crate::hash::{
    h256_of, h512_of, lemma_h256_by_bytes, lemma_h256_of_view, lemma_h512_by_bytes,
    lemma_h512_of_view, H256, H512,
};
use vstd::prelude::*;

verus! {

/// The account that signs an extrinsic, by its public key.
pub type AccountId = H256;

/// How many extrinsics an account has sent before.
pub type Index = u64;

/// The height of a block.
pub type BlockNumber = u64;

/// The signature of an extrinsic.
pub type Signature = H512;

/// A piece of data from outside the chain: who sends it, its place among that
/// sender's extrinsics, and the call it asks for.
#[derive(Debug, PartialEq, Eq)]
pub struct Extrinsic {
    /// Who signed it (note this is not a signature).
    pub signed: AccountId,
    /// The number of extrinsics that have come before from the same signer.
    pub index: Index,
    /// The function that should be called, as the runtime encodes it.
    pub function: Vec<u8>,
}

/// What an `Extrinsic` holds.
pub struct ExtrinsicView {
    pub signed: AccountId,
    pub index: Index,
    pub function: Seq<u8>,
}

impl View for Extrinsic {
    type V = ExtrinsicView;

    open spec fn view(&self) -> ExtrinsicView {
        ExtrinsicView { signed: self.signed, index: self.index, function: self.function@ }
    }
}

impl DeepView for Extrinsic {
    type V = ExtrinsicView;

    open spec fn deep_view(&self) -> ExtrinsicView {
        self@
    }
}

impl ExtrinsicView {
    /// The wire form: signer, index, call. It is also what the signer signs.
    pub open spec fn encoding(self) -> Seq<u8> {
        self.signed@ + le_bytes_u64(self.index) + bytes_encoding(self.function)
    }

    /// Decoding from the front of `s`.
    pub open spec fn decoding(s: Seq<u8>) -> Option<(ExtrinsicView, Seq<u8>)> {
        match decode_fixed(s, 32) {
            Some((signed, rest1)) => match decode_u64(rest1) {
                Some((index, rest2)) => match decode_bytes(rest2) {
                    Some((function, rest3)) => Some(
                        (ExtrinsicView { signed: h256_of(signed), index, function }, rest3),
                    ),
                    None => None,
                },
                None => None,
            },
            None => None,
        }
    }

    /// Whether the wire form can carry the value: the call fits its length
    /// prefix.
    pub open spec fn encodable(self) -> bool {
        self.function.len() <= MAX_PREFIXED_LEN
    }
}

/// An extrinsic is read back as it was written.
pub proof fn lemma_extrinsic_round_trip(x: ExtrinsicView, rest: Seq<u8>)
    requires
        x.encodable(),
    ensures
        ExtrinsicView::decoding(x.encoding() + rest) == Some((x, rest)),
        x.encoding().len() == 44 + x.function.len(),
{
    let rest2 = bytes_encoding(x.function) + rest;
    let rest1 = le_bytes_u64(x.index) + rest2;
    lemma_h256_by_bytes(x.signed, x.signed);
    lemma_h256_of_view(x.signed);
    lemma_fixed_round_trip(x.signed@, rest1);
    lemma_u64_round_trip(x.index, rest2);
    lemma_bytes_round_trip(x.function, rest);
    assert(x.encoding() + rest =~= x.signed@ + rest1);
}

impl Clone for Extrinsic {
    fn clone(&self) -> (r: Self)
        ensures
            r@ == self@,
    {
        Extrinsic {
            signed: self.signed,
            index: self.index,
            function: to_vec(self.function.as_slice()),
        }
    }
}

impl Extrinsic {
    /// Appends the wire form to `out`.
    pub fn put(&self, out: &mut Vec<u8>)
        ensures
            final(out)@ == old(out)@ + self@.encoding(),
    {
        self.signed.put(out);
        put_u64(out, self.index);
        put_bytes(out, self.function.as_slice());
        assert(out@ =~= old(out)@ + self@.encoding());
    }

    /// The wire form.
    pub fn encode(&self) -> (r: Vec<u8>)
        ensures
            r@ == self@.encoding(),
    {
        let mut out = Vec::new();
        self.put(&mut out);
        assert(out@ =~= self@.encoding());
        out
    }

    /// Reads an extrinsic from the front of the input.
    pub fn decode(input: &mut Input) -> (r: Option<Self>)
        ensures
            match r {
                Some(x) => ExtrinsicView::decoding(old(input).remaining()) == Some(
                    (x@, final(input).remaining()),
                ),
                None => ExtrinsicView::decoding(old(input).remaining()).is_none(),
            },
    {
        let signed = match H256::take(input) {
            Some(h) => h,
            None => { return None; },
        };
        let index = match take_u64(input) {
            Some(i) => i,
            None => { return None; },
        };
        let function = match take_bytes(input) {
            Some(b) => to_vec(b),
            None => { return None; },
        };
        proof {
            lemma_h256_of_view(signed);
        }
        Some(Extrinsic { signed, index, function })
    }
}

/// An extrinsic as it arrives: with a signature that nobody has checked yet.
#[derive(Debug, PartialEq, Eq)]
pub struct UncheckedExtrinsic {
    /// The actual extrinsic information.
    pub extrinsic: Extrinsic,
    /// The signature; an Ed25519 signature of the encoded `extrinsic` under
    /// the key `extrinsic.signed`.
    pub signature: Signature,
}

/// What an `UncheckedExtrinsic` holds.
pub struct UncheckedExtrinsicView {
    pub extrinsic: ExtrinsicView,
    pub signature: Signature,
}

impl View for UncheckedExtrinsic {
    type V = UncheckedExtrinsicView;

    open spec fn view(&self) -> UncheckedExtrinsicView {
        UncheckedExtrinsicView { extrinsic: self.extrinsic@, signature: self.signature }
    }
}

impl DeepView for UncheckedExtrinsic {
    type V = UncheckedExtrinsicView;

    open spec fn deep_view(&self) -> UncheckedExtrinsicView {
        self@
    }
}

impl UncheckedExtrinsicView {
    /// The wire form: the byte count of what follows as a 32-bit integer,
    /// then the extrinsic, then the signature. With the count in front the
    /// whole reads as a length-prefixed byte string.
    pub open spec fn encoding(self) -> Seq<u8> {
        bytes_encoding(self.extrinsic.encoding() + self.signature@)
    }

    /// Decoding from the front of `s`. The count in front is read and not
    /// used: the extrinsic and the signature say themselves where they end.
    pub open spec fn decoding(s: Seq<u8>) -> Option<(UncheckedExtrinsicView, Seq<u8>)> {
        match decode_u32(s) {
            Some((_, rest1)) => match ExtrinsicView::decoding(rest1) {
                Some((extrinsic, rest2)) => match decode_fixed(rest2, 64) {
                    Some((signature, rest3)) => Some(
                        (UncheckedExtrinsicView { extrinsic, signature: h512_of(signature) }, rest3),
                    ),
                    None => None,
                },
                None => None,
            },
            None => None,
        }
    }

    /// Whether the wire form can carry the value.
    pub open spec fn encodable(self) -> bool {
        self.extrinsic.encodable()
    }

    /// Whether the signature is one of the encoded extrinsic under the
    /// signer's key.
    pub open spec fn signature_valid(self) -> bool {
        ed25519_verifies(self.signature@, self.extrinsic.encoding(), self.extrinsic.signed@)
    }

    /// Whether a signature is attached: an unsigned extrinsic carries 64 zero
    /// bytes in its place.
    pub open spec fn signed(self) -> bool {
        exists|i: int| 0 <= i < 64 && self.signature@[i] != 0
    }
}

/// `UncheckedExtrinsicView::encoding` as a value.
pub open spec fn unchecked_encoder() -> spec_fn(UncheckedExtrinsicView) -> Seq<u8> {
    |x: UncheckedExtrinsicView| x.encoding()
}

/// `UncheckedExtrinsicView::decoding` as a value.
pub open spec fn unchecked_decoder() -> spec_fn(Seq<u8>) -> Option<
    (UncheckedExtrinsicView, Seq<u8>),
> {
    |s: Seq<u8>| UncheckedExtrinsicView::decoding(s)
}

/// An unchecked extrinsic is read back as it was written.
pub proof fn lemma_unchecked_extrinsic_round_trip(x: UncheckedExtrinsicView, rest: Seq<u8>)
    requires
        x.encodable(),
    ensures
        UncheckedExtrinsicView::decoding(x.encoding() + rest) == Some((x, rest)),
        x.encoding().len() == 112 + x.extrinsic.function.len(),
{
    let body = x.extrinsic.encoding() + x.signature@;
    let rest2 = x.signature@ + rest;
    let rest1 = x.extrinsic.encoding() + rest2;
    lemma_h512_by_bytes(x.signature, x.signature);
    lemma_h512_of_view(x.signature);
    lemma_extrinsic_round_trip(x.extrinsic, rest2);
    lemma_u32_round_trip(body.len() as u32, rest1);
    lemma_fixed_round_trip(x.signature@, rest);
    assert(x.encoding() + rest =~= le_bytes_u32(body.len() as u32) + rest1);
}

impl Clone for UncheckedExtrinsic {
    fn clone(&self) -> (r: Self)
        ensures
            r@ == self@,
    {
        UncheckedExtrinsic { extrinsic: self.extrinsic.clone(), signature: self.signature }
    }
}

impl UncheckedExtrinsic {
    /// Appends the wire form to `out`.
    pub fn put(&self, out: &mut Vec<u8>)
        ensures
            final(out)@ == old(out)@ + self@.encoding(),
    {
        let mut body = Vec::new();
        self.extrinsic.put(&mut body);
        self.signature.put(&mut body);
        assert(body@ =~= self@.extrinsic.encoding() + self@.signature@);
        put_bytes(out, body.as_slice());
    }

    /// The wire form.
    pub fn encode(&self) -> (r: Vec<u8>)
        ensures
            r@ == self@.encoding(),
    {
        let mut out = Vec::new();
        self.put(&mut out);
        assert(out@ =~= self@.encoding());
        out
    }

    /// Reads an unchecked extrinsic from the front of the input.
    pub fn decode(input: &mut Input) -> (r: Option<Self>)
        ensures
            match r {
                Some(x) => UncheckedExtrinsicView::decoding(old(input).remaining()) == Some(
                    (x@, final(input).remaining()),
                ),
                None => UncheckedExtrinsicView::decoding(old(input).remaining()).is_none(),
            },
    {
        let _length = match take_u32(input) {
            Some(n) => n,
            None => { return None; },
        };
        let extrinsic = match Extrinsic::decode(input) {
            Some(x) => x,
            None => { return None; },
        };
        let signature = match H512::take(input) {
            Some(s) => s,
            None => { return None; },
        };
        proof {
            lemma_h512_of_view(signature);
        }
        Some(UncheckedExtrinsic { extrinsic, signature })
    }

    /// Is this extrinsic signed?
    pub fn is_signed(&self) -> (r: bool)
        ensures
            r == self@.signed(),
    {
        let bytes = self.signature.as_bytes();
        let mut i: usize = 0;
        while i < 64
            invariant
                i <= 64,
                bytes@ == self.signature@,
                bytes@.len() == 64,
                forall|j: int| 0 <= j < i ==> bytes@[j] == 0,
            decreases 64 - i,
        {
            if bytes[i] != 0 {
                assert(self@.signature@[i as int] != 0);
                return true;
            }
            i = i + 1;
        }
        false
    }

    /// Verifies the signature. A valid one turns the extrinsic into a checked
    /// one; otherwise the extrinsic comes back as it was.
    pub fn check(self) -> (r: Result<CheckedExtrinsic, UncheckedExtrinsic>)
        ensures
            match r {
                Ok(checked) => self@.signature_valid() && checked@ == self@,
                Err(unchecked) => !self@.signature_valid() && unchecked@ == self@,
            },
    {
        let message = self.extrinsic.encode();
        let sig_ok = verify_strict(&self.signature, message.as_slice(), &self.extrinsic.signed);
        if sig_ok {
            Ok(CheckedExtrinsic(self))
        } else {
            Err(self)
        }
    }
}

/// An extrinsic whose signature has been verified. Only
/// `UncheckedExtrinsic::check` makes one.
#[derive(Debug, PartialEq, Eq)]
pub struct CheckedExtrinsic(UncheckedExtrinsic);

/// What a call is handed to: the runtime's dispatch.
pub trait Dispatcher {
    /// Carries out `function` on behalf of `sender`.
    fn dispatch(&mut self, function: &[u8], sender: &AccountId);
}

impl View for CheckedExtrinsic {
    type V = UncheckedExtrinsicView;

    closed spec fn view(&self) -> UncheckedExtrinsicView {
        self.0@
    }
}

impl Clone for CheckedExtrinsic {
    fn clone(&self) -> (r: Self)
        ensures
            r@ == self@,
    {
        proof {
            use_type_invariant(self);
        }
        CheckedExtrinsic(self.0.clone())
    }
}

impl CheckedExtrinsic {
    #[verifier::type_invariant]
    spec fn verified(&self) -> bool {
        self.0@.signature_valid()
    }

    /// Get a reference to the checked signature. It is valid for the
    /// extrinsic that this value holds.
    pub fn signature(&self) -> (r: &Signature)
        ensures
            *r == self@.signature,
            self@.signature_valid(),
    {
        proof {
            use_type_invariant(self);
        }
        &self.0.signature
    }

    /// Get a reference to the extrinsic as it was before the check.
    pub fn as_unchecked(&self) -> (r: &UncheckedExtrinsic)
        ensures
            r@ == self@,
            self@.signature_valid(),
    {
        proof {
            use_type_invariant(self);
        }
        &self.0
    }

    /// Give up the check and get the extrinsic back.
    pub fn into_unchecked(self) -> (r: UncheckedExtrinsic)
        ensures
            r@ == self@,
            self@.signature_valid(),
    {
        proof {
            use_type_invariant(&self);
        }
        self.0
    }

    /// The extrinsic that the signature vouches for.
    pub fn deref(&self) -> (r: &Extrinsic)
        ensures
            r@ == self@.extrinsic,
    {
        &self.0.extrinsic
    }

    /// The place of the extrinsic among those of its sender.
    pub fn index(&self) -> (r: &Index)
        ensures
            *r == self@.extrinsic.index,
    {
        &self.0.extrinsic.index
    }

    /// The account that sent the extrinsic.
    pub fn sender(&self) -> (r: &AccountId)
        ensures
            *r == self@.extrinsic.signed,
    {
        &self.0.extrinsic.signed
    }

    /// Hands the call to the dispatcher, on behalf of the sender: the
    /// dispatcher is asked once, for the call of this extrinsic and its
    /// signer.
    pub fn apply<D: Dispatcher>(self, dispatcher: &mut D)
        ensures
            exists|through: &mut D, function: &[u8], sender: &AccountId|
                #[trigger] call_ensures(D::dispatch, (through, function, sender), ())
                    && *through == *old(dispatcher) && *final(through) == *final(dispatcher)
                    && function@ == self@.extrinsic.function && *sender
                    == self@.extrinsic.signed,
    {
        let xt = self.0.extrinsic;
        dispatcher.dispatch(xt.function.as_slice(), &xt.signed);
    }
}

/// A chain-specific list of opaque log items attached to a header.
#[derive(Debug, PartialEq, Eq, Default)]
pub struct Digest {
    /// The items, in the order in which they were pushed.
    pub logs: Vec<Vec<u8>>,
}

impl View for Digest {
    type V = Seq<Seq<u8>>;

    open spec fn view(&self) -> Seq<Seq<u8>> {
        self.logs.deep_view()
    }
}

impl DeepView for Digest {
    type V = Seq<Seq<u8>>;

    open spec fn deep_view(&self) -> Seq<Seq<u8>> {
        self@
    }
}

/// Whether the wire form can carry the digest: every item and the whole
/// payload fit their length prefixes.
pub open spec fn digest_encodable(logs: Seq<Seq<u8>>) -> bool {
    &&& forall|i: int| 0 <= i < logs.len() ==> (#[trigger] logs[i]).len() <= MAX_PREFIXED_LEN
    &&& concat_all(logs.map_values(crate::codec::bytes_encoder())).len() <= MAX_PREFIXED_LEN
}

/// A digest is read back as it was written.
pub proof fn lemma_digest_round_trip(logs: Seq<Seq<u8>>, rest: Seq<u8>)
    requires
        digest_encodable(logs),
    ensures
        crate::codec::decode_items(items_encoding(logs) + rest) == Some((logs, rest)),
{
    crate::codec::lemma_items_round_trip(logs, rest);
}

impl Clone for Digest {
    fn clone(&self) -> (r: Self)
        ensures
            r@ == self@,
    {
        let mut logs: Vec<Vec<u8>> = Vec::new();
        let mut i: usize = 0;
        assert(logs.deep_view() =~= self@.take(0));
        while i < self.logs.len()
            invariant
                i <= self.logs@.len(),
                logs.deep_view() == self@.take(i as int),
            decreases self.logs@.len() - i,
        {
            let item = to_vec(self.logs[i].as_slice());
            proof {
                crate::codec::lemma_bytes_deep_view(item);
                crate::codec::lemma_bytes_deep_view(self.logs[i as int]);
            }
            logs.push(item);
            i = i + 1;
            assert(logs.deep_view() =~= self@.take(i - 1).push(self.logs[i - 1]@));
            assert(logs.deep_view() =~= self@.take(i as int));
        }
        assert(self@.take(self.logs@.len() as int) =~= self@);
        Digest { logs }
    }
}

impl Digest {
    /// A digest without items.
    pub fn new() -> (r: Self)
        ensures
            r@ == Seq::<Seq<u8>>::empty(),
    {
        let r = Digest { logs: Vec::new() };
        assert(r@ =~= Seq::<Seq<u8>>::empty());
        r
    }

    /// Adds an item at the end.
    pub fn push(&mut self, item: Vec<u8>)
        ensures
            final(self)@ == old(self)@.push(item@),
    {
        proof {
            crate::codec::lemma_bytes_deep_view(item);
        }
        self.logs.push(item);
        assert(self@ =~= old(self)@.push(item@));
    }

    /// The wire form: the items as a sequence of byte strings.
    pub fn encode(&self) -> (r: Vec<u8>)
        ensures
            r@ == items_encoding(self@),
    {
        crate::codec::encode_items(&self.logs)
    }

    /// Hands the wire form to `f` and returns what `f` returns.
    pub fn using_encoded<R, F: FnOnce(&[u8]) -> R>(&self, f: F) -> (r: R)
        requires
            forall|bytes: &[u8]| bytes@ == items_encoding(self@) ==> f.requires((bytes,)),
        ensures
            exists|bytes: &[u8]| bytes@ == items_encoding(self@) && f.ensures((bytes,), r),
    {
        let encoded = self.encode();
        f(encoded.as_slice())
    }

    /// Reads a digest from the front of the input.
    pub fn decode(input: &mut Input) -> (r: Option<Self>)
        ensures
            match r {
                Some(d) => crate::codec::decode_items(old(input).remaining()) == Some(
                    (d@, final(input).remaining()),
                ),
                None => crate::codec::decode_items(old(input).remaining()).is_none(),
            },
    {
        match crate::codec::take_items(input) {
            Some(logs) => Some(Digest { logs }),
            None => None,
        }
    }
}

/// The header of a block.
#[derive(Debug, PartialEq, Eq)]
pub struct Header {
    /// The parent hash.
    pub parent_hash: H256,
    /// The block number.
    pub number: BlockNumber,
    /// The state trie merkle root
    pub state_root: H256,
    /// The merkle root of the extrinsics.
    pub extrinsics_root: H256,
    /// A chain-specific digest of data useful for light clients or
    /// referencing auxiliary data.
    pub digest: Digest,
}

/// What a `Header` holds.
pub struct HeaderView {
    pub parent_hash: H256,
    pub number: BlockNumber,
    pub state_root: H256,
    pub extrinsics_root: H256,
    pub digest: Seq<Seq<u8>>,
}

impl View for Header {
    type V = HeaderView;

    open spec fn view(&self) -> HeaderView {
        HeaderView {
            parent_hash: self.parent_hash,
            number: self.number,
            state_root: self.state_root,
            extrinsics_root: self.extrinsics_root,
            digest: self.digest@,
        }
    }
}

impl DeepView for Header {
    type V = HeaderView;

    open spec fn deep_view(&self) -> HeaderView {
        self@
    }
}

impl HeaderView {
    /// The wire form: parent hash, number, state root, extrinsics root,
    /// digest.
    pub open spec fn encoding(self) -> Seq<u8> {
        self.parent_hash@ + le_bytes_u64(self.number) + self.state_root@ + self.extrinsics_root@
            + items_encoding(self.digest)
    }

    /// Decoding from the front of `s`.
    pub open spec fn decoding(s: Seq<u8>) -> Option<(HeaderView, Seq<u8>)> {
        match decode_fixed(s, 32) {
            Some((parent_hash, rest1)) => match decode_u64(rest1) {
                Some((number, rest2)) => match decode_fixed(rest2, 32) {
                    Some((state_root, rest3)) => match decode_fixed(rest3, 32) {
                        Some((extrinsics_root, rest4)) => match crate::codec::decode_items(rest4) {
                            Some((digest, rest5)) => Some(
                                (
                                    HeaderView {
                                        parent_hash: h256_of(parent_hash),
                                        number,
                                        state_root: h256_of(state_root),
                                        extrinsics_root: h256_of(extrinsics_root),
                                        digest,
                                    },
                                    rest5,
                                ),
                            ),
                            None => None,
                        },
                        None => None,
                    },
                    None => None,
                },
                None => None,
            },
            None => None,
        }
    }

    /// Whether the wire form can carry the value.
    pub open spec fn encodable(self) -> bool {
        digest_encodable(self.digest)
    }

    /// The identity of the header, and of its block: the hash of the wire
    /// form.
    pub open spec fn hash(self) -> H256 {
        crate::hash::hash_of(self.encoding())
    }
}

/// A header is read back as it was written.
pub proof fn lemma_header_round_trip(h: HeaderView, rest: Seq<u8>)
    requires
        h.encodable(),
    ensures
        HeaderView::decoding(h.encoding() + rest) == Some((h, rest)),
{
    let rest4 = items_encoding(h.digest) + rest;
    let rest3 = h.extrinsics_root@ + rest4;
    let rest2 = h.state_root@ + rest3;
    let rest1 = le_bytes_u64(h.number) + rest2;
    lemma_digest_round_trip(h.digest, rest);
    lemma_h256_by_bytes(h.parent_hash, h.parent_hash);
    lemma_h256_by_bytes(h.state_root, h.state_root);
    lemma_h256_by_bytes(h.extrinsics_root, h.extrinsics_root);
    lemma_h256_of_view(h.parent_hash);
    lemma_h256_of_view(h.state_root);
    lemma_h256_of_view(h.extrinsics_root);
    lemma_fixed_round_trip(h.parent_hash@, rest1);
    lemma_u64_round_trip(h.number, rest2);
    lemma_fixed_round_trip(h.state_root@, rest3);
    lemma_fixed_round_trip(h.extrinsics_root@, rest4);
    assert(h.encoding() + rest =~= h.parent_hash@ + rest1);
}

impl Clone for Header {
    fn clone(&self) -> (r: Self)
        ensures
            r@ == self@,
    {
        Header {
            parent_hash: self.parent_hash,
            number: self.number,
            state_root: self.state_root,
            extrinsics_root: self.extrinsics_root,
            digest: self.digest.clone(),
        }
    }
}

impl Header {
    /// A header of the given parts.
    pub fn new(
        number: BlockNumber,
        extrinsics_root: H256,
        state_root: H256,
        parent_hash: H256,
        digest: Digest,
    ) -> (r: Self)
        ensures
            r.number == number,
            r.extrinsics_root == extrinsics_root,
            r.state_root == state_root,
            r.parent_hash == parent_hash,
            r.digest == digest,
    {
        Header { number, extrinsics_root, state_root, parent_hash, digest }
    }

    /// The block number.
    pub fn number(&self) -> (r: &BlockNumber)
        ensures
            *r == self.number,
    {
        &self.number
    }

    /// Sets the block number.
    pub fn set_number(&mut self, num: BlockNumber)
        ensures
            *final(self) == (Header { number: num, ..*old(self) }),
    {
        self.number = num
    }

    /// The merkle root of the extrinsics.
    pub fn extrinsics_root(&self) -> (r: &H256)
        ensures
            *r == self.extrinsics_root,
    {
        &self.extrinsics_root
    }

    /// Sets the merkle root of the extrinsics.
    pub fn set_extrinsics_root(&mut self, root: H256)
        ensures
            *final(self) == (Header { extrinsics_root: root, ..*old(self) }),
    {
        self.extrinsics_root = root
    }

    /// The state trie merkle root.
    pub fn state_root(&self) -> (r: &H256)
        ensures
            *r == self.state_root,
    {
        &self.state_root
    }

    /// Sets the state trie merkle root.
    pub fn set_state_root(&mut self, root: H256)
        ensures
            *final(self) == (Header { state_root: root, ..*old(self) }),
    {
        self.state_root = root
    }

    /// The parent hash.
    pub fn parent_hash(&self) -> (r: &H256)
        ensures
            *r == self.parent_hash,
    {
        &self.parent_hash
    }

    /// Sets the parent hash.
    pub fn set_parent_hash(&mut self, hash: H256)
        ensures
            *final(self) == (Header { parent_hash: hash, ..*old(self) }),
    {
        self.parent_hash = hash
    }

    /// The digest.
    pub fn digest(&self) -> (r: &Digest)
        ensures
            *r == self.digest,
    {
        &self.digest
    }

    /// Sets the digest.
    pub fn set_digest(&mut self, digest: Digest)
        ensures
            *final(self) == (Header { digest, ..*old(self) }),
    {
        self.digest = digest
    }

    /// Appends the wire form to `out`.
    pub fn put(&self, out: &mut Vec<u8>)
        ensures
            final(out)@ == old(out)@ + self@.encoding(),
    {
        self.parent_hash.put(out);
        put_u64(out, self.number);
        self.state_root.put(out);
        self.extrinsics_root.put(out);
        let digest = self.digest.encode();
        put_raw(out, digest.as_slice());
        assert(out@ =~= old(out)@ + self@.encoding());
    }

    /// The wire form.
    pub fn encode(&self) -> (r: Vec<u8>)
        ensures
            r@ == self@.encoding(),
    {
        let mut out = Vec::new();
        self.put(&mut out);
        assert(out@ =~= self@.encoding());
        out
    }

    /// Reads a header from the front of the input.
    pub fn decode(input: &mut Input) -> (r: Option<Self>)
        ensures
            match r {
                Some(h) => HeaderView::decoding(old(input).remaining()) == Some(
                    (h@, final(input).remaining()),
                ),
                None => HeaderView::decoding(old(input).remaining()).is_none(),
            },
    {
        let parent_hash = match H256::take(input) {
            Some(h) => h,
            None => { return None; },
        };
        let number = match take_u64(input) {
            Some(n) => n,
            None => { return None; },
        };
        let state_root = match H256::take(input) {
            Some(h) => h,
            None => { return None; },
        };
        let extrinsics_root = match H256::take(input) {
            Some(h) => h,
            None => { return None; },
        };
        let digest = match Digest::decode(input) {
            Some(d) => d,
            None => { return None; },
        };
        proof {
            lemma_h256_of_view(parent_hash);
            lemma_h256_of_view(state_root);
            lemma_h256_of_view(extrinsics_root);
        }
        Some(Header { parent_hash, number, state_root, extrinsics_root, digest })
    }

    /// The identity of the header: the hash of its wire form.
    pub fn hash(&self) -> (r: H256)
        ensures
            r == self@.hash(),
    {
        let encoded = self.encode();
        crate::hash::hash(encoded.as_slice())
    }
}

/// Something to identify a block.
#[derive(Debug, PartialEq, Eq, Clone, Copy)]
pub enum BlockId {
    /// Identify by block header hash.
    Hash(H256),
    /// Identify by block number.
    Number(BlockNumber),
}

/// A block: a header and the extrinsics it commits to.
#[derive(Debug, PartialEq, Eq)]
pub struct Block {
    /// The block header.
    pub header: Header,
    /// The accompanying extrinsics.
    pub extrinsics: Vec<UncheckedExtrinsic>,
}

/// What a `Block` holds.
pub struct BlockView {
    pub header: HeaderView,
    pub extrinsics: Seq<UncheckedExtrinsicView>,
}

impl View for Block {
    type V = BlockView;

    open spec fn view(&self) -> BlockView {
        BlockView { header: self.header@, extrinsics: self.extrinsics.deep_view() }
    }
}

impl DeepView for Block {
    type V = BlockView;

    open spec fn deep_view(&self) -> BlockView {
        self@
    }
}

/// The wire form of a body: the byte length of the payload, then every
/// extrinsic in order.
pub open spec fn extrinsics_encoding(extrinsics: Seq<UncheckedExtrinsicView>) -> Seq<u8> {
    bytes_encoding(concat_all(extrinsics.map_values(unchecked_encoder())))
}

/// Decoding of a body from the front of `s`.
pub open spec fn decode_extrinsics(s: Seq<u8>) -> Option<(Seq<UncheckedExtrinsicView>, Seq<u8>)> {
    match decode_bytes(s) {
        Some((payload, rest)) => match decode_sequence(payload, unchecked_decoder()) {
            Some(extrinsics) => Some((extrinsics, rest)),
            None => None,
        },
        None => None,
    }
}

/// Whether the wire form can carry the body.
pub open spec fn extrinsics_encodable(extrinsics: Seq<UncheckedExtrinsicView>) -> bool {
    &&& forall|i: int| 0 <= i < extrinsics.len() ==> (#[trigger] extrinsics[i]).encodable()
    &&& concat_all(extrinsics.map_values(unchecked_encoder())).len() <= MAX_PREFIXED_LEN
}

/// A body is read back as it was written.
pub proof fn lemma_extrinsics_round_trip(extrinsics: Seq<UncheckedExtrinsicView>, rest: Seq<u8>)
    requires
        extrinsics_encodable(extrinsics),
    ensures
        decode_extrinsics(extrinsics_encoding(extrinsics) + rest) == Some((extrinsics, rest)),
{
    let encode = unchecked_encoder();
    let item = unchecked_decoder();
    let payload = concat_all(extrinsics.map_values(encode));
    assert forall|i: int, r: Seq<u8>| 0 <= i < extrinsics.len() implies #[trigger] item(
        encode(extrinsics[i]) + r,
    ) == Some((extrinsics[i], r)) by {
        lemma_unchecked_extrinsic_round_trip(extrinsics[i], r);
    }
    assert forall|i: int| 0 <= i < extrinsics.len() implies (#[trigger] encode(
        extrinsics[i],
    )).len() > 0 by {
        lemma_unchecked_extrinsic_round_trip(extrinsics[i], Seq::empty());
    }
    lemma_sequence_round_trip(extrinsics, encode, item);
    lemma_bytes_round_trip(payload, rest);
}

impl BlockView {
    /// The wire form: the header, then the body.
    pub open spec fn encoding(self) -> Seq<u8> {
        self.header.encoding() + extrinsics_encoding(self.extrinsics)
    }

    /// Decoding from the front of `s`.
    pub open spec fn decoding(s: Seq<u8>) -> Option<(BlockView, Seq<u8>)> {
        match HeaderView::decoding(s) {
            Some((header, rest1)) => match decode_extrinsics(rest1) {
                Some((extrinsics, rest2)) => Some((BlockView { header, extrinsics }, rest2)),
                None => None,
            },
            None => None,
        }
    }

    /// Whether the wire form can carry the value.
    pub open spec fn encodable(self) -> bool {
        self.header.encodable() && extrinsics_encodable(self.extrinsics)
    }
}

/// A block is read back as it was written.
pub proof fn lemma_block_round_trip(b: BlockView, rest: Seq<u8>)
    requires
        b.encodable(),
    ensures
        BlockView::decoding(b.encoding() + rest) == Some((b, rest)),
{
    let rest1 = extrinsics_encoding(b.extrinsics) + rest;
    lemma_header_round_trip(b.header, rest1);
    lemma_extrinsics_round_trip(b.extrinsics, rest);
    assert(b.encoding() + rest =~= b.header.encoding() + rest1);
}

/// A copy of the extrinsics.
pub fn clone_extrinsics(extrinsics: &Vec<UncheckedExtrinsic>) -> (r: Vec<UncheckedExtrinsic>)
    ensures
        r.deep_view() == extrinsics.deep_view(),
{
    let mut out: Vec<UncheckedExtrinsic> = Vec::new();
    let mut i: usize = 0;
    assert(out.deep_view() =~= extrinsics.deep_view().take(0));
    while i < extrinsics.len()
        invariant
            i <= extrinsics@.len(),
            out.deep_view() == extrinsics.deep_view().take(i as int),
        decreases extrinsics@.len() - i,
    {
        let x = extrinsics[i].clone();
        let ghost before = out.deep_view();
        out.push(x);
        i = i + 1;
        assert(out.deep_view() =~= before.push(x@));
        assert(out.deep_view() =~= extrinsics.deep_view().take(i as int));
    }
    assert(extrinsics.deep_view().take(extrinsics@.len() as int) =~= extrinsics.deep_view());
    out
}

/// The wire form of a body.
pub fn encode_extrinsics(extrinsics: &Vec<UncheckedExtrinsic>) -> (r: Vec<u8>)
    ensures
        r@ == extrinsics_encoding(extrinsics.deep_view()),
{
    let ghost encode = unchecked_encoder();
    let mut payload: Vec<u8> = Vec::new();
    let mut i: usize = 0;
    assert(extrinsics.deep_view().take(0).map_values(encode) =~= Seq::<Seq<u8>>::empty());
    while i < extrinsics.len()
        invariant
            i <= extrinsics@.len(),
            encode == unchecked_encoder(),
            payload@ == concat_all(extrinsics.deep_view().take(i as int).map_values(encode)),
        decreases extrinsics@.len() - i,
    {
        let ghost before = extrinsics.deep_view().take(i as int).map_values(encode);
        extrinsics[i].put(&mut payload);
        i = i + 1;
        proof {
            assert(extrinsics.deep_view().take(i as int).map_values(encode) =~= before.push(
                extrinsics[i - 1]@.encoding(),
            ));
            lemma_concat_all_push(before, extrinsics[i - 1]@.encoding());
        }
    }
    assert(extrinsics.deep_view().take(extrinsics@.len() as int) =~= extrinsics.deep_view());
    crate::codec::encode_bytes(payload.as_slice())
}

/// Reads a body from the front of the input.
pub fn take_extrinsics(input: &mut Input) -> (r: Option<Vec<UncheckedExtrinsic>>)
    ensures
        match r {
            Some(extrinsics) => decode_extrinsics(old(input).remaining()) == Some(
                (extrinsics.deep_view(), final(input).remaining()),
            ),
            None => decode_extrinsics(old(input).remaining()).is_none(),
        },
{
    let payload = match take_bytes(input) {
        Some(p) => p,
        None => { return None; },
    };
    let ghost item = unchecked_decoder();
    let mut inner = Input::new(payload);
    let mut extrinsics: Vec<UncheckedExtrinsic> = Vec::new();
    assert(extrinsics.deep_view() =~= Seq::<UncheckedExtrinsicView>::empty());
    while inner.remaining_len() > 0
        invariant
            item == unchecked_decoder(),
            decode_bytes(old(input).remaining()) == Some((payload@, input.remaining())),
            decode_sequence(payload@, item) == match decode_sequence(inner.remaining(), item) {
                Some(tail) => Some(extrinsics.deep_view() + tail),
                None => None,
            },
        decreases inner.remaining().len(),
    {
        let ghost before = inner.remaining();
        let ghost done = extrinsics.deep_view();
        match UncheckedExtrinsic::decode(&mut inner) {
            Some(x) => {
                let ghost xv = x@;
                extrinsics.push(x);
                proof {
                    assert(item(before) == UncheckedExtrinsicView::decoding(before));
                    assert(extrinsics.deep_view() =~= done.push(xv));
                    assert(inner.remaining().len() < before.len());
                    match decode_sequence(inner.remaining(), item) {
                        Some(tail) => {
                            assert(done + (seq![xv] + tail) =~= done.push(xv) + tail);
                        },
                        None => {},
                    }
                }
            },
            None => {
                proof {
                    assert(item(before) == UncheckedExtrinsicView::decoding(before));
                    assert(decode_sequence(before, item).is_none());
                }
                return None;
            },
        }
    }
    assert(extrinsics.deep_view() + Seq::<UncheckedExtrinsicView>::empty()
        =~= extrinsics.deep_view());
    Some(extrinsics)
}

impl Clone for Block {
    fn clone(&self) -> (r: Self)
        ensures
            r@ == self@,
    {
        Block { header: self.header.clone(), extrinsics: clone_extrinsics(&self.extrinsics) }
    }
}

impl Block {
    /// A block of the given header and extrinsics.
    pub fn new(header: Header, extrinsics: Vec<UncheckedExtrinsic>) -> (r: Self)
        ensures
            r.header == header,
            r.extrinsics == extrinsics,
    {
        Block { header, extrinsics }
    }

    /// The header.
    pub fn header(&self) -> (r: &Header)
        ensures
            *r == self.header,
    {
        &self.header
    }

    /// The extrinsics.
    pub fn extrinsics(&self) -> (r: &[UncheckedExtrinsic])
        ensures
            r@ == self.extrinsics@,
    {
        self.extrinsics.as_slice()
    }

    /// Takes the block apart.
    pub fn deconstruct(self) -> (r: (Header, Vec<UncheckedExtrinsic>))
        ensures
            r.0 == self.header,
            r.1 == self.extrinsics,
    {
        (self.header, self.extrinsics)
    }

    /// The wire form.
    pub fn encode(&self) -> (r: Vec<u8>)
        ensures
            r@ == self@.encoding(),
    {
        let mut out = Vec::new();
        self.header.put(&mut out);
        let body = encode_extrinsics(&self.extrinsics);
        put_raw(&mut out, body.as_slice());
        assert(out@ =~= self@.encoding());
        out
    }

    /// Reads a block from the front of the input.
    pub fn decode(input: &mut Input) -> (r: Option<Self>)
        ensures
            match r {
                Some(b) => BlockView::decoding(old(input).remaining()) == Some(
                    (b@, final(input).remaining()),
                ),
                None => BlockView::decoding(old(input).remaining()).is_none(),
            },
    {
        let header = match Header::decode(input) {
            Some(h) => h,
            None => { return None; },
        };
        let extrinsics = match take_extrinsics(input) {
            Some(x) => x,
            None => { return None; },
        };
        Some(Block { header, extrinsics })
    }
}

} // verus!
