//! Fixed-width hashes, their hexadecimal form, and the BLAKE2b-256 digest.

use crate::codec::{bytes_eq, decode_fixed, put_raw, Input};
use vstd::prelude::*;

verus! {

/// A 32-byte value: a block hash, a Merkle root or a public key.
#[derive(Clone, Copy, Debug, Hash)]
pub struct H256(pub [u8; 32]);

/// A 64-byte value: a signature.
#[derive(Clone, Copy, Debug, Hash)]
pub struct H512(pub [u8; 64]);

impl View for H256 {
    type V = Seq<u8>;

    open spec fn view(&self) -> Seq<u8> {
        self.0@
    }
}

impl DeepView for H256 {
    type V = Seq<u8>;

    open spec fn deep_view(&self) -> Seq<u8> {
        self.0@
    }
}

impl View for H512 {
    type V = Seq<u8>;

    open spec fn view(&self) -> Seq<u8> {
        self.0@
    }
}

impl DeepView for H512 {
    type V = Seq<u8>;

    open spec fn deep_view(&self) -> Seq<u8> {
        self.0@
    }
}

impl PartialEq for H256 {
    fn eq(&self, other: &Self) -> (r: bool) {
        bytes_eq(self.0.as_slice(), other.0.as_slice())
    }
}

impl vstd::std_specs::cmp::PartialEqSpecImpl for H256 {
    open spec fn obeys_eq_spec() -> bool {
        true
    }

    open spec fn eq_spec(&self, other: &Self) -> bool {
        self.0@ == other.0@
    }
}

impl Eq for H256 {

}

impl PartialEq for H512 {
    fn eq(&self, other: &Self) -> (r: bool) {
        bytes_eq(self.0.as_slice(), other.0.as_slice())
    }
}

impl vstd::std_specs::cmp::PartialEqSpecImpl for H512 {
    open spec fn obeys_eq_spec() -> bool {
        true
    }

    open spec fn eq_spec(&self, other: &Self) -> bool {
        self.0@ == other.0@
    }
}

impl Eq for H512 {

}

/// Two hashes with the same bytes are the same hash.
pub proof fn lemma_h256_by_bytes(a: H256, b: H256)
    ensures
        a@.len() == 32,
        (a@ == b@) <==> (a == b),
{
    broadcast use vstd::array::group_array_axioms;

    if a@ == b@ {
        assert(a.0 =~= b.0);
    }
}

/// Two signatures with the same bytes are the same signature.
pub proof fn lemma_h512_by_bytes(a: H512, b: H512)
    ensures
        a@.len() == 64,
        (a@ == b@) <==> (a == b),
{
    broadcast use vstd::array::group_array_axioms;

    if a@ == b@ {
        assert(a.0 =~= b.0);
    }
}

/// The hash whose bytes are `bytes`, for `bytes` of length 32.
pub open spec fn h256_of(bytes: Seq<u8>) -> H256 {
    choose|h: H256| h@ == bytes
}

/// The signature whose bytes are `bytes`, for `bytes` of length 64.
pub open spec fn h512_of(bytes: Seq<u8>) -> H512 {
    choose|h: H512| h@ == bytes
}

/// A hash is the hash of its bytes.
pub proof fn lemma_h256_of_view(h: H256)
    ensures
        h256_of(h@) == h,
{
    lemma_h256_by_bytes(h256_of(h@), h);
}

/// A signature is the signature of its bytes.
pub proof fn lemma_h512_of_view(h: H512)
    ensures
        h512_of(h@) == h,
{
    lemma_h512_by_bytes(h512_of(h@), h);
}

impl Default for H256 {
    fn default() -> (r: H256)
        ensures
            r == H256::zero_spec(),
    {
        H256::zero()
    }
}

impl H256 {
    /// The hash of 32 zero bytes.
    pub open spec fn zero_spec() -> H256 {
        h256_of(Seq::new(32, |i: int| 0u8))
    }

    /// The hash of 32 zero bytes.
    pub fn zero() -> (r: H256)
        ensures
            r == Self::zero_spec(),
            forall|i: int| 0 <= i < 32 ==> r@[i] == 0,
    {
        let r = H256([0u8;32]);
        proof {
            broadcast use vstd::array::group_array_axioms;

            assert(r@ =~= Seq::new(32, |i: int| 0u8));
            lemma_h256_of_view(r);
        }
        r
    }

    /// The bytes of the hash.
    pub fn as_bytes(&self) -> (r: &[u8])
        ensures
            r@ == self@,
            r@.len() == 32,
    {
        proof {
            broadcast use vstd::array::group_array_axioms;

        }
        self.0.as_slice()
    }

    /// The hash with the bytes of `bytes`, if there are 32 of them.
    pub fn from_slice(bytes: &[u8]) -> (r: Option<H256>)
        ensures
            match r {
                Some(h) => h@ == bytes@,
                None => bytes@.len() != 32,
            },
    {
        if bytes.len() != 32 {
            return None;
        }
        let mut out = [0u8;32];
        let mut i: usize = 0;
        while i < 32
            invariant
                i <= 32,
                bytes@.len() == 32,
                out@.len() == 32,
                forall|j: int| 0 <= j < i ==> out@[j] == bytes@[j],
            decreases 32 - i,
        {
            out[i] = bytes[i];
            i = i + 1;
        }
        assert(out@ =~= bytes@);
        Some(H256(out))
    }

    /// Appends the 32 bytes to `out`.
    pub fn put(&self, out: &mut Vec<u8>)
        ensures
            final(out)@ == old(out)@ + self@,
    {
        put_raw(out, self.as_bytes());
    }

    /// Reads 32 bytes as a hash.
    pub fn take(input: &mut Input) -> (r: Option<H256>)
        ensures
            match r {
                Some(h) => decode_fixed(old(input).remaining(), 32) == Some(
                    (h@, final(input).remaining()),
                ),
                None => decode_fixed(old(input).remaining(), 32).is_none(),
            },
    {
        match input.read(32) {
            Some(b) => Self::from_slice(b),
            None => None,
        }
    }

    /// The hash in lower-case hexadecimal, two digits a byte.
    pub fn to_hex(&self) -> (r: String)
        ensures
            r@ == hex_string(self@),
    {
        to_hex(self.as_bytes())
    }
}

impl H512 {
    /// The bytes of the signature.
    pub fn as_bytes(&self) -> (r: &[u8])
        ensures
            r@ == self@,
            r@.len() == 64,
    {
        proof {
            broadcast use vstd::array::group_array_axioms;

        }
        self.0.as_slice()
    }

    /// The signature with the bytes of `bytes`, if there are 64 of them.
    pub fn from_slice(bytes: &[u8]) -> (r: Option<H512>)
        ensures
            match r {
                Some(h) => h@ == bytes@,
                None => bytes@.len() != 64,
            },
    {
        if bytes.len() != 64 {
            return None;
        }
        let mut out = [0u8;64];
        let mut i: usize = 0;
        while i < 64
            invariant
                i <= 64,
                bytes@.len() == 64,
                out@.len() == 64,
                forall|j: int| 0 <= j < i ==> out@[j] == bytes@[j],
            decreases 64 - i,
        {
            out[i] = bytes[i];
            i = i + 1;
        }
        assert(out@ =~= bytes@);
        Some(H512(out))
    }

    /// Appends the 64 bytes to `out`.
    pub fn put(&self, out: &mut Vec<u8>)
        ensures
            final(out)@ == old(out)@ + self@,
    {
        put_raw(out, self.as_bytes());
    }

    /// Reads 64 bytes as a signature.
    pub fn take(input: &mut Input) -> (r: Option<H512>)
        ensures
            match r {
                Some(h) => decode_fixed(old(input).remaining(), 64) == Some(
                    (h@, final(input).remaining()),
                ),
                None => decode_fixed(old(input).remaining(), 64).is_none(),
            },
    {
        match input.read(64) {
            Some(b) => Self::from_slice(b),
            None => None,
        }
    }
}

/// The hexadecimal digit of a number below 16.
pub open spec fn hex_char(n: u8) -> char {
    if n == 0 {
        '0'
    } else if n == 1 {
        '1'
    } else if n == 2 {
        '2'
    } else if n == 3 {
        '3'
    } else if n == 4 {
        '4'
    } else if n == 5 {
        '5'
    } else if n == 6 {
        '6'
    } else if n == 7 {
        '7'
    } else if n == 8 {
        '8'
    } else if n == 9 {
        '9'
    } else if n == 10 {
        'a'
    } else if n == 11 {
        'b'
    } else if n == 12 {
        'c'
    } else if n == 13 {
        'd'
    } else if n == 14 {
        'e'
    } else {
        'f'
    }
}

/// Lower-case hexadecimal, two digits a byte, high digit first.
pub open spec fn hex_string(bytes: Seq<u8>) -> Seq<char> {
    Seq::new(
        2 * bytes.len(),
        |i: int|
            if i % 2 == 0 {
                hex_char(bytes[i / 2] / 16)
            } else {
                hex_char(bytes[i / 2] % 16)
            },
    )
}

/// `String::push` puts the character at the end of the string.
pub assume_specification[ String::push ](s: &mut String, c: char)
    ensures
        final(s)@ == old(s)@.push(c),
;

fn hex_digit(n: u8) -> (c: char)
    requires
        n < 16,
    ensures
        c == hex_char(n),
{
    match n {
        0 => '0',
        1 => '1',
        2 => '2',
        3 => '3',
        4 => '4',
        5 => '5',
        6 => '6',
        7 => '7',
        8 => '8',
        9 => '9',
        10 => 'a',
        11 => 'b',
        12 => 'c',
        13 => 'd',
        14 => 'e',
        _ => 'f',
    }
}

/// The bytes in lower-case hexadecimal.
pub fn to_hex(bytes: &[u8]) -> (r: String)
    ensures
        r@ == hex_string(bytes@),
{
    let mut out = String::new();
    let mut i: usize = 0;
    while i < bytes.len()
        invariant
            i <= bytes@.len(),
            out@ == hex_string(bytes@.take(i as int)),
        decreases bytes@.len() - i,
    {
        let b = bytes[i];
        out.push(hex_digit(b / 16));
        out.push(hex_digit(b % 16));
        i = i + 1;
        assert(out@ =~= hex_string(bytes@.take(i as int)));
    }
    assert(bytes@.take(bytes@.len() as int) =~= bytes@);
    out
}

/// The BLAKE2b digest of `data` with a 32-byte output and no key.
pub uninterp spec fn blake2_256(data: Seq<u8>) -> Seq<u8>;

/// Calls `blake2_rfc::blake2b::blake2b` with an output length of 32 and an
/// empty key. The contract names the digest; it is 32 bytes long because that
/// is the output length asked for.
#[verifier::external_body]
fn blake2b_256(data: &[u8]) -> (r: H256)
    ensures
        r@ == blake2_256(data@),
{
    let digest = blake2_rfc::blake2b::blake2b(32, &[], data);
    let mut out = [0u8; 32];
    out.copy_from_slice(digest.as_bytes());
    H256(out)
}

/// The hash of `data`.
pub open spec fn hash_of(data: Seq<u8>) -> H256 {
    h256_of(blake2_256(data))
}

/// Hashes `data`.
pub fn hash(data: &[u8]) -> (r: H256)
    ensures
        r == hash_of(data@),
{
    let r = blake2b_256(data);
    proof {
        lemma_h256_of_view(r);
    }
    r
}

} // verus!
