//! The canonical wire encoding: little-endian integers, fixed-width byte
//! strings, and sequences prefixed by their length in bytes.
//!
//! Every format is given twice: as a pair of spec functions on `Seq<u8>` (the
//! encoding of a value, and the decoding of a prefix of some input), and as
//! executable functions whose contracts are those spec functions. A decoder
//! returns the value together with the input that is left.

use vstd::prelude::*;
use vstd::slice::slice_subrange;

verus! {

/// The largest length that a 32-bit length prefix can carry.
pub const MAX_PREFIXED_LEN: usize = 0xffff_ffff;

/// The four bytes of `x`, least significant first.
pub open spec fn le_bytes_u32(x: u32) -> Seq<u8> {
    seq![
        (x % 256) as u8,
        ((x / 256) % 256) as u8,
        ((x / 65536) % 256) as u8,
        (x / 16777216) as u8,
    ]
}

/// The number whose little-endian bytes are the first four of `b`.
pub open spec fn le_value_u32(b: Seq<u8>) -> u32
    recommends
        b.len() >= 4,
{
    (b[0] as int + 256 * (b[1] as int) + 65536 * (b[2] as int) + 16777216 * (b[3] as int)) as u32
}

/// The eight bytes of `x`, least significant first.
pub open spec fn le_bytes_u64(x: u64) -> Seq<u8> {
    le_bytes_u32((x % 0x1_0000_0000) as u32) + le_bytes_u32((x / 0x1_0000_0000) as u32)
}

/// The number whose little-endian bytes are the first eight of `b`.
pub open spec fn le_value_u64(b: Seq<u8>) -> u64
    recommends
        b.len() >= 8,
{
    (le_value_u32(b) as int + 0x1_0000_0000 * (le_value_u32(b.skip(4)) as int)) as u64
}

/// Decoding of a 32-bit integer from the front of `s`.
pub open spec fn decode_u32(s: Seq<u8>) -> Option<(u32, Seq<u8>)> {
    if s.len() >= 4 {
        Some((le_value_u32(s), s.skip(4)))
    } else {
        None
    }
}

/// Decoding of a 64-bit integer from the front of `s`.
pub open spec fn decode_u64(s: Seq<u8>) -> Option<(u64, Seq<u8>)> {
    if s.len() >= 8 {
        Some((le_value_u64(s), s.skip(8)))
    } else {
        None
    }
}

/// Decoding of exactly `n` raw bytes from the front of `s`.
pub open spec fn decode_fixed(s: Seq<u8>, n: nat) -> Option<(Seq<u8>, Seq<u8>)> {
    if s.len() >= n {
        Some((s.take(n as int), s.skip(n as int)))
    } else {
        None
    }
}

/// A byte string on the wire: its length as a 32-bit integer, then the bytes.
/// A length beyond 32 bits is cut to its low 32 bits.
pub open spec fn bytes_encoding(b: Seq<u8>) -> Seq<u8> {
    le_bytes_u32(b.len() as u32) + b
}

/// Decoding of a length-prefixed byte string from the front of `s`.
pub open spec fn decode_bytes(s: Seq<u8>) -> Option<(Seq<u8>, Seq<u8>)> {
    match decode_u32(s) {
        Some((n, rest)) => decode_fixed(rest, n as nat),
        None => None,
    }
}

/// All of `parts`, one after the other.
pub open spec fn concat_all(parts: Seq<Seq<u8>>) -> Seq<u8>
    decreases parts.len(),
{
    if parts.len() == 0 {
        Seq::empty()
    } else {
        concat_all(parts.drop_last()) + parts.last()
    }
}

/// Decoding of a whole payload as items that follow each other, each read by
/// `item`. Fails if any item fails or consumes nothing.
pub open spec fn decode_sequence<T>(
    payload: Seq<u8>,
    item: spec_fn(Seq<u8>) -> Option<(T, Seq<u8>)>,
) -> Option<Seq<T>>
    decreases payload.len(),
{
    if payload.len() == 0 {
        Some(Seq::empty())
    } else {
        match item(payload) {
            Some((v, rest)) => if rest.len() < payload.len() {
                match decode_sequence(rest, item) {
                    Some(tail) => Some(seq![v] + tail),
                    None => None,
                }
            } else {
                None
            },
            None => None,
        }
    }
}

/// `bytes_encoding` as a value.
pub open spec fn bytes_encoder() -> spec_fn(Seq<u8>) -> Seq<u8> {
    |b: Seq<u8>| bytes_encoding(b)
}

/// `decode_bytes` as a value.
pub open spec fn bytes_decoder() -> spec_fn(Seq<u8>) -> Option<(Seq<u8>, Seq<u8>)> {
    |p: Seq<u8>| decode_bytes(p)
}

/// A sequence of byte strings on the wire: the byte length of the payload,
/// then each item as a length-prefixed byte string.
pub open spec fn items_encoding(items: Seq<Seq<u8>>) -> Seq<u8> {
    bytes_encoding(concat_all(items.map_values(bytes_encoder())))
}

/// Decoding of a sequence of byte strings from the front of `s`.
pub open spec fn decode_items(s: Seq<u8>) -> Option<(Seq<Seq<u8>>, Seq<u8>)> {
    match decode_bytes(s) {
        Some((payload, rest)) => match decode_sequence(payload, bytes_decoder()) {
            Some(items) => Some((items, rest)),
            None => None,
        },
        None => None,
    }
}

/// A key of the state store made of a fixed prefix and a 32-bit index.
pub open spec fn keyed(prefix: Seq<u8>, index: u32) -> Seq<u8> {
    prefix + le_bytes_u32(index)
}

/// Reading the bytes back gives the number.
pub proof fn lemma_u32_round_trip(x: u32, rest: Seq<u8>)
    ensures
        le_bytes_u32(x).len() == 4,
        le_value_u32(le_bytes_u32(x) + rest) == x,
        decode_u32(le_bytes_u32(x) + rest) == Some((x, rest)),
{
    let s = le_bytes_u32(x) + rest;
    assert(s[0] == (x % 256) as u8);
    assert(s[1] == ((x / 256) % 256) as u8);
    assert(s[2] == ((x / 65536) % 256) as u8);
    assert(s[3] == (x / 16777216) as u8);
    assert(s.skip(4) =~= rest);
}

/// Reading the bytes back gives the number.
pub proof fn lemma_u64_round_trip(x: u64, rest: Seq<u8>)
    ensures
        le_bytes_u64(x).len() == 8,
        le_value_u64(le_bytes_u64(x) + rest) == x,
        decode_u64(le_bytes_u64(x) + rest) == Some((x, rest)),
{
    let lo = (x % 0x1_0000_0000) as u32;
    let hi = (x / 0x1_0000_0000) as u32;
    let s = le_bytes_u64(x) + rest;
    lemma_u32_round_trip(lo, le_bytes_u32(hi) + rest);
    lemma_u32_round_trip(hi, rest);
    assert(s =~= le_bytes_u32(lo) + (le_bytes_u32(hi) + rest));
    assert(s.skip(4) =~= le_bytes_u32(hi) + rest);
    assert(s.skip(8) =~= rest);
}

/// A fixed-width field is read back as it was written.
pub proof fn lemma_fixed_round_trip(b: Seq<u8>, rest: Seq<u8>)
    ensures
        decode_fixed(b + rest, b.len()) == Some((b, rest)),
{
    assert((b + rest).take(b.len() as int) =~= b);
    assert((b + rest).skip(b.len() as int) =~= rest);
}

/// A byte string whose length fits the prefix is read back as it was written.
pub proof fn lemma_bytes_round_trip(b: Seq<u8>, rest: Seq<u8>)
    requires
        b.len() <= MAX_PREFIXED_LEN,
    ensures
        bytes_encoding(b).len() == 4 + b.len(),
        decode_bytes(bytes_encoding(b) + rest) == Some((b, rest)),
{
    let n = b.len() as u32;
    lemma_u32_round_trip(n, b + rest);
    lemma_fixed_round_trip(b, rest);
    assert(bytes_encoding(b) + rest =~= le_bytes_u32(n) + (b + rest));
}

/// Appending one more part appends its bytes.
pub proof fn lemma_concat_all_push(parts: Seq<Seq<u8>>, part: Seq<u8>)
    ensures
        concat_all(parts.push(part)) == concat_all(parts) + part,
{
    assert(parts.push(part).drop_last() =~= parts);
}

/// The first part can be split off the front.
pub proof fn lemma_concat_all_first(parts: Seq<Seq<u8>>)
    requires
        parts.len() > 0,
    ensures
        concat_all(parts) == parts[0] + concat_all(parts.drop_first()),
    decreases parts.len(),
{
    if parts.len() == 1 {
        assert(parts.drop_last() =~= Seq::<Seq<u8>>::empty());
        assert(parts.drop_first() =~= Seq::<Seq<u8>>::empty());
        assert(concat_all(parts) =~= parts[0] + concat_all(parts.drop_first()));
    } else {
        lemma_concat_all_first(parts.drop_last());
        assert(parts.drop_last().drop_first() =~= parts.drop_first().drop_last());
        assert(parts.drop_first().last() == parts.last());
        assert(concat_all(parts) =~= parts[0] + concat_all(parts.drop_first()));
    }
}

/// Items written one after the other are read back in order, provided each
/// item alone is read back from the front of any input and is not empty on
/// the wire.
pub proof fn lemma_sequence_round_trip<T>(
    items: Seq<T>,
    encode: spec_fn(T) -> Seq<u8>,
    item: spec_fn(Seq<u8>) -> Option<(T, Seq<u8>)>,
)
    requires
        forall|i: int, rest: Seq<u8>|
            0 <= i < items.len() ==> #[trigger] item(encode(items[i]) + rest) == Some(
                (items[i], rest),
            ),
        forall|i: int| 0 <= i < items.len() ==> (#[trigger] encode(items[i])).len() > 0,
    ensures
        decode_sequence(concat_all(items.map_values(encode)), item) == Some(items),
    decreases items.len(),
{
    let parts = items.map_values(encode);
    if items.len() == 0 {
        assert(concat_all(parts) =~= Seq::<u8>::empty());
    } else {
        let tail = items.drop_first();
        assert(tail.map_values(encode) =~= parts.drop_first());
        assert forall|i: int, rest: Seq<u8>| 0 <= i < tail.len() implies #[trigger] item(
            encode(tail[i]) + rest,
        ) == Some((tail[i], rest)) by {
            assert(tail[i] == items[i + 1]);
        }
        assert forall|i: int| 0 <= i < tail.len() implies (#[trigger] encode(tail[i])).len()
            > 0 by {
            assert(tail[i] == items[i + 1]);
        }
        lemma_sequence_round_trip(tail, encode, item);
        lemma_concat_all_first(parts);
        let rest = concat_all(parts.drop_first());
        assert(parts[0] == encode(items[0]));
        assert(item(encode(items[0]) + rest) == Some((items[0], rest)));
        assert(encode(items[0]).len() > 0);
        assert(seq![items[0]] + tail =~= items);
    }
}

/// A sequence of byte strings is read back as it was written, provided every
/// length fits its prefix.
pub proof fn lemma_items_round_trip(items: Seq<Seq<u8>>, rest: Seq<u8>)
    requires
        forall|i: int| 0 <= i < items.len() ==> (#[trigger] items[i]).len() <= MAX_PREFIXED_LEN,
        concat_all(items.map_values(bytes_encoder())).len() <= MAX_PREFIXED_LEN,
    ensures
        decode_items(items_encoding(items) + rest) == Some((items, rest)),
{
    let encode = bytes_encoder();
    let item = bytes_decoder();
    let payload = concat_all(items.map_values(encode));
    assert forall|i: int, r: Seq<u8>| 0 <= i < items.len() implies #[trigger] item(
        encode(items[i]) + r,
    ) == Some((items[i], r)) by {
        lemma_bytes_round_trip(items[i], r);
    }
    assert forall|i: int| 0 <= i < items.len() implies (#[trigger] encode(items[i])).len()
        > 0 by {
        lemma_bytes_round_trip(items[i], Seq::empty());
    }
    lemma_sequence_round_trip(items, encode, item);
    lemma_bytes_round_trip(payload, rest);
}

/// Two keys with one prefix are equal only if their indices are.
pub proof fn lemma_keyed_injective(prefix: Seq<u8>, i: u32, j: u32)
    ensures
        keyed(prefix, i) == keyed(prefix, j) <==> i == j,
        keyed(prefix, i).len() == prefix.len() + 4,
{
    lemma_u32_round_trip(i, Seq::empty());
    lemma_u32_round_trip(j, Seq::empty());
    if keyed(prefix, i) == keyed(prefix, j) {
        assert(keyed(prefix, i).skip(prefix.len() as int) =~= le_bytes_u32(i));
        assert(keyed(prefix, j).skip(prefix.len() as int) =~= le_bytes_u32(j));
        assert(le_bytes_u32(i) + Seq::<u8>::empty() =~= le_bytes_u32(i));
        assert(le_bytes_u32(j) + Seq::<u8>::empty() =~= le_bytes_u32(j));
    }
}

/// A cursor over input bytes. Decoders take what they need from the front and
/// leave the rest.
pub struct Input<'a> {
    bytes: &'a [u8],
    position: usize,
}

impl<'a> Input<'a> {
    #[verifier::type_invariant]
    spec fn in_bounds(&self) -> bool {
        self.position <= self.bytes@.len()
    }

    /// The bytes that have not been consumed yet.
    pub closed spec fn remaining(&self) -> Seq<u8> {
        self.bytes@.skip(self.position as int)
    }

    /// A cursor at the start of `bytes`.
    pub fn new(bytes: &'a [u8]) -> (r: Self)
        ensures
            r.remaining() == bytes@,
    {
        assert(bytes@.skip(0) =~= bytes@);
        Input { bytes, position: 0 }
    }

    /// How many bytes are left.
    pub fn remaining_len(&self) -> (n: usize)
        ensures
            n == self.remaining().len(),
    {
        proof {
            use_type_invariant(self);
        }
        self.bytes.len() - self.position
    }

    /// Takes the next `n` bytes, or nothing if fewer are left.
    pub fn read(&mut self, n: usize) -> (r: Option<&'a [u8]>)
        ensures
            match r {
                Some(taken) => decode_fixed(old(self).remaining(), n as nat) == Some(
                    (taken@, final(self).remaining()),
                ),
                None => decode_fixed(old(self).remaining(), n as nat).is_none()
                    && final(self).remaining() == old(self).remaining(),
            },
    {
        proof {
            use_type_invariant(&*self);
        }
        if n > self.bytes.len() - self.position {
            return None;
        }
        let start = self.position;
        let taken = slice_subrange(self.bytes, start, start + n);
        self.position = start + n;
        proof {
            let all = self.bytes@;
            assert(all.skip(start as int).take(n as int) =~= all.subrange(
                start as int,
                start + n,
            ));
            assert(all.skip(start as int).skip(n as int) =~= all.skip(start + n));
        }
        Some(taken)
    }
}

/// Appends the four bytes of `x` to `out`.
pub fn put_u32(out: &mut Vec<u8>, x: u32)
    ensures
        final(out)@ == old(out)@ + le_bytes_u32(x),
{
    out.push((x % 256) as u8);
    out.push(((x / 256) % 256) as u8);
    out.push(((x / 65536) % 256) as u8);
    out.push((x / 16777216) as u8);
    assert(out@ =~= old(out)@ + le_bytes_u32(x));
}

/// Appends the eight bytes of `x` to `out`.
pub fn put_u64(out: &mut Vec<u8>, x: u64)
    ensures
        final(out)@ == old(out)@ + le_bytes_u64(x),
{
    put_u32(out, (x % 0x1_0000_0000) as u32);
    put_u32(out, (x / 0x1_0000_0000) as u32);
    assert(out@ =~= old(out)@ + le_bytes_u64(x));
}

/// Appends `bytes` to `out` as they are.
pub fn put_raw(out: &mut Vec<u8>, bytes: &[u8])
    ensures
        final(out)@ == old(out)@ + bytes@,
{
    let mut i: usize = 0;
    while i < bytes.len()
        invariant
            i <= bytes@.len(),
            out@ == old(out)@ + bytes@.take(i as int),
        decreases bytes@.len() - i,
    {
        out.push(bytes[i]);
        i = i + 1;
        assert(out@ =~= old(out)@ + bytes@.take(i as int));
    }
    assert(bytes@.take(bytes@.len() as int) =~= bytes@);
}

/// Appends `bytes` to `out` with their length in front.
pub fn put_bytes(out: &mut Vec<u8>, bytes: &[u8])
    ensures
        final(out)@ == old(out)@ + bytes_encoding(bytes@),
{
    put_u32(out, #[verifier::truncate] (bytes.len() as u32));
    put_raw(out, bytes);
    assert(out@ =~= old(out)@ + bytes_encoding(bytes@));
}

/// The wire form of a 32-bit integer.
pub fn encode_u32(x: u32) -> (r: Vec<u8>)
    ensures
        r@ == le_bytes_u32(x),
{
    let mut out = Vec::new();
    put_u32(&mut out, x);
    assert(out@ =~= le_bytes_u32(x));
    out
}

/// The wire form of a 64-bit integer.
pub fn encode_u64(x: u64) -> (r: Vec<u8>)
    ensures
        r@ == le_bytes_u64(x),
{
    let mut out = Vec::new();
    put_u64(&mut out, x);
    assert(out@ =~= le_bytes_u64(x));
    out
}

/// The wire form of a byte string.
pub fn encode_bytes(bytes: &[u8]) -> (r: Vec<u8>)
    ensures
        r@ == bytes_encoding(bytes@),
{
    let mut out = Vec::new();
    put_bytes(&mut out, bytes);
    assert(out@ =~= bytes_encoding(bytes@));
    out
}

/// The store key made of `prefix` and `index`.
pub fn to_keyed_vec(index: u32, prefix: &[u8]) -> (r: Vec<u8>)
    ensures
        r@ == keyed(prefix@, index),
{
    let mut out = Vec::new();
    put_raw(&mut out, prefix);
    put_u32(&mut out, index);
    assert(out@ =~= keyed(prefix@, index));
    out
}

/// Reads a 32-bit integer.
pub fn take_u32(input: &mut Input) -> (r: Option<u32>)
    ensures
        match r {
            Some(x) => decode_u32(old(input).remaining()) == Some((x, final(input).remaining())),
            None => decode_u32(old(input).remaining()).is_none(),
        },
{
    match input.read(4) {
        Some(b) => {
            assert(b@ == old(input).remaining().take(4));
            let x: u32 = b[0] as u32 + 256 * (b[1] as u32) + 65536 * (b[2] as u32) + 16777216 * (
            b[3] as u32);
            Some(x)
        },
        None => None,
    }
}

/// Reads a 64-bit integer.
pub fn take_u64(input: &mut Input) -> (r: Option<u64>)
    ensures
        match r {
            Some(x) => decode_u64(old(input).remaining()) == Some((x, final(input).remaining())),
            None => decode_u64(old(input).remaining()).is_none(),
        },
{
    match input.read(8) {
        Some(b) => {
            let ghost whole = old(input).remaining();
            assert(b@ == whole.take(8));
            let lo: u64 = b[0] as u64 + 256 * (b[1] as u64) + 65536 * (b[2] as u64) + 16777216 * (
            b[3] as u64);
            let hi: u64 = b[4] as u64 + 256 * (b[5] as u64) + 65536 * (b[6] as u64) + 16777216 * (
            b[7] as u64);
            assert(lo == le_value_u32(whole));
            assert(hi == le_value_u32(whole.skip(4)));
            Some(lo + 0x1_0000_0000 * hi)
        },
        None => None,
    }
}

/// Reads a length-prefixed byte string.
pub fn take_bytes<'a>(input: &mut Input<'a>) -> (r: Option<&'a [u8]>)
    ensures
        match r {
            Some(b) => decode_bytes(old(input).remaining()) == Some(
                (b@, final(input).remaining()),
            ),
            None => decode_bytes(old(input).remaining()).is_none(),
        },
{
    let n = match take_u32(input) {
        Some(n) => n,
        None => { return None; },
    };
    input.read(n as usize)
}

/// The deep view of a byte vector is its view.
pub proof fn lemma_bytes_deep_view(v: Vec<u8>)
    ensures
        v.deep_view() == v@,
{
    assert(v.deep_view() =~= v@);
}

/// Copies a slice into a vector.
pub fn to_vec(bytes: &[u8]) -> (r: Vec<u8>)
    ensures
        r@ == bytes@,
{
    let mut out = Vec::new();
    put_raw(&mut out, bytes);
    assert(out@ =~= bytes@);
    out
}

/// Whether two byte strings are the same.
pub fn bytes_eq(a: &[u8], b: &[u8]) -> (r: bool)
    ensures
        r == (a@ == b@),
{
    if a.len() != b.len() {
        return false;
    }
    let mut i: usize = 0;
    while i < a.len()
        invariant
            a@.len() == b@.len(),
            i <= a@.len(),
            a@.take(i as int) == b@.take(i as int),
        decreases a@.len() - i,
    {
        if a[i] != b[i] {
            return false;
        }
        i = i + 1;
        assert(a@.take(i as int) =~= a@.take(i - 1).push(a@[i - 1]));
        assert(b@.take(i as int) =~= b@.take(i - 1).push(b@[i - 1]));
    }
    assert(a@.take(a@.len() as int) =~= a@);
    assert(b@.take(b@.len() as int) =~= b@);
    true
}

/// The wire form of a sequence of byte strings.
pub fn encode_items(items: &Vec<Vec<u8>>) -> (r: Vec<u8>)
    ensures
        r@ == items_encoding(items.deep_view()),
{
    let ghost encode = bytes_encoder();
    let mut payload: Vec<u8> = Vec::new();
    let mut i: usize = 0;
    assert(items.deep_view().take(0).map_values(encode) =~= Seq::<Seq<u8>>::empty());
    while i < items.len()
        invariant
            i <= items@.len(),
            encode == bytes_encoder(),
            payload@ == concat_all(items.deep_view().take(i as int).map_values(encode)),
        decreases items@.len() - i,
    {
        let ghost before = items.deep_view().take(i as int).map_values(encode);
        put_bytes(&mut payload, items[i].as_slice());
        i = i + 1;
        proof {
            assert(items[i - 1].deep_view() =~= items[i - 1]@);
            assert(items.deep_view().take(i as int).map_values(encode) =~= before.push(
                bytes_encoding(items[i - 1]@),
            ));
            lemma_concat_all_push(before, bytes_encoding(items[i - 1]@));
        }
    }
    assert(items.deep_view().take(items@.len() as int) =~= items.deep_view());
    encode_bytes(payload.as_slice())
}

/// Reads a sequence of byte strings.
pub fn take_items(input: &mut Input) -> (r: Option<Vec<Vec<u8>>>)
    ensures
        match r {
            Some(items) => decode_items(old(input).remaining()) == Some(
                (items.deep_view(), final(input).remaining()),
            ),
            None => decode_items(old(input).remaining()).is_none(),
        },
{
    let payload = match take_bytes(input) {
        Some(p) => p,
        None => { return None; },
    };
    let ghost item = bytes_decoder();
    let mut inner = Input::new(payload);
    let mut items: Vec<Vec<u8>> = Vec::new();
    assert(items.deep_view() =~= Seq::<Seq<u8>>::empty());
    while inner.remaining_len() > 0
        invariant
            item == bytes_decoder(),
            decode_bytes(old(input).remaining()) == Some((payload@, input.remaining())),
            decode_sequence(payload@, item) == match decode_sequence(inner.remaining(), item) {
                Some(tail) => Some(items.deep_view() + tail),
                None => None,
            },
        decreases inner.remaining().len(),
    {
        let ghost before = inner.remaining();
        let ghost done = items.deep_view();
        match take_bytes(&mut inner) {
            Some(b) => {
                let v = to_vec(b);
                items.push(v);
                proof {
                    assert(v.deep_view() =~= b@);
                    assert(items.deep_view() =~= done.push(b@));
                    assert(inner.remaining().len() < before.len());
                    match decode_sequence(inner.remaining(), item) {
                        Some(tail) => {
                            assert(done + (seq![b@] + tail) =~= done.push(b@) + tail);
                        },
                        None => {},
                    }
                }
            },
            None => {
                proof {
                    assert(item(before) == decode_bytes(before));
                    assert(decode_sequence(before, item).is_none());
                }
                return None;
            },
        }
    }
    assert(items.deep_view() + Seq::<Seq<u8>>::empty() =~= items.deep_view());
    Some(items)
}

} // verus!
