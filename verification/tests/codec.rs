use substrate_client::codec::{
    bytes_eq, encode_bytes, encode_items, encode_u32, encode_u64, take_bytes, take_items,
    take_u32, take_u64, to_keyed_vec, Input,
};
use substrate_client::generic::{
    encode_extrinsics, take_extrinsics, Block, Digest, Extrinsic, Header, UncheckedExtrinsic,
};
use substrate_client::hash::{hash, to_hex, H256, H512};

fn sample_extrinsic(index: u64, function: Vec<u8>) -> Extrinsic {
    Extrinsic { signed: H256([7u8; 32]), index, function }
}

fn sample_unchecked(index: u64, function: Vec<u8>) -> UncheckedExtrinsic {
    UncheckedExtrinsic { extrinsic: sample_extrinsic(index, function), signature: H512([9u8; 64]) }
}

fn sample_header() -> Header {
    let mut digest = Digest::new();
    digest.push(vec![1, 2, 3]);
    digest.push(vec![]);
    digest.push(vec![0xff]);
    Header::new(5, H256([3u8; 32]), H256([2u8; 32]), H256([1u8; 32]), digest)
}

#[test]
fn integers_are_little_endian() {
    assert_eq!(encode_u32(1), vec![1, 0, 0, 0]);
    assert_eq!(encode_u32(0x0102_0304), vec![4, 3, 2, 1]);
    assert_eq!(encode_u32(u32::MAX), vec![255, 255, 255, 255]);
    assert_eq!(encode_u64(0x0102_0304_0506_0708), vec![8, 7, 6, 5, 4, 3, 2, 1]);
    assert_eq!(encode_u64(0), vec![0; 8]);
    assert_eq!(encode_u64(u64::MAX), vec![255; 8]);
}

#[test]
fn integers_round_trip() {
    for x in [0u32, 1, 255, 256, 65535, 65536, 0x00ff_ffff, 0x0100_0000, u32::MAX] {
        let bytes = encode_u32(x);
        let mut input = Input::new(&bytes);
        assert_eq!(take_u32(&mut input), Some(x));
        assert_eq!(input.remaining_len(), 0);
    }
    for x in [0u64, 1, 0xffff_ffff, 0x1_0000_0000, 0x0123_4567_89ab_cdef, u64::MAX] {
        let bytes = encode_u64(x);
        let mut input = Input::new(&bytes);
        assert_eq!(take_u64(&mut input), Some(x));
        assert_eq!(input.remaining_len(), 0);
    }
}

#[test]
fn integers_need_all_their_bytes() {
    let mut input = Input::new(&[1, 2, 3]);
    assert_eq!(take_u32(&mut input), None);
    let mut input = Input::new(&[1, 2, 3, 4, 5, 6, 7]);
    assert_eq!(take_u64(&mut input), None);
}

#[test]
fn decoders_leave_the_rest() {
    let mut input = Input::new(&[1, 0, 0, 0, 42, 43]);
    assert_eq!(take_u32(&mut input), Some(1));
    assert_eq!(input.remaining_len(), 2);
    assert_eq!(input.read(2), Some(&[42u8, 43][..]));
    assert_eq!(input.read(1), None);
    assert_eq!(input.read(0), Some(&[][..]));
}

#[test]
fn byte_strings_are_prefixed_by_their_length() {
    assert_eq!(encode_bytes(b"abc"), vec![3, 0, 0, 0, 97, 98, 99]);
    assert_eq!(encode_bytes(b""), vec![0, 0, 0, 0]);
    let encoded = encode_bytes(&[5u8; 300]);
    assert_eq!(&encoded[..4], &[44, 1, 0, 0]);
    assert_eq!(encoded.len(), 304);
    let mut input = Input::new(&encoded);
    assert_eq!(take_bytes(&mut input), Some(&[5u8; 300][..]));
    assert_eq!(input.remaining_len(), 0);
}

#[test]
fn byte_string_shorter_than_its_prefix_is_refused() {
    let mut input = Input::new(&[4, 0, 0, 0, 1, 2, 3]);
    assert_eq!(take_bytes(&mut input), None);
}

#[test]
fn sequences_are_prefixed_by_their_byte_length() {
    let items = vec![vec![1u8, 2], vec![], vec![3u8]];
    let encoded = encode_items(&items);
    assert_eq!(
        encoded,
        vec![15, 0, 0, 0, 2, 0, 0, 0, 1, 2, 0, 0, 0, 0, 1, 0, 0, 0, 3]
    );
    let mut input = Input::new(&encoded);
    assert_eq!(take_items(&mut input), Some(items));
    assert_eq!(input.remaining_len(), 0);
    assert_eq!(encode_items(&vec![]), vec![0, 0, 0, 0]);
}

#[test]
fn sequence_with_a_broken_item_is_refused() {
    // The payload is five bytes long, but its one item claims nine.
    let mut input = Input::new(&[5, 0, 0, 0, 9, 0, 0, 0, 1]);
    assert_eq!(take_items(&mut input), None);
    // The payload ends in the middle of a length prefix.
    let mut input = Input::new(&[2, 0, 0, 0, 0, 0]);
    assert_eq!(take_items(&mut input), None);
}

#[test]
fn keyed_vec_appends_the_index() {
    assert_eq!(to_keyed_vec(1, b":auth:"), b":auth:\x01\x00\x00\x00".to_vec());
    assert_eq!(to_keyed_vec(0x0a0b0c0d, b"k"), vec![b'k', 0x0d, 0x0c, 0x0b, 0x0a]);
}

#[test]
fn bytes_eq_compares_contents() {
    assert!(bytes_eq(b"abc", b"abc"));
    assert!(!bytes_eq(b"abc", b"abd"));
    assert!(!bytes_eq(b"abc", b"ab"));
    assert!(bytes_eq(b"", b""));
}

#[test]
fn extrinsic_encoding_is_signer_index_call() {
    let x = sample_extrinsic(0x0102, vec![0xaa, 0xbb]);
    let mut expected = vec![7u8; 32];
    expected.extend_from_slice(&[2, 1, 0, 0, 0, 0, 0, 0]);
    expected.extend_from_slice(&[2, 0, 0, 0, 0xaa, 0xbb]);
    assert_eq!(x.encode(), expected);
}

#[test]
fn extrinsic_round_trips() {
    let x = sample_extrinsic(77, vec![1, 2, 3, 4, 5]);
    let encoded = x.encode();
    let mut input = Input::new(&encoded);
    assert_eq!(Extrinsic::decode(&mut input), Some(x));
    assert_eq!(input.remaining_len(), 0);
}

#[test]
fn unchecked_extrinsic_is_prefixed_by_its_length() {
    let x = sample_unchecked(1, vec![0xcc]);
    let encoded = x.encode();
    // 32 + 8 + (4 + 1) for the extrinsic, 64 for the signature.
    assert_eq!(&encoded[..4], &[109, 0, 0, 0]);
    assert_eq!(encoded.len(), 113);
    assert_eq!(&encoded[4..49], &x.extrinsic.encode()[..]);
    assert_eq!(&encoded[49..], &[9u8; 64][..]);
    // The whole reads as one length-prefixed byte string.
    let mut input = Input::new(&encoded);
    assert_eq!(take_bytes(&mut input).map(|b| b.len()), Some(109));
    assert_eq!(input.remaining_len(), 0);
}

#[test]
fn unchecked_extrinsic_round_trips() {
    let x = sample_unchecked(3, vec![9, 8, 7]);
    let encoded = x.encode();
    let mut input = Input::new(&encoded);
    assert_eq!(UncheckedExtrinsic::decode(&mut input), Some(x));
    assert_eq!(input.remaining_len(), 0);
}

#[test]
fn unchecked_extrinsic_ignores_the_value_of_its_prefix() {
    let x = sample_unchecked(3, vec![9, 8, 7]);
    let mut encoded = x.encode();
    encoded[0] = 0;
    let mut input = Input::new(&encoded);
    assert_eq!(UncheckedExtrinsic::decode(&mut input), Some(x));
}

#[test]
fn truncated_extrinsic_is_refused() {
    let x = sample_unchecked(3, vec![9, 8, 7]);
    let encoded = x.encode();
    for cut in [0usize, 3, 4, 36, 44, 50, encoded.len() - 1] {
        let mut input = Input::new(&encoded[..cut]);
        assert_eq!(UncheckedExtrinsic::decode(&mut input), None);
    }
}

#[test]
fn digest_round_trips() {
    let mut digest = Digest::new();
    digest.push(vec![1, 2, 3]);
    digest.push(vec![]);
    let encoded = digest.encode();
    assert_eq!(encoded, vec![11, 0, 0, 0, 3, 0, 0, 0, 1, 2, 3, 0, 0, 0, 0]);
    let mut input = Input::new(&encoded);
    assert_eq!(Digest::decode(&mut input), Some(digest));
    let empty = Digest::new();
    let encoded = empty.encode();
    let mut input = Input::new(&encoded);
    assert_eq!(Digest::decode(&mut input), Some(empty));
}

#[test]
fn digest_hands_its_encoding_on() {
    let mut digest = Digest::new();
    digest.push(vec![5]);
    let len = digest.using_encoded(|bytes| bytes.len());
    assert_eq!(len, 9);
    let copy = digest.using_encoded(|bytes| bytes.to_vec());
    assert_eq!(copy, digest.encode());
}

#[test]
fn header_encoding_is_parent_number_roots_digest() {
    let header = Header::new(1, H256([3u8; 32]), H256([2u8; 32]), H256([1u8; 32]), Digest::new());
    let mut expected = vec![1u8; 32];
    expected.extend_from_slice(&[1, 0, 0, 0, 0, 0, 0, 0]);
    expected.extend_from_slice(&[2u8; 32]);
    expected.extend_from_slice(&[3u8; 32]);
    expected.extend_from_slice(&[0, 0, 0, 0]);
    assert_eq!(header.encode(), expected);
}

#[test]
fn header_round_trips() {
    let header = sample_header();
    let encoded = header.encode();
    let mut input = Input::new(&encoded);
    assert_eq!(Header::decode(&mut input), Some(header));
    assert_eq!(input.remaining_len(), 0);
}

#[test]
fn truncated_header_is_refused() {
    let encoded = sample_header().encode();
    for cut in [0usize, 31, 39, 71, 103, 106, encoded.len() - 1] {
        let mut input = Input::new(&encoded[..cut]);
        assert_eq!(Header::decode(&mut input), None);
    }
}

#[test]
fn header_accessors_and_setters() {
    let mut header = sample_header();
    assert_eq!(*header.number(), 5);
    assert_eq!(*header.parent_hash(), H256([1u8; 32]));
    assert_eq!(*header.state_root(), H256([2u8; 32]));
    assert_eq!(*header.extrinsics_root(), H256([3u8; 32]));
    assert_eq!(header.digest().logs.len(), 3);
    header.set_number(6);
    header.set_parent_hash(H256([4u8; 32]));
    header.set_state_root(H256([5u8; 32]));
    header.set_extrinsics_root(H256([6u8; 32]));
    header.set_digest(Digest::new());
    assert_eq!(
        header,
        Header::new(6, H256([6u8; 32]), H256([5u8; 32]), H256([4u8; 32]), Digest::new())
    );
}

#[test]
fn header_hash_is_the_hash_of_its_encoding() {
    let header = sample_header();
    assert_eq!(header.hash(), hash(&header.encode()));
    let mut other = sample_header();
    other.set_number(6);
    assert_ne!(header.hash(), other.hash());
}

#[test]
fn block_encoding_is_header_then_body() {
    let block = Block::new(sample_header(), vec![sample_unchecked(0, vec![1]), sample_unchecked(1, vec![])]);
    let mut expected = block.header.encode();
    expected.extend_from_slice(&encode_extrinsics(&block.extrinsics));
    assert_eq!(block.encode(), expected);
    let body = encode_extrinsics(&block.extrinsics);
    // 113 and 112 bytes of extrinsics after the prefix.
    assert_eq!(&body[..4], &[225, 0, 0, 0]);
    assert_eq!(body.len(), 229);
}

#[test]
fn block_round_trips() {
    let block = Block::new(
        sample_header(),
        vec![sample_unchecked(0, vec![1]), sample_unchecked(1, vec![]), sample_unchecked(2, vec![7; 40])],
    );
    let encoded = block.encode();
    let mut input = Input::new(&encoded);
    assert_eq!(Block::decode(&mut input), Some(block));
    assert_eq!(input.remaining_len(), 0);
    let empty = Block::new(sample_header(), vec![]);
    let encoded = empty.encode();
    let mut input = Input::new(&encoded);
    assert_eq!(Block::decode(&mut input), Some(empty));
}

#[test]
fn block_accessors() {
    let block = Block::new(sample_header(), vec![sample_unchecked(0, vec![1])]);
    assert_eq!(*block.header(), sample_header());
    assert_eq!(block.extrinsics().len(), 1);
    let copy = block.clone();
    let (header, extrinsics) = block.deconstruct();
    assert_eq!(header, copy.header);
    assert_eq!(extrinsics, copy.extrinsics);
}

#[test]
fn body_with_a_broken_extrinsic_is_refused() {
    let mut body = encode_extrinsics(&vec![sample_unchecked(0, vec![1])]);
    let last = body.len() - 1;
    body.truncate(last);
    body[0] -= 1;
    let mut input = Input::new(&body);
    assert_eq!(take_extrinsics(&mut input), None);
}

#[test]
fn hex_is_lower_case_two_digits_a_byte() {
    assert_eq!(to_hex(&[0x00, 0x0f, 0xa0, 0xff]), "000fa0ff");
    assert_eq!(to_hex(&[]), "");
    assert_eq!(H256([0xab; 32]).to_hex(), "ab".repeat(32));
}

#[test]
fn hashes_from_slices() {
    assert_eq!(H256::from_slice(&[1u8; 32]), Some(H256([1u8; 32])));
    assert_eq!(H256::from_slice(&[1u8; 31]), None);
    assert_eq!(H512::from_slice(&[1u8; 64]), Some(H512([1u8; 64])));
    assert_eq!(H512::from_slice(&[1u8; 65]), None);
    assert_eq!(H256::zero(), H256([0u8; 32]));
    assert_eq!(H256::default(), H256::zero());
    assert_eq!(H256([1u8; 32]).as_bytes(), &[1u8; 32][..]);
    assert!(H256([1u8; 32]) != H256([2u8; 32]));
}

#[test]
fn blake2_256_of_known_inputs() {
    assert_eq!(
        hash(b"").to_hex(),
        "0e5751c026e543b2e8ab2eb06099daa1d1e5df47778f7787faab45cdf12fe3a8"
    );
    assert_eq!(
        hash(b"abc").to_hex(),
        "bddd813c634239723171ef3fee98579b94964e3bb1cb3e427262c8c068d52319"
    );
}
