use relayer::abi::{
    decode_bool_abi, encode_authorization_state_call, encode_bytes32,
    encode_transfer_with_authorization_call, encode_uint_u8, encode_uint_value, pad_left,
};
use relayer::bignum::BigNum;
use relayer::errors::RelayError;
use relayer::hexfmt::{
    evm_address_bytes, normalize_evm_address, parse_hex_bytes, to_hex_address, to_hex_prefixed,
};
use relayer::keccak::{function_selector, keccak256};
use relayer::rlp::{length_to_bytes, rlp_encode_bytes, rlp_encode_list, rlp_encode_uint_be,
    trim_leading_zeroes};
use sha3::{Digest, Keccak256};

fn reference_keccak(input: &[u8]) -> Vec<u8> {
    let mut hasher = Keccak256::new();
    hasher.update(input);
    hasher.finalize().to_vec()
}

#[test]
fn keccak_empty_matches_published_vector() {
    let out = keccak256(&[]);
    assert_eq!(
        hex::encode(&out),
        "c5d2460186f7233c927e7db2dcc703c0e500b653ca82273b7bfad8045d85a470"
    );
}

#[test]
fn keccak_abc_matches_published_vector() {
    let out = keccak256(b"abc");
    assert_eq!(
        hex::encode(&out),
        "4e03657aea45a94fc7d47ba826c8d667c0d1e6e33a64a036ec44f58fa12d6c45"
    );
}

#[test]
fn keccak_matches_reference_on_many_lengths() {
    // Cover the padding edges (135, 136, 137) and multi-block inputs.
    for len in [1usize, 31, 32, 55, 56, 135, 136, 137, 200, 272, 300, 500] {
        let input: Vec<u8> = (0..len).map(|i| (i * 7 + 3) as u8).collect();
        assert_eq!(keccak256(&input), reference_keccak(&input), "length {}", len);
    }
}

#[test]
fn function_selectors_match_reference() {
    let s1 = function_selector("authorizationState(address,bytes32)");
    assert_eq!(s1, reference_keccak(b"authorizationState(address,bytes32)")[..4].to_vec());
    let sig = "transferWithAuthorization(address,address,uint256,uint256,uint256,bytes32,uint8,bytes32,bytes32)";
    let s2 = function_selector(sig);
    assert_eq!(s2, reference_keccak(sig.as_bytes())[..4].to_vec());
}

#[test]
fn rlp_byte_strings() {
    assert_eq!(rlp_encode_bytes(&[]), vec![0x80]);
    assert_eq!(rlp_encode_bytes(&[0x00]), vec![0x00]);
    assert_eq!(rlp_encode_bytes(&[0x7f]), vec![0x7f]);
    assert_eq!(rlp_encode_bytes(&[0x80]), vec![0x81, 0x80]);
    assert_eq!(rlp_encode_bytes(b"dog"), vec![0x83, b'd', b'o', b'g']);
    let fifty_five = vec![7u8; 55];
    let enc = rlp_encode_bytes(&fifty_five);
    assert_eq!(enc[0], 0x80 + 55);
    assert_eq!(&enc[1..], &fifty_five[..]);
    let fifty_six = vec![9u8; 56];
    let enc = rlp_encode_bytes(&fifty_six);
    assert_eq!(enc[0], 0xb8);
    assert_eq!(enc[1], 56);
    assert_eq!(&enc[2..], &fifty_six[..]);
}

#[test]
fn rlp_integers_are_canonical() {
    assert_eq!(rlp_encode_uint_be(&[]), vec![0x80]);
    assert_eq!(rlp_encode_uint_be(&[0, 0, 0]), vec![0x80]);
    assert_eq!(rlp_encode_uint_be(&[0x0f]), vec![0x0f]);
    assert_eq!(rlp_encode_uint_be(&[0x00, 0x0f]), vec![0x0f]);
    assert_eq!(rlp_encode_uint_be(&[0x04, 0x00]), vec![0x82, 0x04, 0x00]);
    assert_eq!(rlp_encode_uint_be(&[0x80]), vec![0x81, 0x80]);
}

#[test]
fn rlp_lists() {
    let cat = rlp_encode_bytes(b"cat");
    let dog = rlp_encode_bytes(b"dog");
    let enc = rlp_encode_list(&[cat, dog]);
    assert_eq!(
        enc,
        vec![0xc8, 0x83, b'c', b'a', b't', 0x83, b'd', b'o', b'g']
    );
    assert_eq!(rlp_encode_list(&[]), vec![0xc0]);
    let big_item = rlp_encode_bytes(&vec![1u8; 60]);
    let enc = rlp_encode_list(&[big_item.clone()]);
    assert_eq!(enc[0], 0xf8);
    assert_eq!(enc[1], big_item.len() as u8);
}

#[test]
fn length_prefix_bytes() {
    assert_eq!(length_to_bytes(0), vec![0]);
    assert_eq!(length_to_bytes(56), vec![56]);
    assert_eq!(length_to_bytes(256), vec![1, 0]);
    assert_eq!(length_to_bytes(0x12345), vec![0x01, 0x23, 0x45]);
}

#[test]
fn trim_leading_zeroes_examples() {
    assert_eq!(trim_leading_zeroes(&[0, 0, 5, 0]), vec![5, 0]);
    assert_eq!(trim_leading_zeroes(&[0, 0, 0]), Vec::<u8>::new());
    assert_eq!(trim_leading_zeroes(&[1, 2]), vec![1, 2]);
}

#[test]
fn hex_conversion() {
    let bytes = vec![0u8; 20];
    let hex = to_hex_address(&bytes).unwrap();
    assert_eq!(hex.len(), 42);
    assert!(hex.starts_with("0x"));
}

#[test]
fn nat_helpers() {
    let n32 = BigNum::from_u64(100);
    assert_eq!(n32.to_u32().unwrap(), 100_u32);

    let n64 = BigNum::from_u64(1_000_000);
    assert_eq!(n64.to_u64().unwrap(), 1_000_000_u64);
}

#[test]
fn hex_encoding_matches_reference() {
    let bytes: Vec<u8> = (0..=255u8).collect();
    let ours = to_hex_prefixed(&bytes);
    assert_eq!(ours, format!("0x{}", hex::encode(&bytes)));
}

#[test]
fn hex_parsing() {
    assert_eq!(parse_hex_bytes("0x1234").unwrap(), vec![0x12, 0x34]);
    assert_eq!(parse_hex_bytes("0x123").unwrap(), vec![0x01, 0x23]);
    assert_eq!(parse_hex_bytes("0x").unwrap(), Vec::<u8>::new());
    assert_eq!(parse_hex_bytes("  0xAbCd  ").unwrap(), vec![0xab, 0xcd]);
    assert!(parse_hex_bytes("1234").is_err());
    assert!(matches!(
        parse_hex_bytes("0x12zz"),
        Err(RelayError::HexDecodeFailed { .. })
    ));
    // The refused value travels in its trimmed form.
    match parse_hex_bytes("  0x12zz  ") {
        Err(RelayError::HexDecodeFailed { value }) => assert_eq!(value, "0x12zz"),
        _ => panic!("expected the decode error"),
    }
}

#[test]
fn address_normalisation() {
    let addr = "0x8a9B000000000000000000000000000000000001";
    let normal = normalize_evm_address(addr).unwrap();
    assert_eq!(normal, "0x8a9b000000000000000000000000000000000001");
    // A wrong shape names the length; a bad digit names the hex decode.
    assert!(matches!(
        normalize_evm_address("0x1234"),
        Err(RelayError::InvalidAddressLength { expected: 42, .. })
    ));
    assert!(matches!(
        normalize_evm_address("8a9b000000000000000000000000000000000001ab"),
        Err(RelayError::InvalidAddressLength { expected: 42, .. })
    ));
    assert!(matches!(
        normalize_evm_address("0xzz9b000000000000000000000000000000000001"),
        Err(RelayError::HexDecodeFailed { .. })
    ));
    // Normalising is idempotent.
    assert_eq!(normalize_evm_address(&normal).unwrap(), normal);
    let bytes = evm_address_bytes("0x8a9b000000000000000000000000000000000001").unwrap();
    assert_eq!(bytes.len(), 20);
    assert_eq!(bytes[0], 0x8a);
    assert_eq!(bytes[19], 0x01);
}

#[test]
fn bignum_roundtrips_and_order() {
    let a = BigNum::from_u128(0xdead_beef_0000_0001);
    assert_eq!(a.to_u128().unwrap(), 0xdead_beef_0000_0001);
    let b = BigNum::from_be_bytes(&[0x01, 0x00, 0x00]);
    assert_eq!(b.to_u64().unwrap(), 65536);
    let zero = BigNum::from_be_bytes(&[0, 0]);
    assert!(zero.is_zero());
    assert!(zero.lt(&b));
    assert!(!b.lt(&zero));
    assert!(b.le(&b));
    assert!(b.eq_value(&BigNum::from_u64(65536)));
    let sum = a.add_value(&b);
    assert_eq!(sum.to_u128().unwrap(), 0xdead_beef_0000_0001 + 65536);
    // carry propagation across a byte boundary
    let c = BigNum::from_be_bytes(&[0xff, 0xff]);
    let d = BigNum::from_u64(1);
    assert_eq!(c.add_value(&d).to_u64().unwrap(), 0x1_0000);
    // a value wider than 128 bits is refused by the narrowing reads
    let wide = BigNum::from_be_bytes(&[1u8; 17]);
    assert!(wide.to_u128().is_none());
}

#[test]
fn abi_words() {
    assert_eq!(pad_left(&[1, 2], 4), vec![0, 0, 1, 2]);
    assert_eq!(pad_left(&[1, 2, 3, 4, 5], 4), vec![2, 3, 4, 5]);
    let word = encode_uint_u8(7);
    assert_eq!(word.len(), 32);
    assert_eq!(word[31], 7);
    assert!(word[..31].iter().all(|&b| b == 0));
    let v = encode_uint_value(&BigNum::from_u64(0x0102)).unwrap();
    assert_eq!(v.len(), 32);
    assert_eq!(&v[30..], &[0x01, 0x02]);
    let too_wide = BigNum::from_be_bytes(&[1u8; 33]);
    assert!(matches!(
        encode_uint_value(&too_wide),
        Err(RelayError::NumberOutOfRange { .. })
    ));
    assert!(encode_bytes32(&[0u8; 32]).is_ok());
    assert!(matches!(
        encode_bytes32(&[0u8; 31]),
        Err(RelayError::InvalidNonceLength { .. })
    ));
}

#[test]
fn abi_call_encodings() {
    let from = [0x11u8; 20];
    let nonce = [0x22u8; 32];
    let data = encode_authorization_state_call(&from, &nonce).unwrap();
    assert_eq!(data.len(), 4 + 32 + 32);
    assert_eq!(&data[..4], &reference_keccak(b"authorizationState(address,bytes32)")[..4]);
    assert!(data[4..16].iter().all(|&b| b == 0));
    assert_eq!(&data[16..36], &from[..]);
    assert_eq!(&data[36..68], &nonce[..]);

    let to = [0x33u8; 20];
    let r = [0x44u8; 32];
    let s = [0x55u8; 32];
    let call = encode_transfer_with_authorization_call(
        &from,
        &to,
        &BigNum::from_u64(1_000),
        &BigNum::from_u64(0),
        &BigNum::from_u64(2_000_000_000),
        &nonce,
        27,
        &r,
        &s,
    )
    .unwrap();
    assert_eq!(call.len(), 4 + 9 * 32);
    assert_eq!(call[35], 0x11);
    assert_eq!(call[67], 0x33);
    assert!(call[68..98].iter().all(|&b| b == 0));
    assert_eq!(call[98], 0x03);
    assert_eq!(call[99], 0xe8);
    assert_eq!(call[4 + 6 * 32 + 31], 27);
    assert_eq!(&call[4 + 7 * 32..4 + 8 * 32], &r[..]);
    assert_eq!(&call[4 + 8 * 32..4 + 9 * 32], &s[..]);

    let bad = encode_transfer_with_authorization_call(
        &from,
        &to,
        &BigNum::from_u64(1),
        &BigNum::from_u64(0),
        &BigNum::from_u64(1),
        &nonce,
        27,
        &[0u8; 31],
        &s,
    );
    assert!(matches!(
        bad,
        Err(RelayError::InvalidSignatureLength { expected: 32, actual: 31, .. })
    ));
}

#[test]
fn bool_decoding() {
    assert!(!decode_bool_abi(&[]));
    assert!(!decode_bool_abi(&[0u8; 32]));
    let mut one = [0u8; 32];
    one[31] = 1;
    assert!(decode_bool_abi(&one));
    assert!(decode_bool_abi(&[0, 0, 9]));
}
