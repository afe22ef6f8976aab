use k256::ecdsa::{RecoveryId, Signature, SigningKey, VerifyingKey};
use relayer::bignum::BigNum;
use relayer::errors::RelayError;
use relayer::keccak::keccak256;
use relayer::signer::{
    address_of_uncompressed_pubkey, derive_y_parity, relayer_address_from_public_key,
    signature_parts_from_reply,
};
use relayer::tx::{signed_tx_items, tx_digest, typed_envelope, unsigned_tx_items};

fn test_key() -> SigningKey {
    // A fixed non-zero scalar: any value below the curve order works.
    let mut secret = [0u8; 32];
    secret[31] = 0x42;
    secret[0] = 0x01;
    SigningKey::from_slice(&secret).unwrap()
}

fn address_of(vk: &VerifyingKey) -> Vec<u8> {
    let point = vk.to_encoded_point(false);
    address_of_uncompressed_pubkey(point.as_bytes())
}

#[test]
fn sixty_four_byte_signature_recovers_unique_parity() {
    let key = test_key();
    let address = address_of(key.verifying_key());
    let digest = keccak256(b"a digest the remote signer saw");
    let (sig, expected_id): (Signature, RecoveryId) =
        key.sign_prehash_recoverable(&digest).unwrap();
    let rs = sig.to_bytes().to_vec();
    assert_eq!(rs.len(), 64);

    let y = derive_y_parity(&digest, &rs, &address).unwrap();
    assert_eq!(y, u8::from(expected_id.is_y_odd()));

    // Exactly one of the plain recovery ids matches the address.
    let mut matches = 0;
    for candidate in 0u8..2 {
        let rid = RecoveryId::try_from(candidate).unwrap();
        if let Ok(vk) = VerifyingKey::recover_from_prehash(&digest, &sig, rid) {
            if address_of(&vk) == address {
                matches += 1;
                assert_eq!(candidate % 2, y);
            }
        }
    }
    assert_eq!(matches, 1);
}

#[test]
fn sixty_four_byte_reply_flows_into_signature_parts() {
    let key = test_key();
    let address = address_of(key.verifying_key());
    let digest = keccak256(b"another digest");
    let (sig, expected_id): (Signature, RecoveryId) =
        key.sign_prehash_recoverable(&digest).unwrap();
    let rs = sig.to_bytes().to_vec();
    let parts = signature_parts_from_reply(&rs, &digest, &address).unwrap();
    assert_eq!(parts.y_parity, u8::from(expected_id.is_y_odd()));
    // The halves come back trimmed of leading zeroes but never empty.
    assert!(!parts.r.is_empty() && parts.r.len() <= 32);
    assert!(!parts.s.is_empty() && parts.s.len() <= 32);
    assert_eq!(parts.r[0] != 0 || parts.r.len() == 1, true);
}

#[test]
fn sixty_five_byte_reply_is_taken_verbatim() {
    let digest = [0x11u8; 32];
    let address = [0x22u8; 20];
    let mut sig = Vec::new();
    sig.extend_from_slice(&[0x00; 31]);
    sig.push(0x7f);
    sig.extend_from_slice(&[0x00; 31]);
    sig.push(0x01);
    sig.push(1);
    let parts = signature_parts_from_reply(&sig, &digest, &address).unwrap();
    assert_eq!(parts.y_parity, 1);
    assert_eq!(parts.r, vec![0x7f]);
    assert_eq!(parts.s, vec![0x01]);
}

#[test]
fn other_widths_are_refused() {
    let digest = [0x11u8; 32];
    let address = [0x22u8; 20];
    let sig = vec![0u8; 63];
    assert!(matches!(
        signature_parts_from_reply(&sig, &digest, &address),
        Err(RelayError::InvalidSignatureLength { expected: 64, actual: 63, .. })
    ));
}

#[test]
fn recovery_against_wrong_address_fails() {
    let key = test_key();
    let digest = keccak256(b"yet another digest");
    let (sig, _) = key.sign_prehash_recoverable(&digest).unwrap();
    let rs = sig.to_bytes().to_vec();
    let wrong = [0xeeu8; 20];
    match derive_y_parity(&digest, &rs, &wrong) {
        Err(RelayError::SignatureRecoveryFailed { message }) => {
            assert_eq!(message, "no recovery id produced expected relayer address");
        },
        _ => panic!("expected recovery to fail"),
    }
}

#[test]
fn relayer_address_matches_direct_hash() {
    let key = test_key();
    let compressed = key.verifying_key().to_encoded_point(true);
    let derived = relayer_address_from_public_key(compressed.as_bytes()).unwrap();
    let direct = address_of(key.verifying_key());
    assert_eq!(derived, format!("0x{}", hex::encode(direct)));
    assert!(relayer_address_from_public_key(&[0u8; 10]).is_err());
}

#[test]
fn signing_digest_survives_field_splice() {
    // Recomputing the digest from the signed envelope's first nine items
    // yields the digest that was signed.
    let chain = BigNum::from_u64(80002);
    let nonce = BigNum::from_u64(5);
    let prio = BigNum::from_u64(2_400_000_000);
    let max_fee = BigNum::from_u64(62_400_000_000);
    let gas = BigNum::from_u64(144_000);
    let to = [0x8au8; 20];
    let data = vec![0xde, 0xad, 0xbe, 0xef];
    let items9 = unsigned_tx_items(&chain, &nonce, &prio, &max_fee, &gas, &to, &data);
    let digest = tx_digest(&items9);
    let items12 = signed_tx_items(&items9, 1, &[0x44; 32], &[0x55; 32]);
    assert_eq!(items12.len(), 12);
    let digest_again = tx_digest(&items12[..9]);
    assert_eq!(digest, digest_again);
    // And the broadcast payload is the type-2 envelope of all twelve.
    let raw = typed_envelope(&items12);
    assert_eq!(raw[0], 0x02);
    assert!(raw.len() > typed_envelope(&items9).len());
}

#[test]
fn envelope_matches_hand_rolled_rlp() {
    // A tiny envelope cross-checked byte by byte.
    let chain = BigNum::from_u64(1);
    let nonce = BigNum::from_u64(0);
    let prio = BigNum::from_u64(2);
    let max_fee = BigNum::from_u64(3);
    let gas = BigNum::from_u64(21000);
    let to = [0x01u8; 20];
    let data: Vec<u8> = Vec::new();
    let items = unsigned_tx_items(&chain, &nonce, &prio, &max_fee, &gas, &to, &data);
    let payload = typed_envelope(&items);
    let mut expected = vec![0x02u8];
    let mut body = vec![
        0x01, // chain id 1
        0x80, // nonce 0
        0x02, // priority 2
        0x03, // max fee 3
        0x82, 0x52, 0x08, // gas 21000
        0x94,
    ];
    body.extend_from_slice(&to);
    body.push(0x80); // value 0
    body.push(0x80); // empty data
    body.push(0xc0); // empty access list
    expected.push(0xc0 + body.len() as u8);
    expected.extend_from_slice(&body);
    assert_eq!(payload, expected);
}
