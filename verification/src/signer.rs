//! Recoverable-signature assembly for the remote threshold-ECDSA signer:
//! accepting 65-byte replies verbatim, deriving `y_parity` for 64-byte
//! replies by secp256k1 public-key recovery against the relayer address,
//! and trimming `r` and `s` to their RLP canonical form.

use vstd::prelude::*;
use crate::errors::RelayError;
use crate::keccak::{keccak256, spec_keccak256};
use crate::rlp::{push_all, spec_trim_leading_zeroes, trim_leading_zeroes};

verus! {

/// What `ecdsa`'s `VerifyingKey::recover_from_prehash` yields for a
/// digest, a 64-byte `r ‖ s` signature and a recovery id, as the SEC1
/// uncompressed encoding of the recovered key: a function of those three
/// arguments alone.
pub uninterp spec fn spec_recovered_pubkey(digest: Seq<u8>, rs: Seq<u8>, recovery_id: u8) -> Option<
    Seq<u8>,
>;

/// Whether 64 bytes parse as an `r ‖ s` secp256k1 signature (each half a
/// nonzero scalar below the curve order): a function of the bytes alone.
pub uninterp spec fn spec_valid_rs(rs: Seq<u8>) -> bool;

/// Relies on ecdsa's `Signature::try_from` (k256's secp256k1
/// instantiation): whether the bytes parse depends on the bytes alone.
#[verifier::external_body]
fn signature_rs_parses(rs: &[u8]) -> (r: bool)
    requires
        rs@.len() == 64,
    ensures
        r == spec_valid_rs(rs@),
{
    k256::ecdsa::Signature::try_from(rs).is_ok()
}

/// Relies on ecdsa's `VerifyingKey::recover_from_prehash` (k256's
/// secp256k1 instantiation): recovery is elliptic-curve arithmetic on the
/// digest, the signature and the recovery id, so its result depends on
/// them alone; the key comes back SEC1 uncompressed.
#[verifier::external_body]
fn recover_pubkey_uncompressed(digest: &[u8], rs: &[u8], recovery_id: u8) -> (r: Option<Vec<u8>>)
    requires
        digest@.len() == 32,
        rs@.len() == 64,
        recovery_id < 4,
    ensures
        match r {
            Some(pk) => spec_recovered_pubkey(digest@, rs@, recovery_id) == Some(pk@),
            None => spec_recovered_pubkey(digest@, rs@, recovery_id) is None,
        },
{
    let sig = k256::ecdsa::Signature::try_from(rs).ok()?;
    let rec_id = k256::ecdsa::RecoveryId::try_from(recovery_id).ok()?;
    let vk = k256::ecdsa::VerifyingKey::recover_from_prehash(digest, &sig, rec_id).ok()?;
    Some(vk.to_encoded_point(false).as_bytes().to_vec())
}

/// What decoding an SEC1 public key and re-encoding it uncompressed
/// yields: a function of the bytes alone.
pub uninterp spec fn spec_uncompressed_pubkey(sec1: Seq<u8>) -> Option<Seq<u8>>;

/// Relies on ecdsa's `VerifyingKey::from_sec1_bytes` (k256's secp256k1
/// instantiation) and `to_encoded_point(false)`: decoding an SEC1 public
/// key and re-encoding it uncompressed is point arithmetic on the bytes
/// alone.
#[verifier::external_body]
fn uncompress_pubkey(sec1: &[u8]) -> (r: Option<Vec<u8>>)
    ensures
        match r {
            Some(pk) => spec_uncompressed_pubkey(sec1@) == Some(pk@),
            None => spec_uncompressed_pubkey(sec1@) is None,
        },
{
    match k256::ecdsa::VerifyingKey::from_sec1_bytes(sec1) {
        Ok(vk) => Some(vk.to_encoded_point(false).as_bytes().to_vec()),
        Err(_) => None,
    }
}

/// Derives the relayer's EVM address from the signer's SEC1 public key:
/// decompress, hash the 64 coordinate bytes with Keccak-256, keep the low
/// 20 bytes, render as `0x…`. The error strings are the ones the admin
/// surface reports.
pub fn relayer_address_from_public_key(public_key: &[u8]) -> (r: Result<String, String>)
    ensures
        match r {
            Ok(s) => spec_uncompressed_pubkey(public_key@) matches Some(pk) && pk.len() == 65
                && s@ == "0x"@ + crate::hexfmt::spec_hex_chars(spec_address_of_pubkey(pk)),
            Err(m) => {
                ||| spec_uncompressed_pubkey(public_key@) is None && m@
                    == "invalid public key bytes"@
                ||| spec_uncompressed_pubkey(public_key@) matches Some(pk) && pk.len() != 65
                    && m@ == "unexpected uncompressed public key length"@
            },
        },
{
    let pk = match uncompress_pubkey(public_key) {
        Some(pk) => pk,
        None => {
            return Err(String::from_str("invalid public key bytes"));
        },
    };
    if pk.len() != 65 {
        return Err(String::from_str("unexpected uncompressed public key length"));
    }
    let addr = address_of_uncompressed_pubkey(pk.as_slice());
    Ok(crate::hexfmt::to_hex_prefixed(addr.as_slice()))
}

/// The 20-byte EVM address of an SEC1 uncompressed public key: the last
/// 20 bytes of the Keccak-256 hash of the 64 coordinate bytes.
pub open spec fn spec_address_of_pubkey(pk: Seq<u8>) -> Seq<u8>
    recommends
        pk.len() == 65,
{
    spec_keccak256(pk.skip(1)).skip(12)
}

/// Computes the EVM address of a 65-byte SEC1 uncompressed public key.
pub fn address_of_uncompressed_pubkey(pk: &[u8]) -> (out: Vec<u8>)
    requires
        pk@.len() == 65,
    ensures
        out@ == spec_address_of_pubkey(pk@),
        out@.len() == 20,
{
    let mut coords: Vec<u8> = Vec::new();
    let mut i: usize = 1;
    while i < 65
        invariant
            1 <= i <= 65,
            pk@.len() == 65,
            coords@.len() == i - 1,
            forall|j: int| 0 <= j < i - 1 ==> coords@[j] == pk@[j + 1],
        decreases 65 - i,
    {
        coords.push(pk[i]);
        i = i + 1;
    }
    proof {
        assert(coords@ =~= pk@.skip(1));
    }
    let hash = keccak256(coords.as_slice());
    let mut out: Vec<u8> = Vec::new();
    let mut i: usize = 12;
    while i < 32
        invariant
            12 <= i <= 32,
            hash@.len() == 32,
            out@.len() == i - 12,
            forall|j: int| 0 <= j < i - 12 ==> out@[j] == hash@[j + 12],
        decreases 32 - i,
    {
        out.push(hash[i]);
        i = i + 1;
    }
    proof {
        assert(out@ =~= hash@.skip(12));
    }
    out
}

/// Whether recovery id `recovery_id` recovers a key whose address is the
/// expected one.
pub open spec fn spec_candidate_matches(
    digest: Seq<u8>,
    rs: Seq<u8>,
    recovery_id: u8,
    expected: Seq<u8>,
) -> bool {
    match spec_recovered_pubkey(digest, rs, recovery_id) {
        Some(pk) => pk.len() == 65 && spec_address_of_pubkey(pk) == expected,
        None => false,
    }
}

/// The first of the four canonical recovery ids whose recovered key has
/// the expected address.
pub open spec fn spec_first_recovery(digest: Seq<u8>, rs: Seq<u8>, expected: Seq<u8>) -> Option<
    u8,
> {
    if spec_candidate_matches(digest, rs, 0, expected) {
        Some(0u8)
    } else if spec_candidate_matches(digest, rs, 1, expected) {
        Some(1u8)
    } else if spec_candidate_matches(digest, rs, 2, expected) {
        Some(2u8)
    } else if spec_candidate_matches(digest, rs, 3, expected) {
        Some(3u8)
    } else {
        None
    }
}

/// Tries the four canonical recovery ids in order and returns the low bit
/// of the first whose recovered key hashes to the expected relayer
/// address.
#[verifier::loop_isolation(false)]
pub fn derive_y_parity(message_hash: &[u8], signature_rs: &[u8], expected_address: &[u8]) -> (r:
    Result<u8, RelayError>)
    requires
        message_hash@.len() == 32,
        signature_rs@.len() == 64,
        expected_address@.len() == 20,
    ensures
        match r {
            Ok(y) => spec_valid_rs(signature_rs@) && (spec_first_recovery(
                message_hash@,
                signature_rs@,
                expected_address@,
            ) matches Some(id) && y == id % 2),
            Err(e) => {
                &&& e matches RelayError::SignatureRecoveryFailed { message } && (message@
                    == "invalid signature bytes"@ || message@
                    == "no recovery id produced expected relayer address"@)
                &&& !spec_valid_rs(signature_rs@) ==> (e
                    matches RelayError::SignatureRecoveryFailed { message } && message@
                    == "invalid signature bytes"@)
                &&& spec_valid_rs(signature_rs@) ==> spec_first_recovery(
                    message_hash@,
                    signature_rs@,
                    expected_address@,
                ) is None && (e matches RelayError::SignatureRecoveryFailed { message }
                    && message@ == "no recovery id produced expected relayer address"@)
            },
        },
{
    if !signature_rs_parses(signature_rs) {
        return Err(
            RelayError::SignatureRecoveryFailed {
                message: String::from_str("invalid signature bytes"),
            },
        );
    }
    let mut recovery_id: u8 = 0;
    while recovery_id < 4
        invariant
            recovery_id <= 4,
            forall|j: u8| j < recovery_id ==> !spec_candidate_matches(
                message_hash@,
                signature_rs@,
                j,
                expected_address@,
            ),
        decreases 4 - recovery_id,
    {
        match recover_pubkey_uncompressed(message_hash, signature_rs, recovery_id) {
            Some(pk) => {
                if pk.len() == 65 {
                    let addr = address_of_uncompressed_pubkey(pk.as_slice());
                    if bytes_eq(addr.as_slice(), expected_address) {
                        proof {
                            assert(spec_candidate_matches(
                                message_hash@,
                                signature_rs@,
                                recovery_id,
                                expected_address@,
                            ));
                        }
                        return Ok(recovery_id % 2);
                    }
                }
            },
            None => {},
        }
        recovery_id = recovery_id + 1;
    }
    proof {
        assert(!spec_candidate_matches(message_hash@, signature_rs@, 0, expected_address@));
        assert(!spec_candidate_matches(message_hash@, signature_rs@, 1, expected_address@));
        assert(!spec_candidate_matches(message_hash@, signature_rs@, 2, expected_address@));
        assert(!spec_candidate_matches(message_hash@, signature_rs@, 3, expected_address@));
    }
    Err(
        RelayError::SignatureRecoveryFailed {
            message: String::from_str("no recovery id produced expected relayer address"),
        },
    )
}

fn bytes_eq(a: &[u8], b: &[u8]) -> (r: bool)
    ensures
        r == (a@ == b@),
{
    if a.len() != b.len() {
        proof {
            assert(a@.len() != b@.len());
        }
        return false;
    }
    let mut i: usize = 0;
    while i < a.len()
        invariant
            i <= a@.len(),
            a@.len() == b@.len(),
            forall|j: int| 0 <= j < i ==> a@[j] == b@[j],
        decreases a@.len() - i,
    {
        if a[i] != b[i] {
            return false;
        }
        i = i + 1;
    }
    proof {
        assert(a@ =~= b@);
    }
    true
}

/// A signature ready for the wire: parity bit and canonically trimmed
/// halves.
pub struct SignatureParts {
    pub y_parity: u8,
    pub r: Vec<u8>,
    pub s: Vec<u8>,
}

/// A half with its leading zeroes trimmed; an all-zero half stays one
/// zero byte.
pub open spec fn spec_trimmed_half(b: Seq<u8>) -> Seq<u8> {
    if spec_trim_leading_zeroes(b).len() == 0 {
        seq![0u8]
    } else {
        spec_trim_leading_zeroes(b)
    }
}

fn trimmed_half(b: &[u8]) -> (out: Vec<u8>)
    ensures
        out@ == spec_trimmed_half(b@),
{
    let mut t = trim_leading_zeroes(b);
    if t.len() == 0 {
        t.push(0);
        proof {
            assert(t@ =~= seq![0u8]);
        }
    }
    t
}

/// Assembles the signature parts from a signer reply. A 65-byte reply
/// carries `y_parity` verbatim in its last byte; a 64-byte reply has the
/// parity derived by public-key recovery against the relayer address;
/// every other width is refused.
pub fn signature_parts_from_reply(
    signature: &[u8],
    message_hash: &[u8],
    expected_address: &[u8],
) -> (r: Result<SignatureParts, RelayError>)
    requires
        message_hash@.len() == 32,
        expected_address@.len() == 20,
    ensures
        match r {
            Ok(parts) => {
                &&& (signature@.len() == 65 || signature@.len() == 64)
                &&& parts.r@ == spec_trimmed_half(signature@.subrange(0, 32))
                &&& parts.s@ == spec_trimmed_half(signature@.subrange(32, 64))
                &&& signature@.len() == 65 ==> parts.y_parity == signature@[64]
                &&& signature@.len() == 64 ==> spec_valid_rs(signature@)
                &&& signature@.len() == 64 ==> (spec_first_recovery(
                    message_hash@,
                    signature@,
                    expected_address@,
                ) matches Some(id) && parts.y_parity == id % 2)
            },
            Err(e) => {
                ||| signature@.len() != 65 && signature@.len() != 64 && (e
                    matches RelayError::InvalidSignatureLength { field, expected, actual }
                    && field@ == "signature"@ && expected == 64 && actual == signature@.len())
                ||| signature@.len() == 64 && (e
                    matches RelayError::SignatureRecoveryFailed { .. }) && (!spec_valid_rs(
                    signature@,
                ) || spec_first_recovery(
                    message_hash@,
                    signature@,
                    expected_address@,
                ) is None)
            },
        },
{
    if signature.len() == 65 {
        let mut r_half: Vec<u8> = Vec::new();
        let mut i: usize = 0;
        while i < 32
            invariant
                i <= 32,
                signature@.len() == 65,
                r_half@.len() == i,
                forall|j: int| 0 <= j < i ==> r_half@[j] == signature@[j],
            decreases 32 - i,
        {
            r_half.push(signature[i]);
            i = i + 1;
        }
        let mut s_half: Vec<u8> = Vec::new();
        let mut i: usize = 32;
        while i < 64
            invariant
                32 <= i <= 64,
                signature@.len() == 65,
                s_half@.len() == i - 32,
                forall|j: int| 0 <= j < i - 32 ==> s_half@[j] == signature@[j + 32],
            decreases 64 - i,
        {
            s_half.push(signature[i]);
            i = i + 1;
        }
        proof {
            assert(r_half@ =~= signature@.subrange(0, 32));
            assert(s_half@ =~= signature@.subrange(32, 64));
        }
        Ok(
            SignatureParts {
                y_parity: signature[64],
                r: trimmed_half(r_half.as_slice()),
                s: trimmed_half(s_half.as_slice()),
            },
        )
    } else if signature.len() == 64 {
        let y = derive_y_parity(message_hash, signature, expected_address)?;
        let mut r_half: Vec<u8> = Vec::new();
        let mut i: usize = 0;
        while i < 32
            invariant
                i <= 32,
                signature@.len() == 64,
                r_half@.len() == i,
                forall|j: int| 0 <= j < i ==> r_half@[j] == signature@[j],
            decreases 32 - i,
        {
            r_half.push(signature[i]);
            i = i + 1;
        }
        let mut s_half: Vec<u8> = Vec::new();
        let mut i: usize = 32;
        while i < 64
            invariant
                32 <= i <= 64,
                signature@.len() == 64,
                s_half@.len() == i - 32,
                forall|j: int| 0 <= j < i - 32 ==> s_half@[j] == signature@[j + 32],
            decreases 64 - i,
        {
            s_half.push(signature[i]);
            i = i + 1;
        }
        proof {
            assert(r_half@ =~= signature@.subrange(0, 32));
            assert(s_half@ =~= signature@.subrange(32, 64));
        }
        Ok(
            SignatureParts {
                y_parity: y,
                r: trimmed_half(r_half.as_slice()),
                s: trimmed_half(s_half.as_slice()),
            },
        )
    } else {
        Err(
            RelayError::InvalidSignatureLength {
                field: String::from_str("signature"),
                expected: 64,
                actual: signature.len(),
            },
        )
    }
}

} // verus!
