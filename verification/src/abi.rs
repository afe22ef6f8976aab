//! Fixed-layout ABI encoding of the two token-contract calls the relayer
//! makes, and the boolean decoding of `eth_call` results.

use vstd::prelude::*;
use vstd::string::StringSliceAdditionalSpecFns;
use crate::bignum::{BigNum, lemma_be_val_lower_bound, lemma_pow256_monotone};
use crate::errors::RelayError;
use crate::keccak::{function_selector, spec_function_selector};
use crate::rlp::{lemma_be_bytes_len_bound, lemma_be_val_upper_bound, pow256, push_all, spec_be_bytes};

verus! {

/// `value` left-padded with zeroes to `len` bytes; a longer value keeps
/// only its low-order `len` bytes.
pub open spec fn spec_pad_left(value: Seq<u8>, len: nat) -> Seq<u8> {
    if value.len() >= len {
        value.skip(value.len() - len)
    } else {
        Seq::new((len - value.len()) as nat, |i: int| 0u8) + value
    }
}

/// Left-pads (or left-truncates) a byte string to `len` bytes.
#[verifier::loop_isolation(false)]
pub fn pad_left(value: &[u8], len: usize) -> (out: Vec<u8>)
    ensures
        out@ == spec_pad_left(value@, len as nat),
        out@.len() == len,
{
    let mut out: Vec<u8> = Vec::new();
    if value.len() >= len {
        let start = value.len() - len;
        let mut i: usize = start;
        while i < value.len()
            invariant
                start <= i <= value@.len(),
                out@ == value@.skip(start as int).take(i - start),
            decreases value@.len() - i,
        {
            out.push(value[i]);
            proof {
                assert(value@.skip(start as int).take(i - start).push(value@[i as int])
                    =~= value@.skip(start as int).take(i + 1 - start));
            }
            i = i + 1;
        }
        proof {
            assert(value@.skip(start as int).take(value@.len() - start) =~= value@.skip(
                start as int,
            ));
        }
    } else {
        let zeroes = len - value.len();
        let mut i: usize = 0;
        while i < zeroes
            invariant
                i <= zeroes,
                out@.len() == i,
                forall|j: int| 0 <= j < i ==> out@[j] == 0u8,
            decreases zeroes - i,
        {
            out.push(0);
            i = i + 1;
        }
        push_all(&mut out, value);
        proof {
            assert(out@ =~= spec_pad_left(value@, len as nat));
        }
    }
    out
}

/// A `u8` as a 32-byte ABI word.
pub fn encode_uint_u8(value: u8) -> (out: Vec<u8>)
    ensures
        out@ == spec_pad_left(seq![value], 32),
        out@.len() == 32,
{
    let mut v: Vec<u8> = Vec::new();
    v.push(value);
    proof {
        assert(v@ =~= seq![value]);
    }
    pad_left(v.as_slice(), 32)
}

/// An unsigned integer as a 32-byte ABI word.
pub open spec fn spec_encode_uint256(n: nat) -> Seq<u8> {
    spec_pad_left(spec_be_bytes(n), 32)
}

/// A `BigNum` as a 32-byte ABI word; values of 256 bits or more are
/// refused with `NumberOutOfRange`.
pub fn encode_uint_value(value: &BigNum) -> (r: Result<Vec<u8>, RelayError>)
    requires
        value.wf(),
    ensures
        match r {
            Ok(v) => value.value() < pow256(32) && v@ == spec_encode_uint256(value.value())
                && v@.len() == 32,
            Err(e) => value.value() >= pow256(32) && (e matches RelayError::NumberOutOfRange {
                field,
            } && field@ == "uint256"@),
        },
{
    if value.bytes.len() > 32 {
        proof {
            lemma_be_val_lower_bound(value.bytes@);
            lemma_pow256_monotone(32, (value.bytes@.len() - 1) as nat);
        }
        return Err(RelayError::NumberOutOfRange { field: String::from_str("uint256") });
    }
    proof {
        lemma_be_val_upper_bound(value.bytes@);
        lemma_pow256_monotone(value.bytes@.len(), 32);
        crate::rlp::lemma_be_bytes_of_be_val(value.bytes@);
    }
    Ok(pad_left(value.bytes.as_slice(), 32))
}

/// A value that must be exactly 32 opaque bytes (the EIP-3009 nonce).
pub fn encode_bytes32(value: &[u8]) -> (r: Result<Vec<u8>, RelayError>)
    ensures
        match r {
            Ok(v) => value@.len() == 32 && v@ == value@,
            Err(e) => value@.len() != 32 && (e matches RelayError::InvalidNonceLength {
                expected,
                actual,
            } && expected == 32 && actual == value@.len()),
        },
{
    if value.len() != 32 {
        return Err(RelayError::InvalidNonceLength { expected: 32, actual: value.len() });
    }
    let mut out: Vec<u8> = Vec::new();
    push_all(&mut out, value);
    proof {
        assert(out@ =~= value@);
    }
    Ok(out)
}

/// `true` exactly when the result's last byte is non-zero; an empty
/// result decodes as `false`.
pub open spec fn spec_decode_bool(bytes: Seq<u8>) -> bool {
    bytes.len() > 0 && bytes.last() != 0
}

pub fn decode_bool_abi(bytes: &[u8]) -> (r: bool)
    ensures
        r == spec_decode_bool(bytes@),
{
    if bytes.is_empty() {
        false
    } else {
        bytes[bytes.len() - 1] != 0
    }
}

/// The calldata of `authorizationState(address,bytes32)`: its selector,
/// the padded sender, and the 32-byte nonce.
pub open spec fn spec_auth_state_call(from: Seq<u8>, nonce: Seq<u8>) -> Seq<u8> {
    spec_function_selector("authorizationState(address,bytes32)".spec_bytes()) + spec_pad_left(
        from,
        32,
    ) + nonce
}

pub fn encode_authorization_state_call(from: &[u8], nonce: &[u8]) -> (r: Result<
    Vec<u8>,
    RelayError,
>)
    ensures
        match r {
            Ok(d) => nonce@.len() == 32 && d@ == spec_auth_state_call(from@, nonce@),
            Err(e) => nonce@.len() != 32 && (e matches RelayError::InvalidNonceLength {
                expected,
                actual,
            } && expected == 32 && actual == nonce@.len()),
        },
{
    let mut data = function_selector("authorizationState(address,bytes32)");
    let padded = pad_left(from, 32);
    push_all(&mut data, padded.as_slice());
    let nonce_word = encode_bytes32(nonce)?;
    push_all(&mut data, nonce_word.as_slice());
    proof {
        assert(data@ =~= spec_auth_state_call(from@, nonce@));
    }
    Ok(data)
}

/// The nine-word calldata of `transferWithAuthorization`.
pub open spec fn spec_transfer_call(
    from: Seq<u8>,
    to: Seq<u8>,
    value: nat,
    valid_after: nat,
    valid_before: nat,
    nonce: Seq<u8>,
    sig_v: u8,
    sig_r: Seq<u8>,
    sig_s: Seq<u8>,
) -> Seq<u8> {
    spec_function_selector(
        "transferWithAuthorization(address,address,uint256,uint256,uint256,bytes32,uint8,bytes32,bytes32)".spec_bytes(),
    ) + spec_pad_left(from, 32) + spec_pad_left(to, 32) + spec_encode_uint256(value)
        + spec_encode_uint256(valid_after) + spec_encode_uint256(valid_before) + nonce
        + spec_pad_left(seq![sig_v], 32) + sig_r + sig_s
}

/// Encodes the `transferWithAuthorization` call. The signature halves and
/// the nonce must be exactly 32 bytes; the three integers must fit 256
/// bits. Checks run in that order: `sig_r`, `sig_s`, then the integers as
/// the words are laid down, then the nonce.
pub fn encode_transfer_with_authorization_call(
    from: &[u8],
    to: &[u8],
    value: &BigNum,
    valid_after: &BigNum,
    valid_before: &BigNum,
    nonce: &[u8],
    sig_v: u8,
    sig_r: &[u8],
    sig_s: &[u8],
) -> (r: Result<Vec<u8>, RelayError>)
    requires
        value.wf(),
        valid_after.wf(),
        valid_before.wf(),
    ensures
        match r {
            Ok(d) => {
                &&& sig_r@.len() == 32
                &&& sig_s@.len() == 32
                &&& nonce@.len() == 32
                &&& value.value() < pow256(32)
                &&& valid_after.value() < pow256(32)
                &&& valid_before.value() < pow256(32)
                &&& d@ == spec_transfer_call(
                    from@,
                    to@,
                    value.value(),
                    valid_after.value(),
                    valid_before.value(),
                    nonce@,
                    sig_v,
                    sig_r@,
                    sig_s@,
                )
            },
            Err(e) => {
                ||| sig_r@.len() != 32 && (e matches RelayError::InvalidSignatureLength {
                    field,
                    expected,
                    actual,
                } && field@ == "sig_r"@ && expected == 32 && actual == sig_r@.len())
                ||| sig_r@.len() == 32 && sig_s@.len() != 32 && (e
                    matches RelayError::InvalidSignatureLength {
                    field,
                    expected,
                    actual,
                } && field@ == "sig_s"@ && expected == 32 && actual == sig_s@.len())
                ||| sig_r@.len() == 32 && sig_s@.len() == 32 && (value.value() >= pow256(32)
                    || valid_after.value() >= pow256(32) || valid_before.value() >= pow256(32))
                    && (e matches RelayError::NumberOutOfRange { field } && field@ == "uint256"@)
                ||| sig_r@.len() == 32 && sig_s@.len() == 32 && value.value() < pow256(32)
                    && valid_after.value() < pow256(32) && valid_before.value() < pow256(32)
                    && nonce@.len() != 32 && (e matches RelayError::InvalidNonceLength {
                    expected,
                    actual,
                } && expected == 32 && actual == nonce@.len())
            },
        },
{
    if sig_r.len() != 32 {
        return Err(
            RelayError::InvalidSignatureLength {
                field: String::from_str("sig_r"),
                expected: 32,
                actual: sig_r.len(),
            },
        );
    }
    if sig_s.len() != 32 {
        return Err(
            RelayError::InvalidSignatureLength {
                field: String::from_str("sig_s"),
                expected: 32,
                actual: sig_s.len(),
            },
        );
    }
    let mut data = function_selector(
        "transferWithAuthorization(address,address,uint256,uint256,uint256,bytes32,uint8,bytes32,bytes32)",
    );
    let from_word = pad_left(from, 32);
    push_all(&mut data, from_word.as_slice());
    let to_word = pad_left(to, 32);
    push_all(&mut data, to_word.as_slice());
    let value_word = encode_uint_value(value)?;
    push_all(&mut data, value_word.as_slice());
    let after_word = encode_uint_value(valid_after)?;
    push_all(&mut data, after_word.as_slice());
    let before_word = encode_uint_value(valid_before)?;
    push_all(&mut data, before_word.as_slice());
    let nonce_word = encode_bytes32(nonce)?;
    push_all(&mut data, nonce_word.as_slice());
    let v_word = encode_uint_u8(sig_v);
    push_all(&mut data, v_word.as_slice());
    push_all(&mut data, sig_r);
    push_all(&mut data, sig_s);
    proof {
        assert(data@ =~= spec_transfer_call(
            from@,
            to@,
            value.value(),
            valid_after.value(),
            valid_before.value(),
            nonce@,
            sig_v,
            sig_r@,
            sig_s@,
        ));
    }
    Ok(data)
}

} // verus!
