//! The EIP-1559 type-2 transaction envelope: the nine-field signing
//! pre-image, the twelve-field broadcast form, and the signing digest.

use vstd::prelude::*;
use crate::bignum::BigNum;
use crate::keccak::{keccak256, spec_keccak256};
use crate::rlp::{
    lemma_be_bytes_len_bound, lemma_be_bytes_of_be_val, lemma_pow256_8, pow256, push_all,
    rlp_encode_bytes, rlp_encode_list, rlp_encode_uint_be, spec_be_bytes, spec_be_val,
    spec_concat_items, spec_rlp_encode_bytes, spec_rlp_encode_list, spec_rlp_encode_uint,
    views_of,
};

verus! {

/// The nine RLP items of the unsigned transaction, in wire order:
/// `chain_id, nonce, max_priority_fee_per_gas, max_fee_per_gas, gas_limit,
/// to, value (always 0), data, access_list (always empty)`.
pub open spec fn spec_unsigned_items(
    chain_id: nat,
    nonce: nat,
    priority_fee: nat,
    max_fee: nat,
    gas_limit: nat,
    to: Seq<u8>,
    data: Seq<u8>,
) -> Seq<Seq<u8>> {
    seq![
        spec_rlp_encode_uint(chain_id),
        spec_rlp_encode_uint(nonce),
        spec_rlp_encode_uint(priority_fee),
        spec_rlp_encode_uint(max_fee),
        spec_rlp_encode_uint(gas_limit),
        spec_rlp_encode_bytes(to),
        spec_rlp_encode_uint(0),
        spec_rlp_encode_bytes(data),
        spec_rlp_encode_list(Seq::empty()),
    ]
}

/// The three items a signature appends: `y_parity, r, s`.
pub open spec fn spec_signature_items(y_parity: u8, r: Seq<u8>, s: Seq<u8>) -> Seq<Seq<u8>> {
    seq![spec_rlp_encode_uint(y_parity as nat), spec_rlp_encode_bytes(r), spec_rlp_encode_bytes(s)]
}

/// A type-2 envelope: the byte `0x02` before the RLP list of the items.
pub open spec fn spec_typed_envelope(items: Seq<Seq<u8>>) -> Seq<u8> {
    seq![0x02u8] + spec_rlp_encode_list(items)
}

/// The digest a compliant EIP-1559 signer signs: the Keccak-256 hash of
/// the typed envelope of the nine unsigned items.
pub open spec fn spec_tx_digest(items: Seq<Seq<u8>>) -> Seq<u8> {
    spec_keccak256(spec_typed_envelope(items))
}

/// An RLP byte-string encoding is at most nine bytes longer than its
/// payload.
pub proof fn lemma_rlp_bytes_len(d: Seq<u8>)
    requires
        d.len() < 0x1_0000_0000_0000_0000,
    ensures
        spec_rlp_encode_bytes(d).len() <= d.len() + 9,
{
    if d.len() > 55 {
        lemma_pow256_8();
        lemma_be_bytes_len_bound(d.len() as nat, 8);
    }
}

/// The RLP encoding of an integer below `2^256` takes at most 34 bytes.
pub proof fn lemma_rlp_uint_len(n: nat)
    requires
        n < pow256(32),
    ensures
        spec_rlp_encode_uint(n).len() <= 34,
{
    crate::rlp::lemma_be_bytes_len_bound(n, 32);
    lemma_rlp_bytes_len(spec_be_bytes(n));
}

/// Builds the nine unsigned items of the transaction.
pub fn unsigned_tx_items(
    chain_id: &BigNum,
    nonce: &BigNum,
    priority_fee: &BigNum,
    max_fee: &BigNum,
    gas_limit: &BigNum,
    to: &[u8],
    data: &[u8],
) -> (out: Vec<Vec<u8>>)
    requires
        chain_id.wf(),
        nonce.wf(),
        priority_fee.wf(),
        max_fee.wf(),
        gas_limit.wf(),
    ensures
        views_of(out@) == spec_unsigned_items(
            chain_id.value(),
            nonce.value(),
            priority_fee.value(),
            max_fee.value(),
            gas_limit.value(),
            to@,
            data@,
        ),
        out@.len() == 9,
{
    let mut out: Vec<Vec<u8>> = Vec::new();
    out.push(rlp_encode_uint_be(chain_id.bytes.as_slice()));
    out.push(rlp_encode_uint_be(nonce.bytes.as_slice()));
    out.push(rlp_encode_uint_be(priority_fee.bytes.as_slice()));
    out.push(rlp_encode_uint_be(max_fee.bytes.as_slice()));
    out.push(rlp_encode_uint_be(gas_limit.bytes.as_slice()));
    out.push(rlp_encode_bytes(to));
    let zero: Vec<u8> = Vec::new();
    out.push(rlp_encode_uint_be(zero.as_slice()));
    out.push(rlp_encode_bytes(data));
    let empty_items: Vec<Vec<u8>> = Vec::new();
    proof {
        assert(spec_concat_items(views_of(empty_items@)) =~= Seq::<u8>::empty());
        assert(views_of(empty_items@) =~= Seq::<Seq<u8>>::empty());
    }
    out.push(rlp_encode_list(empty_items.as_slice()));
    proof {
        assert(spec_be_val(Seq::<u8>::empty()) == 0);
        assert(views_of(out@) =~= spec_unsigned_items(
            chain_id.value(),
            nonce.value(),
            priority_fee.value(),
            max_fee.value(),
            gas_limit.value(),
            to@,
            data@,
        ));
    }
    out
}

/// The unsigned items with the signature items `y_parity, r, s` appended.
#[verifier::loop_isolation(false)]
pub fn signed_tx_items(items: &[Vec<u8>], y_parity: u8, r: &[u8], s: &[u8]) -> (out: Vec<
    Vec<u8>,
>)
    ensures
        views_of(out@) == views_of(items@) + spec_signature_items(y_parity, r@, s@),
{
    let ghost items0 = items@;
    let mut out: Vec<Vec<u8>> = Vec::new();
    let mut i: usize = 0;
    while i < items.len()
        invariant
            i <= items@.len(),
            out@.len() == i,
            forall|j: int| 0 <= j < i ==> (#[trigger] out@[j])@ == items@[j]@,
        decreases items@.len() - i,
    {
        let mut item: Vec<u8> = Vec::new();
        push_all(&mut item, items[i].as_slice());
        proof {
            assert(item@ =~= items@[i as int]@);
        }
        out.push(item);
        i = i + 1;
    }
    let mut y: Vec<u8> = Vec::new();
    y.push(y_parity);
    proof {
        assert(y@ =~= seq![y_parity]);
        assert(spec_be_val(seq![y_parity]) == spec_be_val(
            seq![y_parity].drop_last(),
        ) * 256 + y_parity as nat);
        assert(seq![y_parity].drop_last() =~= Seq::<u8>::empty());
    }
    out.push(rlp_encode_uint_be(y.as_slice()));
    out.push(rlp_encode_bytes(r));
    out.push(rlp_encode_bytes(s));
    proof {
        assert(views_of(out@) =~= views_of(items0) + spec_signature_items(y_parity, r@, s@));
    }
    out
}

/// The type-2 envelope over the given items: `0x02` then their RLP list.
pub fn typed_envelope(items: &[Vec<u8>]) -> (out: Vec<u8>)
    requires
        spec_concat_items(views_of(items@)).len() + 10 <= usize::MAX,
    ensures
        out@ == spec_typed_envelope(views_of(items@)),
{
    let body = rlp_encode_list(items);
    let mut out: Vec<u8> = Vec::new();
    out.push(0x02);
    push_all(&mut out, body.as_slice());
    proof {
        assert(out@ =~= spec_typed_envelope(views_of(items@)));
    }
    out
}

/// The signing digest of the given items' typed envelope.
pub fn tx_digest(items: &[Vec<u8>]) -> (out: Vec<u8>)
    requires
        spec_concat_items(views_of(items@)).len() + 10 <= usize::MAX,
    ensures
        out@ == spec_tx_digest(views_of(items@)),
        out@.len() == 32,
{
    let payload = typed_envelope(items);
    keccak256(payload.as_slice())
}

/// Recomputing the digest from the signed twelve-field list, after the
/// signature fields are stripped, yields exactly the digest that was
/// signed: the first nine items are the unsigned items unchanged.
pub proof fn lemma_digest_survives_signing(
    items9: Seq<Seq<u8>>,
    y_parity: u8,
    r: Seq<u8>,
    s: Seq<u8>,
)
    requires
        items9.len() == 9,
    ensures
        spec_tx_digest((items9 + spec_signature_items(y_parity, r, s)).take(9)) == spec_tx_digest(
            items9,
        ),
{
    assert((items9 + spec_signature_items(y_parity, r, s)).take(9) =~= items9);
}

} // verus!
