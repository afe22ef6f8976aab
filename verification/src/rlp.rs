//! Canonical RLP encoding of byte strings, unsigned integers and lists,
//! plus the spec-level decoder that witnesses the encoding's injectivity.

use vstd::prelude::*;
use vstd::arithmetic::div_mod::lemma_fundamental_div_mod;

verus! {

/// Big-endian bytes of `n`, with no leading zero byte; zero is empty.
pub open spec fn spec_be_bytes(n: nat) -> Seq<u8>
    decreases n,
{
    if n == 0 {
        Seq::empty()
    } else {
        spec_be_bytes(n / 256) + seq![(n % 256) as u8]
    }
}

/// The unsigned integer that a big-endian byte string stands for.
pub open spec fn spec_be_val(s: Seq<u8>) -> nat
    decreases s.len(),
{
    if s.len() == 0 {
        0
    } else {
        spec_be_val(s.drop_last()) * 256 + s.last() as nat
    }
}

/// A big-endian byte string with no leading zero byte.
pub open spec fn is_canonical_be(s: Seq<u8>) -> bool {
    s.len() == 0 || s[0] != 0
}

pub proof fn lemma_be_bytes_canonical(n: nat)
    ensures
        is_canonical_be(spec_be_bytes(n)),
    decreases n,
{
    if n != 0 {
        lemma_be_bytes_canonical(n / 256);
        if n / 256 == 0 {
            lemma_fundamental_div_mod(n as int, 256);
        }
    }
}

/// Reading back the big-endian bytes of `n` yields `n`.
pub proof fn lemma_be_val_of_be_bytes(n: nat)
    ensures
        spec_be_val(spec_be_bytes(n)) == n,
    decreases n,
{
    if n != 0 {
        lemma_be_val_of_be_bytes(n / 256);
        let prefix = spec_be_bytes(n / 256);
        let whole = prefix + seq![(n % 256) as u8];
        assert(whole.drop_last() =~= prefix);
        lemma_fundamental_div_mod(n as int, 256);
    }
}

/// On canonical byte strings, `spec_be_bytes` inverts `spec_be_val`.
pub proof fn lemma_be_bytes_of_be_val(s: Seq<u8>)
    requires
        is_canonical_be(s),
    ensures
        spec_be_bytes(spec_be_val(s)) == s,
    decreases s.len(),
{
    if s.len() == 0 {
    } else {
        let head = s.drop_last();
        let v = spec_be_val(s);
        assert(is_canonical_be(head)) by {
            if head.len() > 0 {
                assert(head[0] == s[0]);
            }
        }
        lemma_be_bytes_of_be_val(head);
        assert(v == spec_be_val(head) * 256 + s.last());
        lemma_fundamental_div_mod(v as int, 256);
        assert(v % 256 == s.last() && v / 256 == spec_be_val(head)) by (nonlinear_arith)
            requires
                v == spec_be_val(head) * 256 + s.last(),
                s.last() < 256,
        ;
        if v == 0 {
            assert(spec_be_val(head) == 0);
            assert(head.len() == 0) by {
                if head.len() > 0 {
                    lemma_be_val_nonzero(head);
                }
            }
            assert(s.len() == 1 && s[0] == 0);
        } else {
            assert(spec_be_bytes(v) == spec_be_bytes(v / 256) + seq![(v % 256) as u8]);
            assert(spec_be_bytes(v) =~= s);
        }
    }
}

/// A canonical byte string of positive length stands for a positive value.
pub proof fn lemma_be_val_nonzero(s: Seq<u8>)
    requires
        is_canonical_be(s),
        s.len() > 0,
    ensures
        spec_be_val(s) > 0,
    decreases s.len(),
{
    if s.len() == 1 {
        assert(spec_be_val(s) == spec_be_val(s.drop_last()) * 256 + s.last());
        assert(s.last() == s[0]);
    } else {
        let head = s.drop_last();
        assert(head[0] == s[0]);
        lemma_be_val_nonzero(head);
        assert(spec_be_val(s) == spec_be_val(head) * 256 + s.last());
        assert(spec_be_val(head) * 256 >= 256) by (nonlinear_arith)
            requires
                spec_be_val(head) >= 1,
        ;
    }
}

/// 256 to the power `k`.
pub open spec fn pow256(k: nat) -> nat
    decreases k,
{
    if k == 0 {
        1
    } else {
        256 * pow256((k - 1) as nat)
    }
}

pub proof fn lemma_be_bytes_len_bound(n: nat, k: nat)
    requires
        n < pow256(k),
    ensures
        spec_be_bytes(n).len() <= k,
    decreases k,
{
    if n == 0 {
    } else {
        assert(k >= 1) by {
            if k == 0 {
                assert(pow256(0) == 1);
            }
        }
        assert(n / 256 < pow256((k - 1) as nat)) by (nonlinear_arith)
            requires
                n < 256 * pow256((k - 1) as nat),
        ;
        lemma_be_bytes_len_bound(n / 256, (k - 1) as nat);
    }
}

pub proof fn lemma_pow256_8()
    ensures
        pow256(8) == 0x1_0000_0000_0000_0000,
{
    reveal_with_fuel(pow256, 9);
}

/// The length prefix bytes that RLP uses for a long payload: the minimal
/// big-endian form of the length, with a lone zero byte for length zero.
pub open spec fn spec_length_to_bytes(n: nat) -> Seq<u8> {
    if n == 0 {
        seq![0u8]
    } else {
        spec_be_bytes(n)
    }
}

/// RLP encoding of a byte string.
pub open spec fn spec_rlp_encode_bytes(data: Seq<u8>) -> Seq<u8> {
    if data.len() == 0 {
        seq![0x80u8]
    } else if data.len() == 1 && data[0] < 0x80 {
        data
    } else if data.len() <= 55 {
        seq![(0x80 + data.len()) as u8] + data
    } else {
        let len_bytes = spec_be_bytes(data.len() as nat);
        seq![(0xb7 + len_bytes.len()) as u8] + len_bytes + data
    }
}

/// RLP encoding of an unsigned integer: its leading-zero-trimmed
/// big-endian bytes, encoded as a byte string.
pub open spec fn spec_rlp_encode_uint(n: nat) -> Seq<u8> {
    spec_rlp_encode_bytes(spec_be_bytes(n))
}

/// Concatenation of already-encoded RLP items.
pub open spec fn spec_concat_items(items: Seq<Seq<u8>>) -> Seq<u8>
    decreases items.len(),
{
    if items.len() == 0 {
        Seq::empty()
    } else {
        items[0] + spec_concat_items(items.drop_first())
    }
}

/// RLP encoding of a list whose items are already encoded.
pub open spec fn spec_rlp_encode_list(items: Seq<Seq<u8>>) -> Seq<u8> {
    let payload = spec_concat_items(items);
    if payload.len() <= 55 {
        seq![(0xc0 + payload.len()) as u8] + payload
    } else {
        let len_bytes = spec_be_bytes(payload.len() as nat);
        seq![(0xf7 + len_bytes.len()) as u8] + len_bytes + payload
    }
}

pub proof fn lemma_concat_items_snoc(items: Seq<Seq<u8>>, tail: Seq<u8>)
    ensures
        spec_concat_items(items.push(tail)) == spec_concat_items(items) + tail,
    decreases items.len(),
{
    if items.len() == 0 {
        assert(items.push(tail)[0] == tail);
        assert(items.push(tail).drop_first() =~= Seq::<Seq<u8>>::empty());
        assert(spec_concat_items(items.push(tail)) == tail + spec_concat_items(
            Seq::<Seq<u8>>::empty(),
        ));
        assert(spec_concat_items(items.push(tail)) =~= spec_concat_items(items) + tail);
    } else {
        assert(items.push(tail).drop_first() =~= items.drop_first().push(tail));
        lemma_concat_items_snoc(items.drop_first(), tail);
        assert(items.push(tail)[0] == items[0]);
        assert(spec_concat_items(items.push(tail)) == items[0] + spec_concat_items(
            items.drop_first().push(tail),
        ));
        assert(spec_concat_items(items.push(tail)) == items[0] + (spec_concat_items(
            items.drop_first(),
        ) + tail));
        assert(spec_concat_items(items) == items[0] + spec_concat_items(items.drop_first()));
        assert(spec_concat_items(items.push(tail)) =~= spec_concat_items(items) + tail);
    }
}

/// Strips every leading zero byte; an all-zero string becomes empty.
pub open spec fn spec_trim_leading_zeroes(s: Seq<u8>) -> Seq<u8>
    decreases s.len(),
{
    if s.len() == 0 {
        s
    } else if s[0] == 0 {
        spec_trim_leading_zeroes(s.drop_first())
    } else {
        s
    }
}

/// Trimming never lengthens a byte string.
pub proof fn lemma_trim_len_le(s: Seq<u8>)
    ensures
        spec_trim_leading_zeroes(s).len() <= s.len(),
    decreases s.len(),
{
    if s.len() > 0 && s[0] == 0 {
        lemma_trim_len_le(s.drop_first());
    }
}

pub proof fn lemma_trim_is_canonical(s: Seq<u8>)
    ensures
        is_canonical_be(spec_trim_leading_zeroes(s)),
    decreases s.len(),
{
    if s.len() > 0 && s[0] == 0 {
        lemma_trim_is_canonical(s.drop_first());
    }
}

/// Trimming leading zeroes does not change the value the bytes stand for.
pub proof fn lemma_trim_preserves_val(s: Seq<u8>)
    ensures
        spec_be_val(spec_trim_leading_zeroes(s)) == spec_be_val(s),
    decreases s.len(),
{
    if s.len() > 0 && s[0] == 0 {
        lemma_be_val_drop_leading_zero(s);
        lemma_trim_preserves_val(s.drop_first());
    }
}

pub proof fn lemma_be_val_drop_leading_zero(s: Seq<u8>)
    requires
        s.len() > 0,
        s[0] == 0,
    ensures
        spec_be_val(s.drop_first()) == spec_be_val(s),
    decreases s.len(),
{
    if s.len() == 1 {
        assert(s.drop_first() =~= Seq::<u8>::empty());
        assert(spec_be_val(s) == spec_be_val(s.drop_last()) * 256 + s.last());
        assert(s.drop_last() =~= Seq::<u8>::empty());
    } else {
        let t = s.drop_last();
        assert(t[0] == 0);
        lemma_be_val_drop_leading_zero(t);
        assert(s.drop_first().drop_last() =~= t.drop_first());
        assert(s.drop_first().last() == s.last());
        assert(spec_be_val(s.drop_first())
            == spec_be_val(t.drop_first()) * 256 + s.last());
        assert(spec_be_val(s) == spec_be_val(t) * 256 + s.last());
    }
}

/// Appends every byte of `data` to `out`.
pub fn push_all(out: &mut Vec<u8>, data: &[u8])
    ensures
        final(out)@ == old(out)@ + data@,
{
    let mut i: usize = 0;
    while i < data.len()
        invariant
            i <= data@.len(),
            out@ == old(out)@ + data@.subrange(0, i as int),
        decreases data@.len() - i,
    {
        out.push(data[i]);
        assert(old(out)@ + data@.subrange(0, i as int) + seq![data@[i as int]]
            =~= old(out)@ + data@.subrange(0, i + 1));
        i = i + 1;
    }
    assert(data@.subrange(0, data@.len() as int) =~= data@);
}

/// Big-endian digits of `value`, appended high byte first.
fn push_be_bytes(value: u64, out: &mut Vec<u8>)
    ensures
        final(out)@ == old(out)@ + spec_be_bytes(value as nat),
    decreases value,
{
    if value > 0 {
        proof {
            lemma_fundamental_div_mod(value as int, 256);
        }
        push_be_bytes(value / 256, out);
        out.push((value % 256) as u8);
        assert(old(out)@ + spec_be_bytes((value / 256) as nat) + seq![(value as nat % 256) as u8]
            =~= old(out)@ + spec_be_bytes(value as nat));
    } else {
        assert(old(out)@ + spec_be_bytes(0) =~= old(out)@);
    }
}

/// The big-endian length bytes RLP uses for a long payload.
pub fn length_to_bytes(len: usize) -> (out: Vec<u8>)
    ensures
        out@ == spec_length_to_bytes(len as nat),
{
    let mut out: Vec<u8> = Vec::new();
    if len == 0 {
        out.push(0);
    } else {
        push_be_bytes(len as u64, &mut out);
        assert(Seq::<u8>::empty() + spec_be_bytes(len as nat) =~= spec_be_bytes(len as nat));
    }
    out
}

/// Strips every leading zero byte; an all-zero input yields an empty vector.
pub fn trim_leading_zeroes(data: &[u8]) -> (out: Vec<u8>)
    ensures
        out@ == spec_trim_leading_zeroes(data@),
{
    proof {
        assert(data@.subrange(0, data@.len() as int) =~= data@);
    }
    let mut index: usize = 0;
    while index < data.len() && data[index] == 0
        invariant
            index <= data@.len(),
            spec_trim_leading_zeroes(data@) == spec_trim_leading_zeroes(
                data@.subrange(index as int, data@.len() as int),
            ),
            forall|j: int| 0 <= j < index ==> data@[j] == 0,
        decreases data@.len() - index,
    {
        proof {
            let rest = data@.subrange(index as int, data@.len() as int);
            assert(rest.drop_first() =~= data@.subrange(index + 1, data@.len() as int));
        }
        index = index + 1;
    }
    let mut out: Vec<u8> = Vec::new();
    if index < data.len() {
        let mut i: usize = index;
        while i < data.len()
            invariant
                index <= i <= data@.len(),
                out@ == data@.subrange(index as int, i as int),
            decreases data@.len() - i,
        {
            out.push(data[i]);
            assert(data@.subrange(index as int, i as int) + seq![data@[i as int]]
                =~= data@.subrange(index as int, i + 1));
            i = i + 1;
        }
        proof {
            let rest = data@.subrange(index as int, data@.len() as int);
            assert(spec_trim_leading_zeroes(rest) == rest);
        }
    } else {
        proof {
            let rest = data@.subrange(index as int, data@.len() as int);
            assert(rest.len() == 0);
        }
    }
    out
}

/// RLP encoding of a byte string.
pub fn rlp_encode_bytes(data: &[u8]) -> (out: Vec<u8>)
    ensures
        out@ == spec_rlp_encode_bytes(data@),
{
    let len = data.len();
    let mut out: Vec<u8> = Vec::new();
    if len == 0 {
        out.push(0x80);
        assert(out@ =~= spec_rlp_encode_bytes(data@));
    } else if len == 1 && data[0] < 0x80 {
        out.push(data[0]);
        assert(out@ =~= spec_rlp_encode_bytes(data@));
    } else if len <= 55 {
        out.push(0x80 + len as u8);
        push_all(&mut out, data);
        assert(out@ =~= spec_rlp_encode_bytes(data@));
    } else {
        let len_bytes = length_to_bytes(len);
        proof {
            lemma_pow256_8();
            lemma_be_bytes_len_bound(len as nat, 8);
        }
        out.push(0xb7 + len_bytes.len() as u8);
        push_all(&mut out, len_bytes.as_slice());
        push_all(&mut out, data);
        assert(out@ =~= spec_rlp_encode_bytes(data@));
    }
    out
}

/// RLP encoding of an unsigned integer given as big-endian bytes that may
/// carry leading zeroes; they are trimmed first, so zero encodes as `0x80`.
pub fn rlp_encode_uint_be(bytes: &[u8]) -> (out: Vec<u8>)
    ensures
        out@ == spec_rlp_encode_uint(spec_be_val(bytes@)),
{
    let trimmed = trim_leading_zeroes(bytes);
    proof {
        lemma_trim_is_canonical(bytes@);
        lemma_trim_preserves_val(bytes@);
        lemma_be_bytes_of_be_val(trimmed@);
    }
    rlp_encode_bytes(trimmed.as_slice())
}

/// The views of a sequence of byte vectors.
pub open spec fn views_of(items: Seq<Vec<u8>>) -> Seq<Seq<u8>> {
    items.map_values(|v: Vec<u8>| v@)
}

/// RLP encoding of a list whose items are already encoded.
pub fn rlp_encode_list(items: &[Vec<u8>]) -> (out: Vec<u8>)
    requires
        spec_concat_items(views_of(items@)).len() <= usize::MAX,
    ensures
        out@ == spec_rlp_encode_list(views_of(items@)),
{
    proof {
        lemma_concat_len_monotone(views_of(items@), views_of(items@).len() as int);
        assert(views_of(items@).take(views_of(items@).len() as int) =~= views_of(items@));
        assert(views_of(items@).take(0) =~= Seq::<Seq<u8>>::empty());
    }
    let mut total_len: usize = 0;
    let mut i: usize = 0;
    while i < items.len()
        invariant
            i <= items@.len(),
            total_len == spec_concat_items(views_of(items@).take(i as int)).len(),
            spec_concat_items(views_of(items@)).len() <= usize::MAX,
            forall|j: int| 0 <= j <= items@.len()
                ==> #[trigger] spec_concat_items(views_of(items@).take(j)).len()
                    <= spec_concat_items(views_of(items@)).len(),
        decreases items@.len() - i,
    {
        proof {
            assert(views_of(items@).take(i + 1) =~= views_of(items@).take(i as int).push(
                items@[i as int]@,
            ));
            lemma_concat_items_snoc(views_of(items@).take(i as int), items@[i as int]@);
            assert(spec_concat_items(views_of(items@).take(i + 1)).len() == total_len
                + items@[i as int]@.len());
            assert(spec_concat_items(views_of(items@).take(i + 1)).len() <= spec_concat_items(
                views_of(items@),
            ).len());
        }
        total_len = total_len + items[i].len();
        i = i + 1;
    }
    proof {
        assert(views_of(items@).take(items@.len() as int) =~= views_of(items@));
    }
    let mut out: Vec<u8> = Vec::new();
    if total_len <= 55 {
        out.push(0xc0 + total_len as u8);
    } else {
        let len_bytes = length_to_bytes(total_len);
        proof {
            lemma_pow256_8();
            lemma_be_bytes_len_bound(total_len as nat, 8);
        }
        out.push(0xf7 + len_bytes.len() as u8);
        push_all(&mut out, len_bytes.as_slice());
    }
    let ghost prefix = out@;
    let mut i: usize = 0;
    while i < items.len()
        invariant
            i <= items@.len(),
            out@ == prefix + spec_concat_items(views_of(items@).take(i as int)),
        decreases items@.len() - i,
    {
        push_all(&mut out, items[i].as_slice());
        proof {
            assert(views_of(items@).take(i + 1) =~= views_of(items@).take(i as int).push(
                items@[i as int]@,
            ));
            lemma_concat_items_snoc(views_of(items@).take(i as int), items@[i as int]@);
            assert(prefix + spec_concat_items(views_of(items@).take(i as int)) + items@[i as int]@
                =~= prefix + spec_concat_items(views_of(items@).take(i + 1)));
        }
        i = i + 1;
    }
    proof {
        assert(views_of(items@).take(items@.len() as int) =~= views_of(items@));
        assert(out@ =~= spec_rlp_encode_list(views_of(items@)));
    }
    out
}

pub proof fn lemma_concat_len_monotone(items: Seq<Seq<u8>>, j: int)
    requires
        0 <= j <= items.len(),
    ensures
        forall|k: int| 0 <= k <= j
            ==> #[trigger] spec_concat_items(items.take(k)).len()
                <= spec_concat_items(items.take(j)).len(),
    decreases j,
{
    if j > 0 {
        lemma_concat_len_monotone(items, j - 1);
        assert(items.take(j) =~= items.take(j - 1).push(items[j - 1]));
        lemma_concat_items_snoc(items.take(j - 1), items[j - 1]);
    }
}

/// A uniform bound on the items bounds the concatenation.
pub proof fn lemma_concat_items_uniform_bound(items: Seq<Seq<u8>>, b: nat)
    requires
        forall|k: int| 0 <= k < items.len() ==> (#[trigger] items[k]).len() <= b,
    ensures
        spec_concat_items(items).len() <= items.len() * b,
    decreases items.len(),
{
    if items.len() == 0 {
    } else {
        assert(forall|k: int| 0 <= k < items.drop_first().len()
            ==> (#[trigger] items.drop_first()[k]) == items[k + 1]);
        lemma_concat_items_uniform_bound(items.drop_first(), b);
        assert(items.len() * b == items.drop_first().len() * b + b) by (nonlinear_arith)
            requires
                items.len() == items.drop_first().len() + 1,
        ;
    }
}

/// Spec-level decoder for a single RLP byte string; `None` on anything that
/// is not the exact encoding of one byte string (lists included).
pub open spec fn spec_rlp_decode_bytes(enc: Seq<u8>) -> Option<Seq<u8>> {
    if enc.len() == 0 {
        None
    } else if enc[0] < 0x80 {
        if enc.len() == 1 {
            Some(seq![enc[0]])
        } else {
            None
        }
    } else if enc[0] <= 0xb7 {
        let len = enc[0] - 0x80;
        if enc.len() == 1 + len {
            Some(enc.subrange(1, enc.len() as int))
        } else {
            None
        }
    } else if enc[0] <= 0xbf {
        let len_len = enc[0] - 0xb7;
        if enc.len() >= 1 + len_len {
            let len = spec_be_val(enc.subrange(1, 1 + len_len));
            if enc.len() == 1 + len_len + len {
                Some(enc.subrange(1 + len_len, enc.len() as int))
            } else {
                None
            }
        } else {
            None
        }
    } else {
        None
    }
}

/// Round trip: decoding the encoding of any byte string gives it back.
/// The length bound keeps the one-byte length-of-length prefix meaningful;
/// it admits every byte string an encoder can be handed.
pub proof fn lemma_rlp_round_trip(b: Seq<u8>)
    requires
        b.len() < 0x1_0000_0000_0000_0000,
    ensures
        spec_rlp_decode_bytes(spec_rlp_encode_bytes(b)) == Some(b),
{
    let enc = spec_rlp_encode_bytes(b);
    if b.len() == 0 {
        assert(enc =~= seq![0x80u8]);
        assert(spec_rlp_decode_bytes(enc).unwrap() =~= b);
    } else if b.len() == 1 && b[0] < 0x80 {
        assert(enc =~= seq![b[0]]);
        assert(spec_rlp_decode_bytes(enc).unwrap() =~= b);
    } else if b.len() <= 55 {
        assert(enc[0] == 0x80 + b.len());
        assert(enc.subrange(1, enc.len() as int) =~= b);
    } else {
        let len_bytes = spec_be_bytes(b.len() as nat);
        lemma_be_val_of_be_bytes(b.len() as nat);
        assert(len_bytes.len() >= 1) by {
            if len_bytes.len() == 0 {
                assert(spec_be_val(len_bytes) == 0);
            }
        }
        assert(len_bytes.len() <= 8) by {
            lemma_pow256_8();
            lemma_be_bytes_len_bound(b.len() as nat, 8);
        }
        assert(enc[0] == 0xb7 + len_bytes.len());
        assert(enc.subrange(1, 1 + len_bytes.len() as int) =~= len_bytes);
        assert(enc.subrange(1 + len_bytes.len() as int, enc.len() as int) =~= b);
    }
}

/// A byte string of length `k` stands for a value below `256^k`.
pub proof fn lemma_be_val_upper_bound(s: Seq<u8>)
    ensures
        spec_be_val(s) < pow256(s.len()),
    decreases s.len(),
{
    if s.len() == 0 {
    } else {
        let head = s.drop_last();
        lemma_be_val_upper_bound(head);
        assert(spec_be_val(head) * 256 + s.last() < pow256(head.len()) * 256) by (nonlinear_arith)
            requires
                spec_be_val(head) < pow256(head.len()),
                s.last() < 256,
        ;
        assert(pow256(s.len()) == 256 * pow256(head.len()));
    }
}

/// A positive integer's RLP encoding begins with a byte below `0x80`
/// exactly when the integer itself is below `0x80`; zero is excluded,
/// for it encodes as the empty byte string, whose prefix is `0x80`.
/// The width bound keeps the length-of-length prefix a single byte; it
/// admits every integer whose byte form an encoder can be handed.
pub proof fn lemma_rlp_uint_first_byte(n: nat)
    requires
        n > 0,
        spec_be_bytes(n).len() < 0x1_0000_0000_0000_0000,
    ensures
        spec_rlp_encode_uint(n).len() > 0,
        (spec_rlp_encode_uint(n)[0] < 0x80) <==> (n < 0x80),
{
    let bytes = spec_be_bytes(n);
    lemma_be_val_of_be_bytes(n);
    lemma_be_bytes_canonical(n);
    assert(bytes.len() >= 1) by {
        if bytes.len() == 0 {
            assert(spec_be_val(bytes) == 0);
        }
    }
    if n < 0x80 {
        assert(bytes.len() == 1) by {
            if bytes.len() >= 2 {
                let head = bytes.drop_last();
                assert(head[0] == bytes[0]);
                lemma_be_val_nonzero(head);
                assert(spec_be_val(head) * 256 >= 256) by (nonlinear_arith)
                    requires
                        spec_be_val(head) >= 1,
                ;
            }
        }
        assert(spec_be_val(bytes) == spec_be_val(bytes.drop_last()) * 256 + bytes.last() as nat);
        assert(bytes.drop_last() =~= Seq::<u8>::empty());
        assert(bytes[0] == n);
    } else {
        if bytes.len() == 1 {
            assert(spec_be_val(bytes) == spec_be_val(bytes.drop_last()) * 256 + bytes.last() as nat);
            assert(bytes.drop_last() =~= Seq::<u8>::empty());
            assert(bytes[0] == n);
            assert(spec_rlp_encode_uint(n)[0] >= 0x80);
        } else if bytes.len() <= 55 {
            assert(spec_rlp_encode_uint(n)[0] == (0x80 + bytes.len()) as u8);
            assert(spec_rlp_encode_uint(n)[0] >= 0x80);
        } else {
            let len_bytes = spec_be_bytes(bytes.len() as nat);
            assert(len_bytes.len() <= 8) by {
                lemma_pow256_8();
                lemma_be_bytes_len_bound(bytes.len() as nat, 8);
            }
            assert(spec_rlp_encode_uint(n)[0] == (0xb7 + len_bytes.len()) as u8);
            assert(spec_rlp_encode_uint(n)[0] >= 0x80);
        }
    }
}

/// Zero encodes as the single byte `0x80`.
pub proof fn lemma_rlp_uint_zero()
    ensures
        spec_rlp_encode_uint(0) == seq![0x80u8],
{
    assert(spec_rlp_encode_uint(0) =~= seq![0x80u8]);
}

} // verus!
