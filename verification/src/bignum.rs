//! Unbounded unsigned integers held as canonical (leading-zero-free)
//! big-endian byte strings: the arbitrary-precision amounts, fees and
//! balances the relayer works with, in exactly the form RLP wants them.

use vstd::prelude::*;
use vstd::arithmetic::div_mod::lemma_fundamental_div_mod;
use crate::rlp::{
    is_canonical_be, lemma_be_bytes_canonical, lemma_be_bytes_of_be_val, lemma_be_val_nonzero,
    lemma_be_val_of_be_bytes, lemma_be_val_upper_bound, lemma_trim_is_canonical,
    lemma_trim_preserves_val, pow256, spec_be_bytes, spec_be_val, push_all, trim_leading_zeroes,
};

verus! {

/// An unsigned integer of any size, as its canonical big-endian bytes.
#[derive(Debug)]
pub struct BigNum {
    pub bytes: Vec<u8>,
}

impl BigNum {
    /// The bytes carry no leading zero, so each value has one form.
    pub open spec fn wf(&self) -> bool {
        is_canonical_be(self.bytes@)
    }

    /// The integer this value stands for.
    pub open spec fn value(&self) -> nat {
        spec_be_val(self.bytes@)
    }

    pub fn zero() -> (r: BigNum)
        ensures
            r.wf(),
            r.value() == 0,
    {
        BigNum { bytes: Vec::new() }
    }

    pub fn clone_value(&self) -> (r: BigNum)
        ensures
            r.bytes@ == self.bytes@,
            r.wf() == self.wf(),
            r.value() == self.value(),
    {
        let mut bytes: Vec<u8> = Vec::new();
        push_all(&mut bytes, self.bytes.as_slice());
        proof {
            assert(bytes@ =~= self.bytes@);
        }
        BigNum { bytes }
    }

    pub fn from_u128(v: u128) -> (r: BigNum)
        ensures
            r.wf(),
            r.value() == v,
    {
        let mut bytes: Vec<u8> = Vec::new();
        push_be_bytes_u128(v, &mut bytes);
        proof {
            assert(bytes@ =~= spec_be_bytes(v as nat));
            lemma_be_bytes_canonical(v as nat);
            lemma_be_val_of_be_bytes(v as nat);
        }
        BigNum { bytes }
    }

    pub fn from_u64(v: u64) -> (r: BigNum)
        ensures
            r.wf(),
            r.value() == v,
    {
        BigNum::from_u128(v as u128)
    }

    /// Reads big-endian bytes, accepting and discarding leading zeroes.
    pub fn from_be_bytes(b: &[u8]) -> (r: BigNum)
        ensures
            r.wf(),
            r.value() == spec_be_val(b@),
    {
        let bytes = trim_leading_zeroes(b);
        proof {
            lemma_trim_is_canonical(b@);
            lemma_trim_preserves_val(b@);
        }
        BigNum { bytes }
    }

    pub fn is_zero(&self) -> (r: bool)
        requires
            self.wf(),
        ensures
            r == (self.value() == 0),
    {
        proof {
            if self.bytes@.len() > 0 {
                lemma_be_val_nonzero(self.bytes@);
            }
        }
        self.bytes.len() == 0
    }

    pub fn to_u128(&self) -> (r: Option<u128>)
        requires
            self.wf(),
        ensures
            match r {
                Some(v) => v == self.value(),
                None => self.value() > u128::MAX,
            },
    {
        if self.bytes.len() > 16 {
            proof {
                lemma_be_val_lower_bound(self.bytes@);
                lemma_pow256_16();
                lemma_pow256_monotone(16, (self.bytes@.len() - 1) as nat);
            }
            return None;
        }
        let n = self.bytes.len();
        let mut acc: u128 = 0;
        let mut i: usize = 0;
        while i < n
            invariant
                i <= n == self.bytes@.len() <= 16,
                acc == spec_be_val(self.bytes@.take(i as int)),
            decreases n - i,
        {
            proof {
                lemma_be_val_upper_bound(self.bytes@.take(i as int));
                lemma_pow256_16();
                lemma_pow256_monotone((i + 1) as nat, 16);
                assert(spec_be_val(self.bytes@.take(i as int)) * 256 + 255 < pow256(
                    (i + 1) as nat,
                )) by (nonlinear_arith)
                    requires
                        spec_be_val(self.bytes@.take(i as int)) < pow256(i as nat),
                        pow256((i + 1) as nat) == 256 * pow256(i as nat),
                ;
                assert(self.bytes@.take(i + 1).drop_last() =~= self.bytes@.take(i as int));
            }
            acc = acc * 256 + self.bytes[i] as u128;
            i = i + 1;
        }
        proof {
            assert(self.bytes@.take(n as int) =~= self.bytes@);
        }
        Some(acc)
    }

    pub fn to_u64(&self) -> (r: Option<u64>)
        requires
            self.wf(),
        ensures
            match r {
                Some(v) => v == self.value(),
                None => self.value() > u64::MAX,
            },
    {
        match self.to_u128() {
            Some(v) => {
                if v <= u64::MAX as u128 {
                    Some(v as u64)
                } else {
                    None
                }
            },
            None => None,
        }
    }

    pub fn to_u32(&self) -> (r: Option<u32>)
        requires
            self.wf(),
        ensures
            match r {
                Some(v) => v == self.value(),
                None => self.value() > u32::MAX,
            },
    {
        match self.to_u128() {
            Some(v) => {
                if v <= u32::MAX as u128 {
                    Some(v as u32)
                } else {
                    None
                }
            },
            None => None,
        }
    }

    /// Strict order on the values.
    pub fn lt(&self, other: &BigNum) -> (r: bool)
        requires
            self.wf(),
            other.wf(),
        ensures
            r == (self.value() < other.value()),
    {
        let la = self.bytes.len();
        let lb = other.bytes.len();
        if la < lb {
            proof {
                lemma_shorter_canonical_lt(self.bytes@, other.bytes@);
            }
            return true;
        }
        if la > lb {
            proof {
                lemma_shorter_canonical_lt(other.bytes@, self.bytes@);
            }
            return false;
        }
        let mut i: usize = 0;
        while i < la
            invariant
                i <= la,
                la == self.bytes@.len() == other.bytes@.len(),
                self.wf(),
                other.wf(),
                forall|j: int| 0 <= j < i ==> self.bytes@[j] == other.bytes@[j],
            decreases la - i,
        {
            if self.bytes[i] < other.bytes[i] {
                proof {
                    lemma_lex_lt(self.bytes@, other.bytes@, i as int);
                }
                return true;
            }
            if self.bytes[i] > other.bytes[i] {
                proof {
                    lemma_lex_lt(other.bytes@, self.bytes@, i as int);
                }
                return false;
            }
            i = i + 1;
        }
        proof {
            assert(self.bytes@ =~= other.bytes@);
        }
        false
    }

    /// Non-strict order on the values.
    pub fn le(&self, other: &BigNum) -> (r: bool)
        requires
            self.wf(),
            other.wf(),
        ensures
            r == (self.value() <= other.value()),
    {
        !other.lt(self)
    }

    /// Equality of the values.
    pub fn eq_value(&self, other: &BigNum) -> (r: bool)
        requires
            self.wf(),
            other.wf(),
        ensures
            r == (self.value() == other.value()),
    {
        !self.lt(other) && !other.lt(self)
    }

    /// The sum of two values.
    pub fn add_value(&self, other: &BigNum) -> (r: BigNum)
        requires
            self.wf(),
            other.wf(),
        ensures
            r.wf(),
            r.value() == self.value() + other.value(),
    {
        proof {
            assert(self.bytes@.take(self.bytes@.len() as int) =~= self.bytes@);
            assert(other.bytes@.take(other.bytes@.len() as int) =~= other.bytes@);
        }
        let bytes = add_be_prefix(
            self.bytes.as_slice(),
            other.bytes.as_slice(),
            self.bytes.len(),
            other.bytes.len(),
            0,
        );
        BigNum { bytes }
    }
}

/// Big-endian digits of `value`, appended high byte first.
fn push_be_bytes_u128(value: u128, out: &mut Vec<u8>)
    ensures
        final(out)@ == old(out)@ + spec_be_bytes(value as nat),
    decreases value,
{
    if value > 0 {
        proof {
            lemma_fundamental_div_mod(value as int, 256);
        }
        push_be_bytes_u128(value / 256, out);
        out.push((value % 256) as u8);
        assert(old(out)@ + spec_be_bytes((value / 256) as nat) + seq![(value as nat % 256) as u8]
            =~= old(out)@ + spec_be_bytes(value as nat));
    } else {
        assert(old(out)@ + spec_be_bytes(0) =~= old(out)@);
    }
}

pub proof fn lemma_pow256_pos(a: nat)
    ensures
        pow256(a) >= 1,
    decreases a,
{
    if a > 0 {
        lemma_pow256_pos((a - 1) as nat);
    }
}

pub proof fn lemma_pow256_monotone(a: nat, b: nat)
    requires
        a <= b,
    ensures
        pow256(a) <= pow256(b),
        pow256(a) >= 1,
    decreases b,
{
    lemma_pow256_pos(a);
    if a < b {
        lemma_pow256_monotone(a, (b - 1) as nat);
        assert(pow256(b) == 256 * pow256((b - 1) as nat));
    }
}

pub proof fn lemma_pow256_16()
    ensures
        pow256(16) == 0x1_0000_0000_0000_0000_0000_0000_0000_0000,
{
    reveal_with_fuel(pow256, 17);
}

/// A canonical byte string of length `k` stands for at least `256^(k-1)`.
pub proof fn lemma_be_val_lower_bound(s: Seq<u8>)
    requires
        is_canonical_be(s),
        s.len() > 0,
    ensures
        spec_be_val(s) >= pow256((s.len() - 1) as nat),
    decreases s.len(),
{
    if s.len() == 1 {
        assert(spec_be_val(s) == spec_be_val(s.drop_last()) * 256 + s.last() as nat);
        assert(s.last() == s[0]);
    } else {
        let head = s.drop_last();
        assert(head[0] == s[0]);
        lemma_be_val_lower_bound(head);
        assert(spec_be_val(s) == spec_be_val(head) * 256 + s.last() as nat);
        assert(spec_be_val(head) * 256 >= pow256((head.len() - 1) as nat) * 256) by (nonlinear_arith)
            requires
                spec_be_val(head) >= pow256((head.len() - 1) as nat),
        ;
        assert(pow256((s.len() - 1) as nat) == 256 * pow256((s.len() - 2) as nat));
    }
}

/// A shorter canonical byte string stands for a smaller value than a longer
/// canonical one.
pub proof fn lemma_shorter_canonical_lt(s: Seq<u8>, t: Seq<u8>)
    requires
        is_canonical_be(s),
        is_canonical_be(t),
        s.len() < t.len(),
    ensures
        spec_be_val(s) < spec_be_val(t),
{
    lemma_be_val_upper_bound(s);
    lemma_be_val_lower_bound(t);
    lemma_pow256_monotone(s.len(), (t.len() - 1) as nat);
}

/// Splitting a byte string at `j` splits its value by place value.
pub proof fn lemma_be_val_split(s: Seq<u8>, j: int)
    requires
        0 <= j <= s.len(),
    ensures
        spec_be_val(s) == spec_be_val(s.take(j)) * pow256((s.len() - j) as nat) + spec_be_val(
            s.skip(j),
        ),
    decreases s.len() - j,
{
    if j == s.len() {
        assert(s.take(j) =~= s);
        assert(s.skip(j) =~= Seq::<u8>::empty());
        assert(spec_be_val(Seq::<u8>::empty()) == 0);
        assert((s.len() - j) as nat == 0);
        assert(pow256(0) == 1);
        assert(spec_be_val(s) * 1 == spec_be_val(s));
    } else {
        let head = s.drop_last();
        assert(spec_be_val(s) == spec_be_val(head) * 256 + s.last() as nat);
        lemma_be_val_split(head, j);
        assert(head.take(j) =~= s.take(j));
        assert(s.skip(j).drop_last() =~= head.skip(j));
        assert(s.skip(j).len() > 0);
        assert(s.skip(j).last() == s.last());
        assert(spec_be_val(s.skip(j)) == spec_be_val(head.skip(j)) * 256 + s.last() as nat);
        let p = pow256((s.len() - j - 1) as nat);
        assert((head.len() - j) as nat == (s.len() - j - 1) as nat);
        assert(spec_be_val(head) == spec_be_val(s.take(j)) * p + spec_be_val(head.skip(j)));
        assert(pow256((s.len() - j) as nat) == 256 * p);
        assert((spec_be_val(s.take(j)) * p + spec_be_val(head.skip(j))) * 256 == spec_be_val(
            s.take(j),
        ) * (256 * p) + spec_be_val(head.skip(j)) * 256) by (nonlinear_arith);
        assert(spec_be_val(s) == spec_be_val(s.take(j)) * (256 * p) + (spec_be_val(head.skip(j))
            * 256 + s.last() as nat));
        assert(spec_be_val(s) == spec_be_val(s.take(j)) * pow256((s.len() - j) as nat)
            + spec_be_val(s.skip(j)));
    }
}

/// Two byte strings of one length order as their first differing byte does.
pub proof fn lemma_lex_lt(s: Seq<u8>, t: Seq<u8>, j: int)
    requires
        s.len() == t.len(),
        0 <= j < s.len(),
        forall|i: int| 0 <= i < j ==> s[i] == t[i],
        s[j] < t[j],
    ensures
        spec_be_val(s) < spec_be_val(t),
{
    lemma_be_val_split(s, j);
    lemma_be_val_split(t, j);
    assert(s.take(j) =~= t.take(j));
    let ss = s.skip(j);
    let ts = t.skip(j);
    let l = ss.len();
    assert(ss[0] == s[j] && ts[0] == t[j]);
    lemma_be_val_split(ss, 1);
    lemma_be_val_split(ts, 1);
    assert(spec_be_val(ss.take(1)) == ss[0] as nat) by {
        assert(ss.take(1).len() == 1);
        assert(spec_be_val(ss.take(1)) == spec_be_val(ss.take(1).drop_last()) * 256 + ss.take(
            1,
        ).last() as nat);
        assert(ss.take(1).drop_last() =~= Seq::<u8>::empty());
        assert(spec_be_val(Seq::<u8>::empty()) == 0);
        assert(ss.take(1).last() == ss[0]);
    }
    assert(spec_be_val(ts.take(1)) == ts[0] as nat) by {
        assert(ts.take(1).len() == 1);
        assert(spec_be_val(ts.take(1)) == spec_be_val(ts.take(1).drop_last()) * 256 + ts.take(
            1,
        ).last() as nat);
        assert(ts.take(1).drop_last() =~= Seq::<u8>::empty());
        assert(spec_be_val(Seq::<u8>::empty()) == 0);
        assert(ts.take(1).last() == ts[0]);
    }
    let p = pow256((l - 1) as nat);
    lemma_be_val_upper_bound(ss.skip(1));
    assert(spec_be_val(ss) < (ss[0] as nat + 1) * p) by (nonlinear_arith)
        requires
            spec_be_val(ss) == ss[0] as nat * p + spec_be_val(ss.skip(1)),
            spec_be_val(ss.skip(1)) < p,
    ;
    assert((ss[0] as nat + 1) * p <= ts[0] as nat * p) by (nonlinear_arith)
        requires
            ss[0] as nat + 1 <= ts[0] as nat,
            p >= 1,
    ;
    assert(p >= 1) by {
        lemma_pow256_monotone(0, (l - 1) as nat);
    }
    assert(ts[0] as nat * p <= spec_be_val(ts));
    assert(spec_be_val(ss) < spec_be_val(ts));
    assert(spec_be_val(s) < spec_be_val(t)) by (nonlinear_arith)
        requires
            spec_be_val(s) == spec_be_val(s.take(j)) * pow256((s.len() - j) as nat) + spec_be_val(
                ss,
            ),
            spec_be_val(t) == spec_be_val(s.take(j)) * pow256((s.len() - j) as nat) + spec_be_val(
                ts,
            ),
            spec_be_val(ss) < spec_be_val(ts),
    ;
}

/// Adds the length-`i` prefix of `a`, the length-`j` prefix of `b` and a
/// carry, producing canonical big-endian digits of the sum.
fn add_be_prefix(a: &[u8], b: &[u8], i: usize, j: usize, carry: u8) -> (out: Vec<u8>)
    requires
        i <= a@.len(),
        j <= b@.len(),
        carry <= 1,
    ensures
        spec_be_val(out@) == spec_be_val(a@.take(i as int)) + spec_be_val(b@.take(j as int))
            + carry,
        (is_canonical_be(a@.take(i as int)) && is_canonical_be(b@.take(j as int)))
            ==> is_canonical_be(out@),
    decreases i + j,
{
    if i == 0 && j == 0 {
        let mut out: Vec<u8> = Vec::new();
        if carry > 0 {
            out.push(carry);
        }
        proof {
            assert(a@.take(0) =~= Seq::<u8>::empty());
            assert(b@.take(0) =~= Seq::<u8>::empty());
            if carry > 0 {
                assert(out@.drop_last() =~= Seq::<u8>::empty());
            }
        }
        out
    } else {
        let da: u8 = if i > 0 { a[i - 1] } else { 0 };
        let db: u8 = if j > 0 { b[j - 1] } else { 0 };
        let sum: u16 = da as u16 + db as u16 + carry as u16;
        let digit: u8 = (sum % 256) as u8;
        let c2: u8 = (sum / 256) as u8;
        let i2: usize = if i > 0 { i - 1 } else { 0 };
        let j2: usize = if j > 0 { j - 1 } else { 0 };
        let mut out = add_be_prefix(a, b, i2, j2, c2);
        proof {
            if i > 0 {
                assert(a@.take(i as int).drop_last() =~= a@.take(i2 as int));
                assert(a@.take(i as int).last() == da);
                assert(spec_be_val(a@.take(i as int)) == spec_be_val(a@.take(i2 as int)) * 256
                    + da as nat);
            } else {
                assert(a@.take(0) =~= Seq::<u8>::empty());
            }
            if j > 0 {
                assert(b@.take(j as int).drop_last() =~= b@.take(j2 as int));
                assert(b@.take(j as int).last() == db);
                assert(spec_be_val(b@.take(j as int)) == spec_be_val(b@.take(j2 as int)) * 256
                    + db as nat);
            } else {
                assert(b@.take(0) =~= Seq::<u8>::empty());
            }
            lemma_fundamental_div_mod(sum as int, 256);
        }
        let ghost head = out@;
        out.push(digit);
        proof {
            assert(out@.drop_last() =~= head);
            assert(spec_be_val(out@) == spec_be_val(head) * 256 + digit as nat);
            assert((spec_be_val(a@.take(i2 as int)) + spec_be_val(b@.take(j2 as int))
                + c2 as nat) * 256 == spec_be_val(a@.take(i2 as int)) * 256 + spec_be_val(
                b@.take(j2 as int),
            ) * 256 + c2 as nat * 256) by (nonlinear_arith);
            if is_canonical_be(a@.take(i as int)) && is_canonical_be(b@.take(j as int)) {
                assert(is_canonical_be(a@.take(i2 as int))) by {
                    if i2 > 0 {
                        assert(a@.take(i2 as int)[0] == a@.take(i as int)[0]);
                    }
                }
                assert(is_canonical_be(b@.take(j2 as int))) by {
                    if j2 > 0 {
                        assert(b@.take(j2 as int)[0] == b@.take(j as int)[0]);
                    }
                }
                if head.len() > 0 {
                    assert(out@[0] == head[0]);
                } else {
                    // An empty head means both prefixes and the carry out
                    // vanished, which forces a nonzero digit here.
                    assert(spec_be_val(head) == 0);
                    assert(spec_be_val(a@.take(i2 as int)) == 0);
                    assert(spec_be_val(b@.take(j2 as int)) == 0);
                    assert(a@.take(i2 as int).len() == 0) by {
                        if a@.take(i2 as int).len() > 0 {
                            lemma_be_val_nonzero(a@.take(i2 as int));
                        }
                    }
                    assert(b@.take(j2 as int).len() == 0) by {
                        if b@.take(j2 as int).len() > 0 {
                            lemma_be_val_nonzero(b@.take(j2 as int));
                        }
                    }
                    if digit == 0 {
                        assert(sum == 256 * c2);
                        if i > 0 {
                            assert(a@.take(i as int).len() == 1);
                            assert(a@.take(i as int)[0] == da);
                            assert(da != 0);
                        }
                        if j > 0 {
                            assert(b@.take(j as int).len() == 1);
                            assert(b@.take(j as int)[0] == db);
                            assert(db != 0);
                        }
                        assert(sum >= 1);
                        assert(c2 == 1);
                        assert(sum == 256);
                        assert(spec_be_val(head) == spec_be_val(a@.take(i2 as int)) + spec_be_val(
                            b@.take(j2 as int),
                        ) + 1);
                        assert(false);
                    }
                }
            }
        }
        out
    }
}

} // verus!
