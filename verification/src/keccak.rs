//! Keccak-256 (the pre-NIST variant with padding byte `0x01`): rate 136
//! bytes, capacity 512 bits, 24 rounds of Keccak-f[1600], 32-byte output.
//!
//! Each permutation stage has a specification function that states the new
//! lane values directly; the executable code is proved to produce exactly
//! those lanes, and the sponge is proved to absorb, pad and squeeze as the
//! specification says.

use vstd::prelude::*;
use vstd::string::StringSliceAdditionalSpecFns;

verus! {

/// Left rotation of a 64-bit lane.
pub open spec fn spec_rotl(x: u64, n: u64) -> u64
    recommends
        1 <= n < 64,
{
    (x << n) | (x >> (64 - n))
}

fn rotl(x: u64, n: u64) -> (r: u64)
    requires
        1 <= n < 64,
    ensures
        r == spec_rotl(x, n),
{
    (x << n) | (x >> ((64 - n) as u64))
}

/// The published round constants of Keccak-f[1600].
pub open spec fn spec_round_constant(i: int) -> u64 {
    if i == 0 { 0x0000000000000001 }
    else if i == 1 { 0x0000000000008082 }
    else if i == 2 { 0x800000000000808a }
    else if i == 3 { 0x8000000080008000 }
    else if i == 4 { 0x000000000000808b }
    else if i == 5 { 0x0000000080000001 }
    else if i == 6 { 0x8000000080008081 }
    else if i == 7 { 0x8000000000008009 }
    else if i == 8 { 0x000000000000008a }
    else if i == 9 { 0x0000000000000088 }
    else if i == 10 { 0x0000000080008009 }
    else if i == 11 { 0x000000008000000a }
    else if i == 12 { 0x000000008000808b }
    else if i == 13 { 0x800000000000008b }
    else if i == 14 { 0x8000000000008089 }
    else if i == 15 { 0x8000000000008003 }
    else if i == 16 { 0x8000000000008002 }
    else if i == 17 { 0x8000000000000080 }
    else if i == 18 { 0x000000000000800a }
    else if i == 19 { 0x800000008000000a }
    else if i == 20 { 0x8000000080008081 }
    else if i == 21 { 0x8000000000008080 }
    else if i == 22 { 0x0000000080000001 }
    else { 0x8000000080008008 }
}

fn round_constant(i: usize) -> (r: u64)
    requires
        i < 24,
    ensures
        r == spec_round_constant(i as int),
{
    if i == 0 { 0x0000000000000001 }
    else if i == 1 { 0x0000000000008082 }
    else if i == 2 { 0x800000000000808a }
    else if i == 3 { 0x8000000080008000 }
    else if i == 4 { 0x000000000000808b }
    else if i == 5 { 0x0000000080000001 }
    else if i == 6 { 0x8000000080008081 }
    else if i == 7 { 0x8000000000008009 }
    else if i == 8 { 0x000000000000008a }
    else if i == 9 { 0x0000000000000088 }
    else if i == 10 { 0x0000000080008009 }
    else if i == 11 { 0x000000008000000a }
    else if i == 12 { 0x000000008000808b }
    else if i == 13 { 0x800000000000008b }
    else if i == 14 { 0x8000000000008089 }
    else if i == 15 { 0x8000000000008003 }
    else if i == 16 { 0x8000000000008002 }
    else if i == 17 { 0x8000000000000080 }
    else if i == 18 { 0x000000000000800a }
    else if i == 19 { 0x800000008000000a }
    else if i == 20 { 0x8000000080008081 }
    else if i == 21 { 0x8000000000008080 }
    else if i == 22 { 0x0000000080000001 }
    else { 0x8000000080008008 }
}

/// Source lane feeding destination lane `k` under the `rho`+`pi` step.
pub open spec fn spec_rp_source(k: int) -> int {
    if k == 1 { 6 } else if k == 2 { 12 } else if k == 3 { 18 } else if k == 4 { 24 }
    else if k == 5 { 3 } else if k == 6 { 9 } else if k == 7 { 10 } else if k == 8 { 16 }
    else if k == 9 { 22 } else if k == 10 { 1 } else if k == 11 { 7 } else if k == 12 { 13 }
    else if k == 13 { 19 } else if k == 14 { 20 } else if k == 15 { 4 } else if k == 16 { 5 }
    else if k == 17 { 11 } else if k == 18 { 17 } else if k == 19 { 23 } else if k == 20 { 2 }
    else if k == 21 { 8 } else if k == 22 { 14 } else if k == 23 { 15 } else { 21 }
}

/// Rotation applied to the source lane feeding destination lane `k`.
pub open spec fn spec_rp_rotation(k: int) -> u64 {
    if k == 1 { 44 } else if k == 2 { 43 } else if k == 3 { 21 } else if k == 4 { 14 }
    else if k == 5 { 28 } else if k == 6 { 20 } else if k == 7 { 3 } else if k == 8 { 45 }
    else if k == 9 { 61 } else if k == 10 { 1 } else if k == 11 { 6 } else if k == 12 { 25 }
    else if k == 13 { 8 } else if k == 14 { 18 } else if k == 15 { 27 } else if k == 16 { 36 }
    else if k == 17 { 10 } else if k == 18 { 15 } else if k == 19 { 56 } else if k == 20 { 62 }
    else if k == 21 { 55 } else if k == 22 { 39 } else if k == 23 { 41 } else { 2 }
}

fn rp_source(k: usize) -> (r: usize)
    requires
        1 <= k < 25,
    ensures
        r == spec_rp_source(k as int),
        r < 25,
{
    if k == 1 { 6 } else if k == 2 { 12 } else if k == 3 { 18 } else if k == 4 { 24 }
    else if k == 5 { 3 } else if k == 6 { 9 } else if k == 7 { 10 } else if k == 8 { 16 }
    else if k == 9 { 22 } else if k == 10 { 1 } else if k == 11 { 7 } else if k == 12 { 13 }
    else if k == 13 { 19 } else if k == 14 { 20 } else if k == 15 { 4 } else if k == 16 { 5 }
    else if k == 17 { 11 } else if k == 18 { 17 } else if k == 19 { 23 } else if k == 20 { 2 }
    else if k == 21 { 8 } else if k == 22 { 14 } else if k == 23 { 15 } else { 21 }
}

fn rp_rotation(k: usize) -> (r: u64)
    requires
        1 <= k < 25,
    ensures
        r == spec_rp_rotation(k as int),
        1 <= r < 64,
{
    if k == 1 { 44 } else if k == 2 { 43 } else if k == 3 { 21 } else if k == 4 { 14 }
    else if k == 5 { 28 } else if k == 6 { 20 } else if k == 7 { 3 } else if k == 8 { 45 }
    else if k == 9 { 61 } else if k == 10 { 1 } else if k == 11 { 6 } else if k == 12 { 25 }
    else if k == 13 { 8 } else if k == 14 { 18 } else if k == 15 { 27 } else if k == 16 { 36 }
    else if k == 17 { 10 } else if k == 18 { 15 } else if k == 19 { 56 } else if k == 20 { 62 }
    else if k == 21 { 55 } else if k == 22 { 39 } else if k == 23 { 41 } else { 2 }
}

/// Parity of column `x` of the state.
pub open spec fn spec_column(s: Seq<u64>, x: int) -> u64
    recommends
        s.len() == 25,
        0 <= x < 5,
{
    s[x] ^ s[x + 5] ^ s[x + 10] ^ s[x + 15] ^ s[x + 20]
}

/// The value xor-ed into every lane of column `x` by the `theta` step.
pub open spec fn spec_theta_d(s: Seq<u64>, x: int) -> u64
    recommends
        s.len() == 25,
        0 <= x < 5,
{
    spec_column(s, (x + 4) % 5) ^ spec_rotl(spec_column(s, (x + 1) % 5), 1)
}

pub open spec fn spec_theta(s: Seq<u64>) -> Seq<u64>
    recommends
        s.len() == 25,
{
    Seq::new(25, |k: int| s[k] ^ spec_theta_d(s, k % 5))
}

pub open spec fn spec_rho_pi(s: Seq<u64>) -> Seq<u64>
    recommends
        s.len() == 25,
{
    Seq::new(
        25,
        |k: int|
            if k == 0 {
                s[0]
            } else {
                spec_rotl(s[spec_rp_source(k)], spec_rp_rotation(k))
            },
    )
}

pub open spec fn spec_chi(s: Seq<u64>) -> Seq<u64>
    recommends
        s.len() == 25,
{
    Seq::new(
        25,
        |k: int| s[k] ^ ((!s[5 * (k / 5) + (k % 5 + 1) % 5]) & s[5 * (k / 5) + (k % 5 + 2) % 5]),
    )
}

pub open spec fn spec_iota(s: Seq<u64>, rc: u64) -> Seq<u64>
    recommends
        s.len() == 25,
{
    s.update(0, s[0] ^ rc)
}

pub open spec fn spec_keccak_round(s: Seq<u64>, ir: int) -> Seq<u64>
    recommends
        s.len() == 25,
        0 <= ir < 24,
{
    spec_iota(spec_chi(spec_rho_pi(spec_theta(s))), spec_round_constant(ir))
}

/// The state after the first `n` rounds.
pub open spec fn spec_keccak_rounds(s: Seq<u64>, n: int) -> Seq<u64>
    decreases n,
{
    if n <= 0 {
        s
    } else {
        spec_keccak_round(spec_keccak_rounds(s, n - 1), n - 1)
    }
}

/// The full Keccak-f[1600] permutation.
pub open spec fn spec_keccak_f(s: Seq<u64>) -> Seq<u64>
    recommends
        s.len() == 25,
{
    spec_keccak_rounds(s, 24)
}

#[verifier::loop_isolation(false)]
fn theta(s: &Vec<u64>) -> (out: Vec<u64>)
    requires
        s@.len() == 25,
    ensures
        out@ == spec_theta(s@),
{
    let c0 = s[0] ^ s[5] ^ s[10] ^ s[15] ^ s[20];
    let c1 = s[1] ^ s[6] ^ s[11] ^ s[16] ^ s[21];
    let c2 = s[2] ^ s[7] ^ s[12] ^ s[17] ^ s[22];
    let c3 = s[3] ^ s[8] ^ s[13] ^ s[18] ^ s[23];
    let c4 = s[4] ^ s[9] ^ s[14] ^ s[19] ^ s[24];
    let d0 = c4 ^ rotl(c1, 1);
    let d1 = c0 ^ rotl(c2, 1);
    let d2 = c1 ^ rotl(c3, 1);
    let d3 = c2 ^ rotl(c4, 1);
    let d4 = c3 ^ rotl(c0, 1);
    proof {
        assert(d0 == spec_theta_d(s@, 0));
        assert(d1 == spec_theta_d(s@, 1));
        assert(d2 == spec_theta_d(s@, 2));
        assert(d3 == spec_theta_d(s@, 3));
        assert(d4 == spec_theta_d(s@, 4));
    }
    let mut out: Vec<u64> = Vec::new();
    let mut k: usize = 0;
    while k < 25
        invariant
            k <= 25,
            out@.len() == k,
            forall|j: int| 0 <= j < k ==> out@[j] == spec_theta(s@)[j],
        decreases 25 - k,
    {
        let r = k % 5;
        let d = if r == 0 { d0 } else if r == 1 { d1 } else if r == 2 { d2 } else if r == 3 { d3 }
        else { d4 };
        out.push(s[k] ^ d);
        k = k + 1;
    }
    proof {
        assert(out@ =~= spec_theta(s@));
    }
    out
}

#[verifier::loop_isolation(false)]
fn rho_pi(s: &Vec<u64>) -> (out: Vec<u64>)
    requires
        s@.len() == 25,
    ensures
        out@ == spec_rho_pi(s@),
{
    let mut out: Vec<u64> = Vec::new();
    let mut k: usize = 0;
    while k < 25
        invariant
            k <= 25,
            out@.len() == k,
            forall|j: int| 0 <= j < k ==> out@[j] == spec_rho_pi(s@)[j],
        decreases 25 - k,
    {
        if k == 0 {
            out.push(s[0]);
        } else {
            let src = rp_source(k);
            let rot = rp_rotation(k);
            out.push(rotl(s[src], rot));
        }
        k = k + 1;
    }
    proof {
        assert(out@ =~= spec_rho_pi(s@));
    }
    out
}

#[verifier::loop_isolation(false)]
fn chi_iota(s: &Vec<u64>, rc: u64) -> (out: Vec<u64>)
    requires
        s@.len() == 25,
    ensures
        out@ == spec_iota(spec_chi(s@), rc),
{
    let mut out: Vec<u64> = Vec::new();
    let mut k: usize = 0;
    while k < 25
        invariant
            k <= 25,
            out@.len() == k,
            forall|j: int| 0 <= j < k ==> out@[j] == spec_iota(spec_chi(s@), rc)[j],
        decreases 25 - k,
    {
        let row = 5 * (k / 5);
        let i1 = row + (k % 5 + 1) % 5;
        let i2 = row + (k % 5 + 2) % 5;
        let mut lane = s[k] ^ ((!s[i1]) & s[i2]);
        if k == 0 {
            lane = lane ^ rc;
        }
        out.push(lane);
        k = k + 1;
    }
    proof {
        assert(out@ =~= spec_iota(spec_chi(s@), rc));
    }
    out
}

fn keccak_round(s: &Vec<u64>, ir: usize) -> (out: Vec<u64>)
    requires
        s@.len() == 25,
        ir < 24,
    ensures
        out@ == spec_keccak_round(s@, ir as int),
        out@.len() == 25,
{
    let t = theta(s);
    let rp = rho_pi(&t);
    let rc = round_constant(ir);
    let out = chi_iota(&rp, rc);
    proof {
        assert(out@.len() == 25);
    }
    out
}

/// The Keccak-f[1600] permutation over a 25-lane state.
#[verifier::loop_isolation(false)]
pub fn keccak_f1600(state: &mut Vec<u64>)
    requires
        old(state)@.len() == 25,
    ensures
        final(state)@ == spec_keccak_f(old(state)@),
        final(state)@.len() == 25,
{
    let mut ir: usize = 0;
    while ir < 24
        invariant
            ir <= 24,
            state@.len() == 25,
            state@ == spec_keccak_rounds(old(state)@, ir as int),
        decreases 24 - ir,
    {
        let next = keccak_round(state, ir);
        *state = next;
        ir = ir + 1;
    }
}

/// The lane absorbed from 8 little-endian bytes of `b` starting at `off`.
pub open spec fn spec_le64(b: Seq<u8>, off: int) -> u64
    recommends
        0 <= off,
        off + 8 <= b.len(),
{
    (b[off] as u64) | ((b[off + 1] as u64) << 8) | ((b[off + 2] as u64) << 16) | ((b[off
        + 3] as u64) << 24) | ((b[off + 4] as u64) << 32) | ((b[off + 5] as u64) << 40) | ((b[off
        + 6] as u64) << 48) | ((b[off + 7] as u64) << 56)
}

/// The state after one full rate block is xor-ed into the first 17 lanes.
pub open spec fn spec_absorb(s: Seq<u64>, b: Seq<u8>) -> Seq<u64>
    recommends
        s.len() == 25,
        b.len() == 136,
{
    Seq::new(25, |i: int| if i < 17 { s[i] ^ spec_le64(b, 8 * i) } else { s[i] })
}

/// Xors one 136-byte rate block into the first 17 lanes of the state.
#[verifier::loop_isolation(false)]
pub fn absorb_block(state: &mut Vec<u64>, block: &[u8])
    requires
        old(state)@.len() == 25,
        block@.len() == 136,
    ensures
        final(state)@ == spec_absorb(old(state)@, block@),
        final(state)@.len() == 25,
{
    let mut out: Vec<u64> = Vec::new();
    let mut k: usize = 0;
    while k < 25
        invariant
            k <= 25,
            out@.len() == k,
            state@ == old(state)@,
            forall|j: int| 0 <= j < k ==> out@[j] == spec_absorb(old(state)@, block@)[j],
        decreases 25 - k,
    {
        if k < 17 {
            let o = 8 * k;
            let lane = (block[o] as u64) | ((block[o + 1] as u64) << 8u64) | ((block[o
                + 2] as u64) << 16u64) | ((block[o + 3] as u64) << 24u64) | ((block[o
                + 4] as u64) << 32u64) | ((block[o + 5] as u64) << 40u64) | ((block[o
                + 6] as u64) << 48u64) | ((block[o + 7] as u64) << 56u64);
            out.push(state[k] ^ lane);
        } else {
            out.push(state[k]);
        }
        k = k + 1;
    }
    proof {
        assert(out@ =~= spec_absorb(old(state)@, block@));
    }
    *state = out;
}

/// Byte `j` of the little-endian serialisation of the state.
pub open spec fn spec_state_byte(s: Seq<u64>, j: int) -> u8
    recommends
        s.len() == 25,
        0 <= j < 200,
{
    (s[j / 8] >> ((j % 8) * 8)) as u8
}

/// The 200-byte little-endian serialisation of the state.
pub open spec fn spec_state_bytes(s: Seq<u64>) -> Seq<u8>
    recommends
        s.len() == 25,
{
    Seq::new(200, |j: int| spec_state_byte(s, j))
}

/// Serialises the 25-lane state into its 200 little-endian bytes.
#[verifier::loop_isolation(false)]
pub fn state_to_bytes(state: &Vec<u64>) -> (out: Vec<u8>)
    requires
        state@.len() == 25,
    ensures
        out@ == spec_state_bytes(state@),
        out@.len() == 200,
{
    let mut out: Vec<u8> = Vec::new();
    let mut j: usize = 0;
    while j < 200
        invariant
            j <= 200,
            out@.len() == j,
            forall|i: int| 0 <= i < j ==> out@[i] == spec_state_byte(state@, i),
        decreases 200 - j,
    {
        let lane = state[j / 8];
        let shift = ((j % 8) * 8) as u64;
        let byte = #[verifier::truncate] ((lane >> shift) as u8);
        out.push(byte);
        j = j + 1;
    }
    proof {
        assert(out@ =~= spec_state_bytes(state@));
    }
    out
}

/// The all-zero initial sponge state.
pub open spec fn spec_init_state() -> Seq<u64> {
    Seq::new(25, |i: int| 0u64)
}

/// The state after absorbing the first `n` full rate blocks of the input.
pub open spec fn spec_absorb_blocks(input: Seq<u8>, n: int) -> Seq<u64>
    decreases n,
{
    if n <= 0 {
        spec_init_state()
    } else {
        spec_keccak_f(
            spec_absorb(
                spec_absorb_blocks(input, n - 1),
                input.subrange((n - 1) * 136, n * 136),
            ),
        )
    }
}

/// The final padded block built from the remainder of the input: the
/// remainder, the padding byte `0x01`, zeroes, and `0x80` or-ed into the
/// last byte of the block.
pub open spec fn spec_pad_block(rem: Seq<u8>) -> Seq<u8>
    recommends
        rem.len() < 136,
{
    let base = Seq::new(
        136,
        |j: int|
            if j < rem.len() {
                rem[j]
            } else if j == rem.len() {
                0x01u8
            } else {
                0u8
            },
    );
    base.update(135, base[135] | 0x80)
}

/// Keccak-256 of a byte string: absorb at rate 136, pad with `0x01 … 0x80`,
/// squeeze 32 bytes.
pub open spec fn spec_keccak256(input: Seq<u8>) -> Seq<u8> {
    let blocks = input.len() / 136;
    let absorbed = spec_absorb_blocks(input, blocks as int);
    let rem = input.subrange(blocks as int * 136, input.len() as int);
    let fin = spec_keccak_f(spec_absorb(absorbed, spec_pad_block(rem)));
    spec_state_bytes(fin).take(32)
}

/// Keccak-256 of `input`: exactly 32 bytes.
#[verifier::loop_isolation(false)]
pub fn keccak256(input: &[u8]) -> (out: Vec<u8>)
    ensures
        out@ == spec_keccak256(input@),
        out@.len() == 32,
{
    let mut state: Vec<u64> = Vec::new();
    let mut z: usize = 0;
    while z < 25
        invariant
            z <= 25,
            state@.len() == z,
            forall|i: int| 0 <= i < z ==> state@[i] == 0u64,
        decreases 25 - z,
    {
        state.push(0);
        z = z + 1;
    }
    proof {
        assert(state@ =~= spec_init_state());
    }
    let total = input.len();
    let mut offset: usize = 0;
    let ghost mut nb: int = 0;
    while total - offset >= 136
        invariant
            offset <= total,
            offset == nb * 136,
            nb == offset / 136,
            state@.len() == 25,
            state@ == spec_absorb_blocks(input@, nb),
        decreases total - offset,
    {
        let mut block: Vec<u8> = Vec::new();
        let mut t: usize = 0;
        while t < 136
            invariant
                t <= 136,
                offset + 136 <= total,
                block@.len() == t,
                forall|i: int| 0 <= i < t ==> block@[i] == input@[offset + i],
            decreases 136 - t,
        {
            block.push(input[offset + t]);
            t = t + 1;
        }
        proof {
            assert(block@ =~= input@.subrange(nb * 136, (nb + 1) * 136));
        }
        absorb_block(&mut state, block.as_slice());
        keccak_f1600(&mut state);
        offset = offset + 136;
        proof {
            nb = nb + 1;
        }
    }
    let rem_len = total - offset;
    proof {
        assert(rem_len < 136);
        assert(nb == input@.len() / 136);
    }
    let mut block: Vec<u8> = Vec::new();
    let mut t: usize = 0;
    while t < rem_len
        invariant
            t <= rem_len,
            offset + rem_len == total,
            block@.len() == t,
            forall|i: int| 0 <= i < t ==> block@[i] == input@[offset + i],
        decreases rem_len - t,
    {
        block.push(input[offset + t]);
        t = t + 1;
    }
    if rem_len == 135 {
        block.push(0x81);
    } else {
        block.push(0x01);
        let mut t: usize = rem_len + 1;
        while t < 135
            invariant
                rem_len + 1 <= t <= 135,
                block@.len() == t,
                forall|i: int| 0 <= i < rem_len ==> block@[i] == input@[offset + i],
                block@[rem_len as int] == 0x01u8,
                forall|i: int| rem_len < i < t ==> block@[i] == 0u8,
            decreases 135 - t,
        {
            block.push(0);
            t = t + 1;
        }
        block.push(0x80);
    }
    proof {
        let rem = input@.subrange(offset as int, total as int);
        assert(rem.len() == rem_len);
        assert forall|i: int| 0 <= i < rem_len implies block@[i] == rem[i] by {
            assert(block@[i] == input@[offset + i]);
        }
        assert(0u8 | 0x80u8 == 0x80u8) by (bit_vector);
        assert(0x01u8 | 0x80u8 == 0x81u8) by (bit_vector);
        assert(block@ =~= spec_pad_block(rem));
    }
    absorb_block(&mut state, block.as_slice());
    keccak_f1600(&mut state);
    let bytes = state_to_bytes(&state);
    let mut out: Vec<u8> = Vec::new();
    let mut i: usize = 0;
    while i < 32
        invariant
            i <= 32,
            out@.len() == i,
            forall|j: int| 0 <= j < i ==> out@[j] == bytes@[j],
        decreases 32 - i,
    {
        out.push(bytes[i]);
        i = i + 1;
    }
    proof {
        assert(out@ =~= spec_keccak256(input@));
    }
    out
}

/// The 4-byte EVM function selector of an ASCII signature: the first four
/// bytes of the Keccak-256 hash of the signature's bytes.
pub open spec fn spec_function_selector(sig: Seq<u8>) -> Seq<u8> {
    spec_keccak256(sig).take(4)
}

/// First four bytes of the Keccak-256 hash of the signature string.
pub fn function_selector(signature: &str) -> (out: Vec<u8>)
    ensures
        out@ == spec_function_selector(signature.spec_bytes()),
        out@.len() == 4,
{
    let bytes = signature.as_bytes();
    let hash = keccak256(bytes);
    let mut out: Vec<u8> = Vec::new();
    out.push(hash[0]);
    out.push(hash[1]);
    out.push(hash[2]);
    out.push(hash[3]);
    proof {
        assert(out@ =~= spec_function_selector(signature.spec_bytes()));
    }
    out
}

} // verus!
