//! Lowercase hexadecimal text: rendering bytes as `0x…` strings and
//! reading `0x…` strings back into bytes, as EVM addresses and JSON-RPC
//! quantities travel.

use vstd::prelude::*;
use vstd::string::StringSliceAdditionalSpecFns;
use vstd::utf8::{decode_utf8, encode_utf8, is_ascii_chars, is_ascii_chars_encode_utf8, valid_utf8};
use crate::errors::RelayError;

verus! {

/// The lowercase hexadecimal digit character for `d`.
pub open spec fn spec_hex_digit_char(d: int) -> char
    recommends
        0 <= d < 16,
{
    if d == 0 { '0' } else if d == 1 { '1' } else if d == 2 { '2' } else if d == 3 { '3' }
    else if d == 4 { '4' } else if d == 5 { '5' } else if d == 6 { '6' } else if d == 7 { '7' }
    else if d == 8 { '8' } else if d == 9 { '9' } else if d == 10 { 'a' } else if d == 11 { 'b' }
    else if d == 12 { 'c' } else if d == 13 { 'd' } else if d == 14 { 'e' } else { 'f' }
}

/// The hexadecimal rendering of a byte string: two digits per byte.
pub open spec fn spec_hex_chars(bytes: Seq<u8>) -> Seq<char> {
    Seq::new(
        2 * bytes.len(),
        |i: int|
            if i % 2 == 0 {
                spec_hex_digit_char((bytes[i / 2] / 16) as int)
            } else {
                spec_hex_digit_char((bytes[i / 2] % 16) as int)
            },
    )
}

/// A one-character string slice holding the hexadecimal digit for `d`.
pub fn hex_digit_str(d: u8) -> (r: &'static str)
    requires
        d < 16,
    ensures
        r@ == seq![spec_hex_digit_char(d as int)],
{
    proof {
        reveal_strlit("0");
        reveal_strlit("1");
        reveal_strlit("2");
        reveal_strlit("3");
        reveal_strlit("4");
        reveal_strlit("5");
        reveal_strlit("6");
        reveal_strlit("7");
        reveal_strlit("8");
        reveal_strlit("9");
        reveal_strlit("a");
        reveal_strlit("b");
        reveal_strlit("c");
        reveal_strlit("d");
        reveal_strlit("e");
        reveal_strlit("f");
    }
    let r = if d == 0 { "0" } else if d == 1 { "1" } else if d == 2 { "2" } else if d == 3 { "3" }
    else if d == 4 { "4" } else if d == 5 { "5" } else if d == 6 { "6" } else if d == 7 { "7" }
    else if d == 8 { "8" } else if d == 9 { "9" } else if d == 10 { "a" } else if d == 11 { "b" }
    else if d == 12 { "c" } else if d == 13 { "d" } else if d == 14 { "e" } else { "f" };
    proof {
        assert(r@ =~= seq![spec_hex_digit_char(d as int)]);
    }
    r
}

/// Appends the two hexadecimal digits of each byte to `out`.
#[verifier::loop_isolation(false)]
pub fn append_hex_chars(out: &mut String, bytes: &[u8])
    ensures
        final(out)@ == old(out)@ + spec_hex_chars(bytes@),
{
    let mut i: usize = 0;
    while i < bytes.len()
        invariant
            i <= bytes@.len(),
            out@ =~= old(out)@ + spec_hex_chars(bytes@).take(2 * i as int),
        decreases bytes@.len() - i,
    {
        let b = bytes[i];
        out.append(hex_digit_str(b / 16));
        out.append(hex_digit_str(b % 16));
        proof {
            assert(out@ =~= old(out)@ + spec_hex_chars(bytes@).take(2 * (i + 1)));
        }
        i = i + 1;
    }
    proof {
        assert(spec_hex_chars(bytes@).take(2 * bytes@.len() as int) =~= spec_hex_chars(bytes@));
    }
}

/// `0x`-prefixed lowercase hexadecimal rendering of a byte string.
pub fn to_hex_prefixed(bytes: &[u8]) -> (r: String)
    ensures
        r@ == "0x"@ + spec_hex_chars(bytes@),
{
    let mut out = String::from_str("0x");
    append_hex_chars(&mut out, bytes);
    out
}

/// `0x`-prefixed rendering of a 20-byte EVM address; anything of another
/// length is refused.
pub fn to_hex_address(bytes: &[u8]) -> (r: Result<String, RelayError>)
    ensures
        match r {
            Ok(s) => bytes@.len() == 20 && s@ == "0x"@ + spec_hex_chars(bytes@),
            Err(e) => bytes@.len() != 20 && (e matches RelayError::InvalidAddressLength {
                field,
                expected,
                actual,
            } && field@ == "address"@ && expected == 20 && actual == bytes@.len()),
        },
{
    if bytes.len() != 20 {
        return Err(
            RelayError::InvalidAddressLength {
                field: String::from_str("address"),
                expected: 20,
                actual: bytes.len(),
            },
        );
    }
    Ok(to_hex_prefixed(bytes))
}

/// Whether `b` is an ASCII whitespace byte.
pub open spec fn spec_is_ws(b: u8) -> bool {
    b == 32 || b == 9 || b == 10 || b == 13 || b == 12
}

/// The byte string with leading and trailing ASCII whitespace removed.
pub open spec fn spec_trim_ascii(s: Seq<u8>) -> Seq<u8>
    decreases s.len(),
{
    if s.len() == 0 {
        s
    } else if spec_is_ws(s[0]) {
        spec_trim_ascii(s.drop_first())
    } else if spec_is_ws(s.last()) {
        spec_trim_ascii(s.drop_last())
    } else {
        s
    }
}

fn is_ws(b: u8) -> (r: bool)
    ensures
        r == spec_is_ws(b),
{
    b == 32 || b == 9 || b == 10 || b == 13 || b == 12
}

/// Removes leading and trailing ASCII whitespace bytes.
#[verifier::loop_isolation(false)]
pub fn trim_ascii(s: &[u8]) -> (out: Vec<u8>)
    ensures
        out@ == spec_trim_ascii(s@),
{
    proof {
        assert(s@.subrange(0, s@.len() as int) =~= s@);
    }
    let mut lo: usize = 0;
    let mut hi: usize = s.len();
    while lo < hi && is_ws(s[lo])
        invariant
            lo <= hi <= s@.len(),
            hi == s@.len(),
            spec_trim_ascii(s@) == spec_trim_ascii(s@.subrange(lo as int, hi as int)),
        decreases hi - lo,
    {
        proof {
            let cur = s@.subrange(lo as int, hi as int);
            assert(cur.drop_first() =~= s@.subrange(lo + 1, hi as int));
        }
        lo = lo + 1;
    }
    while lo < hi && is_ws(s[hi - 1])
        invariant
            lo <= hi <= s@.len(),
            spec_trim_ascii(s@) == spec_trim_ascii(s@.subrange(lo as int, hi as int)),
            lo < hi ==> !spec_is_ws(s@[lo as int]),
        decreases hi - lo,
    {
        proof {
            let cur = s@.subrange(lo as int, hi as int);
            assert(cur.drop_last() =~= s@.subrange(lo as int, hi - 1));
            assert(cur[0] == s@[lo as int]);
            assert(cur.last() == s@[hi - 1]);
        }
        hi = hi - 1;
    }
    let mut out: Vec<u8> = Vec::new();
    let mut i: usize = lo;
    while i < hi
        invariant
            lo <= i <= hi <= s@.len(),
            out@ == s@.subrange(lo as int, i as int),
        decreases hi - i,
    {
        out.push(s[i]);
        proof {
            assert(s@.subrange(lo as int, i as int) + seq![s@[i as int]] =~= s@.subrange(
                lo as int,
                i + 1,
            ));
        }
        i = i + 1;
    }
    proof {
        let cur = s@.subrange(lo as int, hi as int);
        if lo < hi {
            assert(cur[0] == s@[lo as int]);
            assert(cur.last() == s@[hi - 1]);
            assert(spec_trim_ascii(cur) == cur);
        } else {
            assert(cur.len() == 0);
        }
        assert(out@ =~= cur);
    }
    out
}

/// Relies on alloc's `String::from_utf8`: valid UTF-8 bytes become the
/// string they encode; anything else becomes the empty string.
#[verifier::external_body]
pub fn bytes_to_string(v: Vec<u8>) -> (r: String)
    ensures
        valid_utf8(v@) ==> r@ == decode_utf8(v@),
        !valid_utf8(v@) ==> r@ == Seq::<char>::empty(),
{
    match String::from_utf8(v) {
        Ok(s) => s,
        Err(_) => String::new(),
    }
}

/// Whether `s` matches bytes `b`: exactly their decoding where they are
/// valid UTF-8.
pub open spec fn spec_str_matches_bytes(s: Seq<char>, b: Seq<u8>) -> bool {
    if valid_utf8(b) {
        s == decode_utf8(b)
    } else {
        s == Seq::<char>::empty()
    }
}

/// The value of one hexadecimal digit byte, either case; `16` marks a
/// byte that is no digit.
pub open spec fn spec_hex_nibble(b: u8) -> int {
    if 48 <= b <= 57 {
        b - 48
    } else if 97 <= b <= 102 {
        b - 87
    } else if 65 <= b <= 70 {
        b - 55
    } else {
        16
    }
}

fn hex_nibble(b: u8) -> (r: u8)
    ensures
        r == spec_hex_nibble(b),
{
    if 48 <= b && b <= 57 {
        b - 48
    } else if 97 <= b && b <= 102 {
        b - 87
    } else if 65 <= b && b <= 70 {
        b - 55
    } else {
        16
    }
}

/// Whether every byte of `s` is a hexadecimal digit.
pub open spec fn spec_all_hex(s: Seq<u8>) -> bool {
    forall|i: int| 0 <= i < s.len() ==> spec_hex_nibble(s[i]) < 16
}

/// The bytes read from an even-length string of hexadecimal digits.
pub open spec fn spec_hex_pairs(s: Seq<u8>) -> Seq<u8>
    recommends
        s.len() % 2 == 0,
        spec_all_hex(s),
{
    Seq::new(
        s.len() / 2,
        |i: int| (spec_hex_nibble(s[2 * i]) * 16 + spec_hex_nibble(s[2 * i + 1])) as u8,
    )
}

/// One decoded byte of a hex body: both digits valid, and the output byte
/// assembled from them.
pub open spec fn spec_hex_pair_ok(body: Seq<u8>, out: Seq<u8>, k: int) -> bool {
    &&& spec_hex_nibble(body[2 * k]) < 16
    &&& spec_hex_nibble(body[2 * k + 1]) < 16
    &&& out[k] == (spec_hex_nibble(body[2 * k]) * 16 + spec_hex_nibble(body[2 * k + 1])) as u8
}

/// The hexadecimal body of a `0x…` string after trimming: an odd-length
/// body is padded with one leading `0` digit, as one leading nibble.
pub open spec fn spec_hex_body_padded(body: Seq<u8>) -> Seq<u8> {
    if body.len() % 2 == 0 {
        body
    } else {
        seq![48u8] + body
    }
}

/// Whether a byte string begins with `0x`.
pub open spec fn spec_has_hex_prefix(s: Seq<u8>) -> bool {
    s.len() >= 2 && s[0] == 48 && s[1] == 120
}

/// What parsing a `0x…` hexadecimal string yields: `None` where the
/// (trimmed) string has no `0x` prefix or holds a byte that is no digit.
pub open spec fn spec_parse_hex(s: Seq<u8>) -> Option<Seq<u8>> {
    let t = spec_trim_ascii(s);
    if !spec_has_hex_prefix(t) {
        None
    } else {
        let body = spec_hex_body_padded(t.skip(2));
        if spec_all_hex(body) {
            Some(spec_hex_pairs(body))
        } else {
            None
        }
    }
}

/// Parses a `0x`-prefixed hexadecimal string into bytes. An empty body
/// yields no bytes; an odd body is read as if padded with a leading zero
/// digit. Trimming covers ASCII whitespace; a refused input's error
/// carries the trimmed form.
#[verifier::loop_isolation(false)]
pub fn parse_hex_bytes(value: &str) -> (r: Result<Vec<u8>, RelayError>)
    ensures
        match r {
            Ok(v) => spec_parse_hex(value.spec_bytes()) == Some(v@),
            Err(e) => spec_parse_hex(value.spec_bytes()) is None && (e
                matches RelayError::HexDecodeFailed { value: v } && spec_str_matches_bytes(
                v@,
                spec_trim_ascii(value.spec_bytes()),
            )),
        },
{
    let bytes = value.as_bytes();
    let trimmed = trim_ascii(bytes);
    if trimmed.len() < 2 || trimmed[0] != 48 || trimmed[1] != 120 {
        return Err(RelayError::HexDecodeFailed { value: bytes_to_string(trimmed) });
    }
    let body_len = trimmed.len() - 2;
    let odd = body_len % 2 == 1;
    let mut body: Vec<u8> = Vec::new();
    if odd {
        body.push(48);
    }
    let mut i: usize = 2;
    while i < trimmed.len()
        invariant
            2 <= i <= trimmed@.len(),
            body@ == spec_hex_body_padded(trimmed@.skip(2)).take(
                body@.len() as int,
            ),
            body@.len() == i - 2 + if odd { 1int } else { 0int },
            odd == (trimmed@.skip(2).len() % 2 == 1),
        decreases trimmed@.len() - i,
    {
        body.push(trimmed[i]);
        proof {
            let sk = trimmed@.skip(2);
            let padded = spec_hex_body_padded(sk);
            let l = body@.len() as int;
            assert(sk[i - 2] == trimmed@[i as int]);
            assert(padded[l - 1] == trimmed@[i as int]) by {
                if odd {
                    assert(padded[l - 1] == sk[l - 2]);
                } else {
                    assert(padded[l - 1] == sk[l - 1]);
                }
            }
            assert(padded.take(l - 1).push(trimmed@[i as int]) =~= padded.take(l));
        }
        i = i + 1;
    }
    proof {
        let padded = spec_hex_body_padded(trimmed@.skip(2));
        assert(body@ =~= padded);
        assert(body@.len() % 2 == 0);
    }
    let mut out: Vec<u8> = Vec::new();
    let mut j: usize = 0;
    while j + 1 < body.len()
        invariant
            j <= body@.len(),
            j % 2 == 0,
            body@.len() % 2 == 0,
            out@.len() == j / 2,
            forall|k: int| 0 <= k < j / 2 ==> #[trigger] spec_hex_pair_ok(body@, out@, k),
        decreases body@.len() - j,
    {
        let hi = hex_nibble(body[j]);
        let lo = hex_nibble(body[j + 1]);
        if hi >= 16 || lo >= 16 {
            return Err(RelayError::HexDecodeFailed { value: bytes_to_string(trimmed) });
        }
        let ghost out0 = out@;
        out.push(hi * 16 + lo);
        proof {
            assert forall|k: int| 0 <= k < (j + 2) / 2 implies #[trigger] spec_hex_pair_ok(
                body@,
                out@,
                k,
            ) by {
                if k < j / 2 {
                    assert(spec_hex_pair_ok(body@, out0, k));
                    assert(out@[k] == out0[k]);
                } else {
                    assert(k == j / 2);
                    assert(2 * k == j as int);
                    assert(2 * k + 1 == j as int + 1);
                    assert(out@[k] == hi * 16 + lo);
                }
            }
        }
        j = j + 2;
    }
    proof {
        assert(j == body@.len());
        assert(spec_all_hex(body@)) by {
            assert forall|i2: int| 0 <= i2 < body@.len() implies spec_hex_nibble(body@[i2]) < 16 by {
                let k = i2 / 2;
                assert(0 <= k < j / 2);
                assert(spec_hex_pair_ok(body@, out@, k));
                if i2 % 2 == 0 {
                    assert(i2 == 2 * k);
                } else {
                    assert(i2 == 2 * k + 1);
                }
            }
        }
        assert(out@ =~= spec_hex_pairs(body@)) by {
            assert forall|k: int| 0 <= k < out@.len() implies out@[k] == spec_hex_pairs(body@)[k] by {
                assert(spec_hex_pair_ok(body@, out@, k));
            }
        }
    }
    Ok(out)
}

/// The 20 bytes of a `0x`-prefixed, 40-digit EVM address string.
pub fn evm_address_bytes(address: &str) -> (r: Result<Vec<u8>, RelayError>)
    ensures
        match r {
            Ok(v) => spec_parse_hex(address.spec_bytes()) == Some(v@) && v@.len() == 20,
            Err(e) => {
                ||| spec_parse_hex(address.spec_bytes()) is None && (e
                    matches RelayError::HexDecodeFailed { .. })
                ||| spec_parse_hex(address.spec_bytes()) is Some && spec_parse_hex(
                    address.spec_bytes(),
                )->Some_0.len() != 20 && (e matches RelayError::InvalidAddressLength { .. })
            },
        },
{
    let bytes = parse_hex_bytes(address)?;
    if bytes.len() != 20 {
        return Err(
            RelayError::InvalidAddressLength {
                field: String::from_str("evm_address"),
                expected: 20,
                actual: bytes.len(),
            },
        );
    }
    Ok(bytes)
}

/// Checks shape (42 bytes and a `0x` prefix after trimming ASCII
/// whitespace) and digits of an EVM address string and returns its
/// lowercase normal form. A wrong shape is an `InvalidAddressLength`, a
/// bad digit a `HexDecodeFailed` carrying the trimmed input.
pub fn normalize_evm_address(address: &str) -> (r: Result<String, RelayError>)
    ensures
        match r {
            Ok(s) => {
                &&& spec_trim_ascii(address.spec_bytes()).len() == 42
                &&& spec_parse_hex(address.spec_bytes()) is Some
                &&& spec_parse_hex(address.spec_bytes())->Some_0.len() == 20
                &&& s@ == "0x"@ + spec_hex_chars(spec_parse_hex(address.spec_bytes())->Some_0)
            },
            Err(e) => {
                ||| (spec_trim_ascii(address.spec_bytes()).len() != 42 || !spec_has_hex_prefix(
                    spec_trim_ascii(address.spec_bytes()),
                )) && (e matches RelayError::InvalidAddressLength { field, expected, actual }
                    && field@ == "evm_address"@ && expected == 42 && actual == spec_trim_ascii(
                    address.spec_bytes(),
                ).len())
                ||| spec_trim_ascii(address.spec_bytes()).len() == 42 && spec_has_hex_prefix(
                    spec_trim_ascii(address.spec_bytes()),
                ) && spec_parse_hex(address.spec_bytes()) is None && (e
                    matches RelayError::HexDecodeFailed { value: v } && spec_str_matches_bytes(
                    v@,
                    spec_trim_ascii(address.spec_bytes()),
                ))
            },
        },
{
    let bytes = address.as_bytes();
    let trimmed = trim_ascii(bytes);
    if trimmed.len() != 42 || trimmed[0] != 48 || trimmed[1] != 120 {
        return Err(
            RelayError::InvalidAddressLength {
                field: String::from_str("evm_address"),
                expected: 42,
                actual: trimmed.len(),
            },
        );
    }
    let decoded = parse_hex_bytes(address)?;
    proof {
        // 40 hexadecimal digits always decode to 20 bytes.
        let t = spec_trim_ascii(address.spec_bytes());
        assert(t.skip(2).len() == 40);
        assert(spec_hex_body_padded(t.skip(2)) == t.skip(2));
        assert(decoded@.len() == 20);
    }
    if decoded.len() != 20 {
        return Err(
            RelayError::InvalidAddressLength {
                field: String::from_str("evm_address"),
                expected: 20,
                actual: decoded.len(),
            },
        );
    }
    Ok(to_hex_prefixed(decoded.as_slice()))
}


/// Each hexadecimal digit character is an ASCII non-whitespace byte that
/// reads back as its own nibble value.
proof fn lemma_hex_digit_char_byte(d: int)
    requires
        0 <= d < 16,
    ensures
        '\0' <= spec_hex_digit_char(d) <= '\u{7f}',
        !spec_is_ws(spec_hex_digit_char(d) as u8),
        spec_hex_nibble(spec_hex_digit_char(d) as u8) == d,
{
}

/// Normalising is idempotent: the `0x`-prefixed lowercase rendering of 20
/// bytes trims to itself and parses back to exactly those bytes, so a
/// normalised address run through `normalize_evm_address` again comes
/// back unchanged.
pub proof fn lemma_normalized_address_fixed_point(v: Seq<u8>)
    requires
        v.len() == 20,
    ensures
        ({
            let b = encode_utf8("0x"@ + spec_hex_chars(v));
            &&& spec_trim_ascii(b) == b
            &&& b.len() == 42
            &&& spec_parse_hex(b) == Some(v)
        }),
{
    reveal_strlit("0x");
    let s = "0x"@ + spec_hex_chars(v);
    assert(s.len() == 42);
    assert(s[0] == '0' && s[1] == 'x');
    assert forall|i: int| 0 <= i < s.len() implies '\0' <= #[trigger] s[i] <= '\u{7f}' by {
        if i >= 2 {
            assert(s[i] == spec_hex_chars(v)[i - 2]);
            if (i - 2) % 2 == 0 {
                lemma_hex_digit_char_byte((v[(i - 2) / 2] / 16) as int);
            } else {
                lemma_hex_digit_char_byte((v[(i - 2) / 2] % 16) as int);
            }
        }
    }
    assert(is_ascii_chars(s));
    is_ascii_chars_encode_utf8(s);
    let b = encode_utf8(s);
    assert(b.len() == 42);
    assert('0' as u8 == 48 && 'x' as u8 == 120);
    assert(b[0] == 48 && b[1] == 120);
    assert(!spec_is_ws(b[0]));
    assert(!spec_is_ws(b[41])) by {
        assert(s[41] == spec_hex_chars(v)[39]);
        lemma_hex_digit_char_byte((v[19] % 16) as int);
        assert(b[41] == s[41] as u8);
    }
    assert(spec_trim_ascii(b) == b) by {
        assert(b.last() == b[41]);
    }
    assert(spec_has_hex_prefix(b));
    let body = b.skip(2);
    assert(body.len() == 40);
    assert(body.len() % 2 == 0);
    assert(spec_hex_body_padded(body) == body);
    assert forall|i: int| 0 <= i < body.len() implies spec_hex_nibble(#[trigger] body[i]) < 16 by {
        assert(body[i] == b[i + 2]);
        assert(b[i + 2] == s[i + 2] as u8);
        assert(s[i + 2] == spec_hex_chars(v)[i]);
        if i % 2 == 0 {
            lemma_hex_digit_char_byte((v[i / 2] / 16) as int);
        } else {
            lemma_hex_digit_char_byte((v[i / 2] % 16) as int);
        }
    }
    assert(spec_all_hex(body));
    assert(spec_hex_pairs(body) =~= v) by {
        assert forall|k: int| 0 <= k < 20 implies spec_hex_pairs(body)[k] == v[k] by {
            assert(body[2 * k] == s[2 * k + 2] as u8);
            assert(s[2 * k + 2] == spec_hex_chars(v)[2 * k]);
            assert(spec_hex_chars(v)[2 * k] == spec_hex_digit_char((v[k] / 16) as int));
            assert(body[2 * k + 1] == s[2 * k + 3] as u8);
            assert(s[2 * k + 3] == spec_hex_chars(v)[2 * k + 1]);
            assert(spec_hex_chars(v)[2 * k + 1] == spec_hex_digit_char((v[k] % 16) as int));
            lemma_hex_digit_char_byte((v[k] / 16) as int);
            lemma_hex_digit_char_byte((v[k] % 16) as int);
            assert(spec_hex_nibble(body[2 * k]) == v[k] / 16);
            assert(spec_hex_nibble(body[2 * k + 1]) == v[k] % 16);
        }
    }
}

} // verus!
