//! The relayer's error taxonomy, and each error's canonical display form,
//! stated character for character.

use vstd::prelude::*;
use crate::bignum::BigNum;
use crate::hexfmt::{spec_hex_chars, to_hex_prefixed};

verus! {

/// Everything the relayer can refuse or fail with.
#[derive(Debug)]
pub enum RelayError {
    NotAuthorized,
    NotInitialized,
    Paused,
    ConfigurationMissing { field: String },
    RelayerAddressMissing,
    AssetNotRegistered,
    AssetNotActive,
    AuthorizationExpired,
    AuthorizationAlreadyUsed,
    InvalidAddressLength { field: String, expected: usize, actual: usize },
    InvalidNonceLength { expected: usize, actual: usize },
    InvalidSignatureLength { field: String, expected: usize, actual: usize },
    SignatureRecoveryFailed { message: String },
    RpcError { code: i64, message: String },
    RpcTransportError { code: String, message: String },
    RpcResultTypeMismatch { expected: String },
    HexDecodeFailed { value: String },
    NumberOutOfRange { field: String },
    SimulationFailed { message: String },
    GasEstimateFailed { message: String },
    GasBalanceLow { required: BigNum, actual: BigNum },
    RateLimited,
    JsonError { message: String },
    NotImplemented { feature: String },
}

/// The decimal digit character for `d`.
pub open spec fn spec_dec_digit_char(d: int) -> char
    recommends
        0 <= d < 10,
{
    if d == 0 { '0' } else if d == 1 { '1' } else if d == 2 { '2' } else if d == 3 { '3' }
    else if d == 4 { '4' } else if d == 5 { '5' } else if d == 6 { '6' } else if d == 7 { '7' }
    else if d == 8 { '8' } else { '9' }
}

/// The decimal rendering of `n`, most significant digit first.
pub open spec fn spec_dec_chars(n: nat) -> Seq<char>
    decreases n,
{
    if n < 10 {
        seq![spec_dec_digit_char(n as int)]
    } else {
        spec_dec_chars(n / 10) + seq![spec_dec_digit_char((n % 10) as int)]
    }
}

/// The decimal rendering of a signed value.
pub open spec fn spec_i64_dec_chars(n: int) -> Seq<char> {
    if n < 0 {
        "-"@ + spec_dec_chars((-n) as nat)
    } else {
        spec_dec_chars(n as nat)
    }
}

/// The display form of an amount: `0x`-prefixed hexadecimal, `0x0` for zero.
pub open spec fn spec_amount_chars(bytes: Seq<u8>) -> Seq<char> {
    if bytes.len() == 0 {
        "0x0"@
    } else {
        "0x"@ + spec_hex_chars(bytes)
    }
}

fn dec_digit_str(d: u64) -> (r: &'static str)
    requires
        d < 10,
    ensures
        r@ == seq![spec_dec_digit_char(d as int)],
{
    proof {
        reveal_strlit("0");
        reveal_strlit("1");
        reveal_strlit("2");
        reveal_strlit("3");
        reveal_strlit("4");
        reveal_strlit("5");
        reveal_strlit("6");
        reveal_strlit("7");
        reveal_strlit("8");
        reveal_strlit("9");
    }
    let r = if d == 0 { "0" } else if d == 1 { "1" } else if d == 2 { "2" } else if d == 3 { "3" }
    else if d == 4 { "4" } else if d == 5 { "5" } else if d == 6 { "6" } else if d == 7 { "7" }
    else if d == 8 { "8" } else { "9" };
    proof {
        assert(r@ =~= seq![spec_dec_digit_char(d as int)]);
    }
    r
}

/// Appends the decimal digits of `n`.
pub fn append_dec(out: &mut String, n: u64)
    ensures
        final(out)@ == old(out)@ + spec_dec_chars(n as nat),
    decreases n,
{
    if n < 10 {
        out.append(dec_digit_str(n));
    } else {
        proof {
            assert(n / 10 < n) by (nonlinear_arith)
                requires
                    n >= 10,
            ;
        }
        append_dec(out, n / 10);
        out.append(dec_digit_str(n % 10));
        proof {
            assert(old(out)@ + spec_dec_chars((n / 10) as nat) + seq![
                spec_dec_digit_char((n % 10) as int),
            ] =~= old(out)@ + spec_dec_chars(n as nat));
        }
    }
}

/// The decimal rendering of a signed JSON-RPC error code.
pub fn dec_string_i64(n: i64) -> (r: String)
    ensures
        r@ == spec_i64_dec_chars(n as int),
{
    if n < 0 {
        let mut out = String::from_str("-");
        let mag = (-(n as i128)) as u64;
        append_dec(&mut out, mag);
        out
    } else {
        let mut out = String::new();
        append_dec(&mut out, n as u64);
        proof {
            assert(out@ =~= spec_dec_chars(n as nat));
        }
        out
    }
}

/// The display form of an amount.
pub fn amount_string(a: &BigNum) -> (r: String)
    ensures
        r@ == spec_amount_chars(a.bytes@),
{
    if a.bytes.len() == 0 {
        String::from_str("0x0")
    } else {
        to_hex_prefixed(a.bytes.as_slice())
    }
}

/// The canonical display form of each error.
pub open spec fn spec_message(e: RelayError) -> Seq<char> {
    match e {
        RelayError::NotAuthorized => "not authorized"@,
        RelayError::NotInitialized => "state not initialized"@,
        RelayError::Paused => "service paused"@,
        RelayError::ConfigurationMissing { field } => "configuration missing: "@ + field@,
        RelayError::RelayerAddressMissing => "relayer address not configured"@,
        RelayError::AssetNotRegistered => "asset not registered"@,
        RelayError::AssetNotActive => "asset not active"@,
        RelayError::AuthorizationExpired => "authorization expired"@,
        RelayError::AuthorizationAlreadyUsed => "authorization already used"@,
        RelayError::InvalidAddressLength { field, expected, actual } => "invalid "@ + field@
            + " length: expected "@ + spec_dec_chars(expected as nat) + ", got "@ + spec_dec_chars(
            actual as nat,
        ),
        RelayError::InvalidNonceLength { expected, actual } => "invalid nonce length: expected "@
            + spec_dec_chars(expected as nat) + ", got "@ + spec_dec_chars(actual as nat),
        RelayError::InvalidSignatureLength { field, expected, actual } => "invalid "@ + field@
            + " length: expected "@ + spec_dec_chars(expected as nat) + ", got "@ + spec_dec_chars(
            actual as nat,
        ),
        RelayError::SignatureRecoveryFailed { message } => "signature recovery failed: "@
            + message@,
        RelayError::RpcError { code, message } => "rpc error "@ + spec_i64_dec_chars(code as int)
            + ": "@ + message@,
        RelayError::RpcTransportError { code, message } => "rpc transport error "@ + code@ + ": "@
            + message@,
        RelayError::RpcResultTypeMismatch { expected } => "unexpected rpc result type, expected "@
            + expected@,
        RelayError::HexDecodeFailed { value } => "failed to decode hex: "@ + value@,
        RelayError::NumberOutOfRange { field } => "number out of range: "@ + field@,
        RelayError::SimulationFailed { message } => "simulation failed: "@ + message@,
        RelayError::GasEstimateFailed { message } => "gas estimation failed: "@ + message@,
        RelayError::GasBalanceLow { required, actual } => "gas balance low: required "@
            + spec_amount_chars(required.bytes@) + ", actual "@ + spec_amount_chars(actual.bytes@),
        RelayError::RateLimited => "rate limit exceeded"@,
        RelayError::JsonError { message } => "json error: "@ + message@,
        RelayError::NotImplemented { feature } => "feature not implemented: "@ + feature@,
    }
}

impl RelayError {
    /// The canonical display form, exactly as `spec_message` states it.
    pub fn message(&self) -> (r: String)
        ensures
            r@ == spec_message(*self),
    {
        let r = match self {
            RelayError::NotAuthorized => String::from_str("not authorized"),
            RelayError::NotInitialized => String::from_str("state not initialized"),
            RelayError::Paused => String::from_str("service paused"),
            RelayError::ConfigurationMissing { field } => {
                let mut s = String::from_str("configuration missing: ");
                s.append(field.as_str());
                s
            },
            RelayError::RelayerAddressMissing => String::from_str("relayer address not configured"),
            RelayError::AssetNotRegistered => String::from_str("asset not registered"),
            RelayError::AssetNotActive => String::from_str("asset not active"),
            RelayError::AuthorizationExpired => String::from_str("authorization expired"),
            RelayError::AuthorizationAlreadyUsed => String::from_str(
                "authorization already used",
            ),
            RelayError::InvalidAddressLength { field, expected, actual } => {
                let mut s = String::from_str("invalid ");
                s.append(field.as_str());
                s.append(" length: expected ");
                append_dec(&mut s, *expected as u64);
                s.append(", got ");
                append_dec(&mut s, *actual as u64);
                s
            },
            RelayError::InvalidNonceLength { expected, actual } => {
                let mut s = String::from_str("invalid nonce length: expected ");
                append_dec(&mut s, *expected as u64);
                s.append(", got ");
                append_dec(&mut s, *actual as u64);
                s
            },
            RelayError::InvalidSignatureLength { field, expected, actual } => {
                let mut s = String::from_str("invalid ");
                s.append(field.as_str());
                s.append(" length: expected ");
                append_dec(&mut s, *expected as u64);
                s.append(", got ");
                append_dec(&mut s, *actual as u64);
                s
            },
            RelayError::SignatureRecoveryFailed { message } => {
                let mut s = String::from_str("signature recovery failed: ");
                s.append(message.as_str());
                s
            },
            RelayError::RpcError { code, message } => {
                let mut s = String::from_str("rpc error ");
                let c = dec_string_i64(*code);
                s.append(c.as_str());
                s.append(": ");
                s.append(message.as_str());
                s
            },
            RelayError::RpcTransportError { code, message } => {
                let mut s = String::from_str("rpc transport error ");
                s.append(code.as_str());
                s.append(": ");
                s.append(message.as_str());
                s
            },
            RelayError::RpcResultTypeMismatch { expected } => {
                let mut s = String::from_str("unexpected rpc result type, expected ");
                s.append(expected.as_str());
                s
            },
            RelayError::HexDecodeFailed { value } => {
                let mut s = String::from_str("failed to decode hex: ");
                s.append(value.as_str());
                s
            },
            RelayError::NumberOutOfRange { field } => {
                let mut s = String::from_str("number out of range: ");
                s.append(field.as_str());
                s
            },
            RelayError::SimulationFailed { message } => {
                let mut s = String::from_str("simulation failed: ");
                s.append(message.as_str());
                s
            },
            RelayError::GasEstimateFailed { message } => {
                let mut s = String::from_str("gas estimation failed: ");
                s.append(message.as_str());
                s
            },
            RelayError::GasBalanceLow { required, actual } => {
                let mut s = String::from_str("gas balance low: required ");
                let req = amount_string(required);
                s.append(req.as_str());
                s.append(", actual ");
                let act = amount_string(actual);
                s.append(act.as_str());
                s
            },
            RelayError::RateLimited => String::from_str("rate limit exceeded"),
            RelayError::JsonError { message } => {
                let mut s = String::from_str("json error: ");
                s.append(message.as_str());
                s
            },
            RelayError::NotImplemented { feature } => {
                let mut s = String::from_str("feature not implemented: ");
                s.append(feature.as_str());
                s
            },
        };
        proof {
            assert(r@ =~= spec_message(*self));
        }
        r
    }
}

} // verus!
