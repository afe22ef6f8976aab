//! Fee strategy: multiplier scaling with exact ceiling arithmetic, the
//! gas-limit floor, the priority-fee floor, and the max-fee sum.
//!
//! Multipliers are held in percent (`200` doubles, `120` adds a fifth),
//! so every scaling is exact integer arithmetic: `ceil(v · m / 100)`.

use vstd::prelude::*;
use crate::bignum::BigNum;
use crate::errors::RelayError;

verus! {

/// The least gas limit ever submitted.
pub const MIN_GAS_LIMIT: u64 = 50_000;

/// The factor applied to the gas estimate, in percent.
pub const GAS_LIMIT_SCALE_PERCENT: u32 = 120;

/// The floor applied to a vanished priority fee: one gwei.
pub const PRIORITY_FEE_FLOOR_WEI: u64 = 1_000_000_000;

/// `ceil(v · percent / 100)`.
pub open spec fn spec_scale_ceil(v: nat, percent: nat) -> nat {
    (v * percent + 99) / 100
}

/// Whether `v` can be scaled by `percent` within the machine path used:
/// the value must fit `u128`, and so must the product.
pub open spec fn spec_scalable(v: nat, percent: nat) -> bool {
    v <= u128::MAX && v * percent <= u128::MAX
}

/// Scales a value by a percentage, rounding up. Values whose `u128` path
/// would overflow are refused with `NumberOutOfRange`.
pub fn scale_ceil_percent(value: &BigNum, percent: u32) -> (r: Result<BigNum, RelayError>)
    requires
        value.wf(),
    ensures
        match r {
            Ok(out) => spec_scalable(value.value(), percent as nat) && out.wf() && out.value()
                == spec_scale_ceil(value.value(), percent as nat) && out.value() <= u128::MAX,
            Err(e) => !spec_scalable(value.value(), percent as nat) && (e
                matches RelayError::NumberOutOfRange { field } && (field@ == "u128"@ || field@
                == "scaled nat"@)),
        },
{
    let base = match value.to_u128() {
        Some(b) => b,
        None => {
            return Err(RelayError::NumberOutOfRange { field: String::from_str("u128") });
        },
    };
    if percent == 0 {
        proof {
            assert(value.value() * 0nat == 0nat) by (nonlinear_arith);
            assert(spec_scale_ceil(value.value(), 0) == 99nat / 100nat);
        }
        return Ok(BigNum::from_u128(0));
    }
    if base > u128::MAX / (percent as u128) {
        proof {
            assert(value.value() * percent > u128::MAX) by (nonlinear_arith)
                requires
                    value.value() > u128::MAX / (percent as u128),
                    percent >= 1,
                    value.value() <= u128::MAX,
            ;
        }
        return Err(RelayError::NumberOutOfRange { field: String::from_str("scaled nat") });
    }
    proof {
        assert(value.value() * percent <= u128::MAX) by (nonlinear_arith)
            requires
                value.value() <= u128::MAX / (percent as u128),
                percent >= 1,
        ;
    }
    let product = base * (percent as u128);
    let q = product / 100;
    let rem = product % 100;
    let scaled = if rem > 0 {
        q + 1
    } else {
        q
    };
    proof {
        vstd::arithmetic::div_mod::lemma_fundamental_div_mod(product as int, 100);
        assert(scaled == spec_scale_ceil(value.value(), percent as nat)) by (nonlinear_arith)
            requires
                product == value.value() * percent,
                q == product / 100,
                rem == product % 100,
                product == 100 * q + rem,
                0 <= rem < 100,
                scaled == if rem > 0 { q + 1int } else { q as int },
        ;
    }
    Ok(BigNum::from_u128(scaled))
}

/// The gas limit derived from an estimate: floor the estimate at 50 000,
/// scale by 1.2 rounding up, and never regress below the raw estimate.
pub open spec fn spec_gas_limit(estimate: nat) -> nat {
    let floored = if estimate < MIN_GAS_LIMIT as nat {
        MIN_GAS_LIMIT as nat
    } else {
        estimate
    };
    let scaled = spec_scale_ceil(floored, GAS_LIMIT_SCALE_PERCENT as nat);
    if scaled < estimate {
        estimate
    } else {
        scaled
    }
}

pub fn derive_gas_limit(gas_estimate: &BigNum) -> (r: Result<BigNum, RelayError>)
    requires
        gas_estimate.wf(),
    ensures
        match r {
            Ok(out) => out.wf() && out.value() == spec_gas_limit(gas_estimate.value())
                && out.value() <= u128::MAX,
            Err(e) => !spec_scalable(
                if gas_estimate.value() < MIN_GAS_LIMIT as nat {
                    MIN_GAS_LIMIT as nat
                } else {
                    gas_estimate.value()
                },
                GAS_LIMIT_SCALE_PERCENT as nat,
            ) && e matches RelayError::NumberOutOfRange { .. },
        },
{
    let minimum = BigNum::from_u64(MIN_GAS_LIMIT);
    let floored = if gas_estimate.lt(&minimum) {
        minimum
    } else {
        gas_estimate.clone_value()
    };
    let scaled = scale_ceil_percent(&floored, GAS_LIMIT_SCALE_PERCENT)?;
    if scaled.lt(gas_estimate) {
        Ok(gas_estimate.clone_value())
    } else {
        Ok(scaled)
    }
}

/// The effective priority fee: scale by the configured percentage rounding
/// up, never regress below the suggestion, and floor a zero result to one
/// gwei.
pub open spec fn spec_priority_fee(suggested: nat, percent: nat) -> nat {
    let scaled = spec_scale_ceil(suggested, percent);
    let kept = if scaled < suggested {
        suggested
    } else {
        scaled
    };
    if kept == 0 {
        PRIORITY_FEE_FLOOR_WEI as nat
    } else {
        kept
    }
}

pub fn derive_priority_fee(suggested: &BigNum, percent: u32) -> (r: Result<BigNum, RelayError>)
    requires
        suggested.wf(),
    ensures
        match r {
            Ok(out) => out.wf() && out.value() == spec_priority_fee(
                suggested.value(),
                percent as nat,
            ) && out.value() <= u128::MAX,
            Err(e) => !spec_scalable(suggested.value(), percent as nat) && e
                matches RelayError::NumberOutOfRange { .. },
        },
{
    let scaled = scale_ceil_percent(suggested, percent)?;
    let kept = if scaled.lt(suggested) {
        suggested.clone_value()
    } else {
        scaled
    };
    if kept.is_zero() {
        Ok(BigNum::from_u64(PRIORITY_FEE_FLOOR_WEI))
    } else {
        Ok(kept)
    }
}

/// The scaled base fee: scale by the configured percentage rounding up,
/// never regressing below the quoted base fee.
pub open spec fn spec_base_fee_scaled(base: nat, percent: nat) -> nat {
    let scaled = spec_scale_ceil(base, percent);
    if scaled < base {
        base
    } else {
        scaled
    }
}

pub fn derive_base_fee_scaled(base: &BigNum, percent: u32) -> (r: Result<BigNum, RelayError>)
    requires
        base.wf(),
    ensures
        match r {
            Ok(out) => out.wf() && out.value() == spec_base_fee_scaled(
                base.value(),
                percent as nat,
            ) && out.value() <= u128::MAX,
            Err(e) => !spec_scalable(base.value(), percent as nat) && e
                matches RelayError::NumberOutOfRange { .. },
        },
{
    let scaled = scale_ceil_percent(base, percent)?;
    if scaled.lt(base) {
        Ok(base.clone_value())
    } else {
        Ok(scaled)
    }
}

/// The fee cap of the transaction: scaled base fee plus effective
/// priority fee.
pub fn max_fee_per_gas(base_scaled: &BigNum, priority_effective: &BigNum) -> (r: BigNum)
    requires
        base_scaled.wf(),
        priority_effective.wf(),
    ensures
        r.wf(),
        r.value() == base_scaled.value() + priority_effective.value(),
{
    base_scaled.add_value(priority_effective)
}

} // verus!
