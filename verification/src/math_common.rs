use vstd::prelude::*;

use crate::errors::ContractError;

verus! {

/// One whole in basis points.
pub const BPS_DENOMINATOR: i128 = 10_000;

/// Whether a mathematical integer is representable as an `i128`.
pub open spec fn fits_i128(x: int) -> bool {
    i128::MIN <= x <= i128::MAX
}

/// Whether a mathematical integer is representable as a `u128`.
pub open spec fn fits_u128(x: int) -> bool {
    0 <= x <= u128::MAX
}

/// Integer division rounding toward zero, as Rust's `/` on signed integers.
pub open spec fn div_trunc(a: int, b: int) -> int {
    if a == 0 {
        0
    } else if a > 0 && b > 0 {
        a / b
    } else if a < 0 && b < 0 {
        (-a) / (-b)
    } else if a < 0 {
        -((-a) / b)
    } else {
        -(a / (-b))
    }
}

/// `a + b` clamped to the `i128` range.
pub open spec fn sat_add_i128(a: i128, b: i128) -> i128 {
    if a + b > i128::MAX {
        i128::MAX
    } else if a + b < i128::MIN {
        i128::MIN
    } else {
        (a + b) as i128
    }
}

/// `a - b` clamped to the `i128` range.
pub open spec fn sat_sub_i128(a: i128, b: i128) -> i128 {
    if a - b > i128::MAX {
        i128::MAX
    } else if a - b < i128::MIN {
        i128::MIN
    } else {
        (a - b) as i128
    }
}

/// `a * b` clamped to the `u128` range.
pub open spec fn sat_mul_u128(a: u128, b: u128) -> u128 {
    if a * b > u128::MAX {
        u128::MAX
    } else {
        (a * b) as u128
    }
}

/// `a + b` clamped to the `u128` range.
pub open spec fn sat_add_u128(a: u128, b: u128) -> u128 {
    if a + b > u128::MAX {
        u128::MAX
    } else {
        (a + b) as u128
    }
}

/// Checked addition of payout amounts.
pub open spec fn payout_add_spec(a: i128, b: i128) -> Result<i128, ContractError> {
    if fits_i128(a + b) {
        Ok((a + b) as i128)
    } else {
        Err(ContractError::PayoutOverflow)
    }
}

/// Checked multiplication of payout amounts.
pub open spec fn payout_mul_spec(a: i128, b: i128) -> Result<i128, ContractError> {
    if fits_i128(a * b) {
        Ok((a * b) as i128)
    } else {
        Err(ContractError::PayoutOverflow)
    }
}

/// Adds two payout amounts; overflow is reported as `PayoutOverflow`.
pub fn payout_add(a: i128, b: i128) -> (r: Result<i128, ContractError>)
    ensures
        r == payout_add_spec(a, b),
{
    match a.checked_add(b) {
        Some(v) => Ok(v),
        None => Err(ContractError::PayoutOverflow),
    }
}

/// Multiplies two payout amounts; overflow is reported as `PayoutOverflow`.
pub fn payout_mul(a: i128, b: i128) -> (r: Result<i128, ContractError>)
    ensures
        r == payout_mul_spec(a, b),
{
    match a.checked_mul(b) {
        Some(v) => Ok(v),
        None => Err(ContractError::PayoutOverflow),
    }
}

/// `i128` addition saturating at the bounds of the type.
pub fn saturating_add_i128(a: i128, b: i128) -> (r: i128)
    ensures
        r == sat_add_i128(a, b),
{
    match a.checked_add(b) {
        Some(v) => v,
        None => if b > 0 {
            i128::MAX
        } else {
            i128::MIN
        },
    }
}

/// `i128` subtraction saturating at the bounds of the type.
pub fn saturating_sub_i128(a: i128, b: i128) -> (r: i128)
    ensures
        r == sat_sub_i128(a, b),
{
    match a.checked_sub(b) {
        Some(v) => v,
        None => if b < 0 {
            i128::MAX
        } else {
            i128::MIN
        },
    }
}

/// `u128` multiplication saturating at `u128::MAX`.
pub fn saturating_mul_u128(a: u128, b: u128) -> (r: u128)
    ensures
        r == sat_mul_u128(a, b),
{
    match a.checked_mul(b) {
        Some(v) => v,
        None => u128::MAX,
    }
}

/// Signed division rounding toward zero; the one quotient that does not fit
/// (`i128::MIN / -1`) is excluded.
pub fn div_trunc_i128(a: i128, b: i128) -> (q: i128)
    requires
        b != 0,
        !(a == i128::MIN && b == -1),
    ensures
        q == div_trunc(a as int, b as int),
{
    if b > 0 {
        a / b
    } else if b == i128::MIN {
        if a == i128::MIN {
            1
        } else {
            0
        }
    } else if b == -1 {
        -a
    } else {
        let d: i128 = -b;
        let q = a / d;
        assert(q as int == div_trunc(a as int, d as int));
        assert(-(i128::MAX as int) <= q) by (nonlinear_arith)
            requires
                d >= 2,
                a >= i128::MIN,
                q as int == div_trunc(a as int, d as int),
        {}
        -q
    }
}

} // verus!
