//! 64.64 fixed-point arithmetic for the bonding curve. A number is carried as
//! its raw bits (an `i128` whose value is `bits / 2^64`); multiplication,
//! division and transcendental exponentiation are performed by the
//! `substrate_fixed` crate through trusted wrappers with bit-exact contracts,
//! while the remaining operations are verified here directly on the bits.

use vstd::prelude::*;

verus! {

/// The bits of the fixed-point number one: `2^64`.
pub const FIXED_ONE: i128 = 0x10000000000000000;

/// The bits of the fixed-point number one half: `2^63`.
pub const FIXED_HALF: i128 = 0x8000000000000000;

/// What `substrate_fixed::transcendental::pow` returns on the given operand
/// and exponent bits, named: the result depends on the arguments alone.
pub uninterp spec fn fixed_pow(base: i128, exp: i128) -> Option<i128>;

/// Relies on `substrate_fixed::FixedI128::<U64>::checked_mul`: the product's
/// bits are `floor(a * b / 2^64)`, or `None` when that does not fit.
#[verifier::external_body]
pub(crate) fn fx_checked_mul(a: i128, b: i128) -> (r: Option<i128>)
    ensures
        ({
            let p = (a as int) * (b as int) / (FIXED_ONE as int);
            if i128::MIN <= p <= i128::MAX {
                r == Some(p as i128)
            } else {
                r is None
            }
        }),
{
    substrate_fixed::types::I64F64::from_bits(a).checked_mul(
        substrate_fixed::types::I64F64::from_bits(b),
    ).map(|v| v.to_bits())
}

/// Relies on `substrate_fixed::FixedI128::<U64>::checked_div`: for a
/// non-negative dividend and positive divisor the quotient's bits are
/// `floor(a * 2^64 / b)`, or `None` when that does not fit; a zero divisor
/// gives `None`.
#[verifier::external_body]
pub(crate) fn fx_checked_div(a: i128, b: i128) -> (r: Option<i128>)
    ensures
        b == 0 ==> r is None,
        a >= 0 && b > 0 ==> ({
            let q = (a as int) * (FIXED_ONE as int) / (b as int);
            if q <= i128::MAX {
                r == Some(q as i128)
            } else {
                r is None
            }
        }),
{
    substrate_fixed::types::I64F64::from_bits(a).checked_div(
        substrate_fixed::types::I64F64::from_bits(b),
    ).map(|v| v.to_bits())
}

/// Relies on `substrate_fixed::transcendental::pow`: 64.64 fixed-point
/// exponentiation whose result depends on the two arguments alone.
#[verifier::external_body]
pub(crate) fn fx_pow(base: i128, exp: i128) -> (r: Option<i128>)
    ensures
        r == fixed_pow(base, exp),
{
    let res: Result<substrate_fixed::types::I64F64, ()> = substrate_fixed::transcendental::pow(
        substrate_fixed::types::I64F64::from_bits(base),
        substrate_fixed::types::I64F64::from_bits(exp),
    );
    match res {
        Ok(v) => Some(v.to_bits()),
        Err(()) => None,
    }
}

/// The bits of a whole number, when it fits the 64 integer bits.
pub open spec fn spec_from_u128(n: u128) -> Option<i128> {
    if n < 0x8000000000000000 {
        Some((n * FIXED_ONE) as i128)
    } else {
        None
    }
}

pub(crate) fn fx_from_u128(n: u128) -> (r: Option<i128>)
    ensures
        r == spec_from_u128(n),
        r is Some ==> r->Some_0 == (n as int) * (FIXED_ONE as int) && r->Some_0 >= 0,
        r is Some && n >= 1 ==> r->Some_0 >= FIXED_ONE,
{
    if n < 0x8000000000000000u128 {
        proof {
            assert((n as int) * (FIXED_ONE as int) < 0x80000000000000000000000000000000int
                && (n as int) * (FIXED_ONE as int) >= 0 && (n >= 1 ==> (n as int) * (
            FIXED_ONE as int) >= FIXED_ONE)) by (nonlinear_arith)
                requires
                    n < 0x8000000000000000u128,
            ;
        }
        Some((n as i128) * FIXED_ONE)
    } else {
        None
    }
}

/// Checked addition on bits.
pub(crate) fn fx_checked_add(a: i128, b: i128) -> (r: Option<i128>)
    ensures
        if i128::MIN <= a + b <= i128::MAX {
            r == Some((a + b) as i128)
        } else {
            r is None
        },
{
    if b >= 0 {
        if a > i128::MAX - b {
            None
        } else {
            Some(a + b)
        }
    } else {
        if a < i128::MIN - b {
            None
        } else {
            Some(a + b)
        }
    }
}

/// Checked subtraction on bits.
pub(crate) fn fx_checked_sub(a: i128, b: i128) -> (r: Option<i128>)
    ensures
        if i128::MIN <= a - b <= i128::MAX {
            r == Some((a - b) as i128)
        } else {
            r is None
        },
{
    if b >= 0 {
        if a < i128::MIN + b {
            None
        } else {
            Some(a - b)
        }
    } else {
        if a > i128::MAX + b {
            None
        } else {
            Some(a - b)
        }
    }
}

/// Rounding of non-negative bits to the nearest whole number, halves up.
pub open spec fn spec_round_nonneg(a: int) -> int
    recommends
        a >= 0,
{
    let f = a % (FIXED_ONE as int);
    if f >= FIXED_HALF {
        a - f + FIXED_ONE
    } else {
        a - f
    }
}

pub(crate) fn fx_round(a: i128) -> (r: Option<i128>)
    requires
        a >= 0,
    ensures
        if spec_round_nonneg(a as int) <= i128::MAX {
            r == Some(spec_round_nonneg(a as int) as i128)
        } else {
            r is None
        },
{
    let f = a % FIXED_ONE;
    let base = a - f;
    if f >= FIXED_HALF {
        if base > i128::MAX - FIXED_ONE {
            None
        } else {
            Some(base + FIXED_ONE)
        }
    } else {
        Some(base)
    }
}

/// Rounding of non-negative bits up to the next whole number.
pub open spec fn spec_ceil_nonneg(a: int) -> int
    recommends
        a >= 0,
{
    let f = a % (FIXED_ONE as int);
    if f == 0 {
        a
    } else {
        a - f + FIXED_ONE
    }
}

pub(crate) fn fx_ceil(a: i128) -> (r: Option<i128>)
    requires
        a >= 0,
    ensures
        if spec_ceil_nonneg(a as int) <= i128::MAX {
            r == Some(spec_ceil_nonneg(a as int) as i128)
        } else {
            r is None
        },
{
    let f = a % FIXED_ONE;
    if f == 0 {
        Some(a)
    } else {
        let base = a - f;
        if base > i128::MAX - FIXED_ONE {
            None
        } else {
            Some(base + FIXED_ONE)
        }
    }
}

/// The whole part of non-negative bits, as a `u128`; negative bits have no
/// `u128` value.
pub open spec fn spec_to_u128(a: i128) -> Option<u128> {
    if a < 0 {
        None
    } else {
        Some((a / FIXED_ONE) as u128)
    }
}

pub(crate) fn fx_to_u128(a: i128) -> (r: Option<u128>)
    ensures
        r == spec_to_u128(a),
{
    if a < 0 {
        None
    } else {
        Some((a / FIXED_ONE) as u128)
    }
}

} // verus!
