//! Integer helpers.
use vstd::prelude::*;

verus! {

/// The distance of `v` from zero.
pub open spec fn magnitude(v: int) -> nat {
    if v >= 0 {
        v as nat
    } else {
        (-v) as nat
    }
}

/// The smaller of two numbers.
pub open spec fn lesser(a: int, b: int) -> int {
    if a <= b {
        a
    } else {
        b
    }
}

/// `n / d`, rounded up.
pub open spec fn ceil_div(n: int, d: int) -> int {
    (n + d - 1) / d
}

/// Whether `v` fits in an `i128`.
pub open spec fn fits_i128(v: int) -> bool {
    i128::MIN <= v <= i128::MAX
}

/// The distance of `v` from zero.
pub(crate) fn unsigned_abs(v: i128) -> (r: u128)
    ensures
        r == magnitude(v as int),
{
    if v >= 0 {
        v as u128
    } else {
        ((-1 - v) as u128) + 1
    }
}

/// The smaller of two numbers.
pub(crate) fn min_u128(a: u128, b: u128) -> (r: u128)
    ensures
        r == lesser(a as int, b as int),
{
    if a <= b {
        a
    } else {
        b
    }
}

/// The product, or the largest `u128` where the product is larger.
pub(crate) fn saturating_mul(a: u128, b: u128) -> (r: u128)
    ensures
        r == lesser(a * b, u128::MAX as int),
{
    match a.checked_mul(b) {
        Some(p) => p,
        None => u128::MAX,
    }
}

} // verus!
