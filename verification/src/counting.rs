//! Counts that stop at the largest number instead of wrapping.

use vstd::prelude::*;

verus! {

/// `n`, or the largest `u64` where `n` is larger.
pub open spec fn saturate(n: nat) -> u64 {
    if n <= u64::MAX {
        n as u64
    } else {
        u64::MAX
    }
}

/// The product of two counts.
pub fn saturating_product(a: u64, b: u64) -> (product: u64)
    ensures
        product == saturate((a * b) as nat),
        a * b <= u64::MAX ==> product == a * b,
        a * b > u64::MAX ==> product == u64::MAX,
{
    assert(a * b >= 0) by (nonlinear_arith);
    match a.checked_mul(b) {
        Some(product) => product,
        None => u64::MAX,
    }
}

/// A count that fits is kept, and any other stops at the largest number.
pub proof fn law_saturate(n: nat)
    ensures
        n <= 0xffff_ffff_ffff_ffff ==> saturate(n) == n,
        n > 0xffff_ffff_ffff_ffff ==> saturate(n) == 0xffff_ffff_ffff_ffff,
{
}

} // verus!
