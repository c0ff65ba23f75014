//! Exact comparison of products too wide for machine integers.
//!
//! The outlier validation compares two products of `u128` values.  Each
//! product may need 256 bits, so it is computed as a pair of 128-bit
//! halves from 64-bit limbs, and the halves are compared
//! lexicographically.

use vstd::prelude::*;

verus! {

/// The limb base: `2^64`.
const LIMB: u128 = 0x1_0000_0000_0000_0000;

/// The full product `x * y` as `(high, low)` halves:
/// `x * y == high * 2^128 + low`.
fn mul_wide(x: u128, y: u128) -> (r: (u128, u128))
    ensures
        (x as int) * (y as int) == (r.0 as int) * 0x1_0000_0000_0000_0000_0000_0000_0000_0000
            + (r.1 as int),
{
    let x1 = x / LIMB;
    let x0 = x % LIMB;
    let y1 = y / LIMB;
    let y0 = y % LIMB;

    proof {
        assert(x1 < LIMB && x0 < LIMB && y1 < LIMB && y0 < LIMB);
        assert(x0 * y0 <= (LIMB - 1) * (LIMB - 1)) by (nonlinear_arith)
            requires
                0 <= x0 < LIMB,
                0 <= y0 < LIMB,
        ;
        assert(x0 * y1 <= (LIMB - 1) * (LIMB - 1)) by (nonlinear_arith)
            requires
                0 <= x0 < LIMB,
                0 <= y1 < LIMB,
        ;
        assert(x1 * y0 <= (LIMB - 1) * (LIMB - 1)) by (nonlinear_arith)
            requires
                0 <= x1 < LIMB,
                0 <= y0 < LIMB,
        ;
        assert(x1 * y1 <= (LIMB - 1) * (LIMB - 1)) by (nonlinear_arith)
            requires
                0 <= x1 < LIMB,
                0 <= y1 < LIMB,
        ;
    }

    let p00 = x0 * y0;
    let p01 = x0 * y1;
    let p10 = x1 * y0;
    let p11 = x1 * y1;

    let c0 = p00 / LIMB;
    let w0 = p00 % LIMB;
    let t1 = p01 + c0;
    let c1 = t1 / LIMB;
    let m1 = t1 % LIMB;
    let t2 = p10 + m1;
    let c2 = t2 / LIMB;
    let m2 = t2 % LIMB;

    let hi = p11 + c1 + c2;
    let lo = w0 + m2 * LIMB;

    proof {
        assert((x as int) * (y as int) == (p11 as int) * 0x1_0000_0000_0000_0000_0000_0000_0000_0000
            + (p01 as int) * (LIMB as int) + (p10 as int) * (LIMB as int) + (p00 as int))
            by (nonlinear_arith)
            requires
                x == x1 * LIMB + x0,
                y == y1 * LIMB + y0,
                p00 == x0 * y0,
                p01 == x0 * y1,
                p10 == x1 * y0,
                p11 == x1 * y1,
                LIMB == 0x1_0000_0000_0000_0000u128,
        ;
    }

    (hi, lo)
}

/// Whether `a * b < c * d`, computed exactly even where the products
/// exceed `u128`.
pub fn wide_prod_lt(a: u128, b: u128, c: u128, d: u128) -> (r: bool)
    ensures
        r == ((a as int) * (b as int) < (c as int) * (d as int)),
{
    let (h1, l1) = mul_wide(a, b);
    let (h2, l2) = mul_wide(c, d);
    h1 < h2 || (h1 == h2 && l1 < l2)
}

} // verus!
