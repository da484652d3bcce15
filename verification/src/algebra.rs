//! Facts of integer arithmetic that the proofs about fractions rest on.

use vstd::prelude::*;

verus! {

/// A 64-bit numerator times a 64-bit denominator fits in 128 bits.
pub(crate) proof fn lemma_product_bounds(x: int, y: int)
    by (nonlinear_arith)
    requires
        -0x8000_0000_0000_0000 <= x <= 0x7fff_ffff_ffff_ffff,
        0 <= y <= 0xffff_ffff_ffff_ffff,
    ensures
        -0x8000_0000_0000_0000_0000_0000_0000_0000 < x * y < 0x7fff_ffff_ffff_ffff_ffff_ffff_ffff_ffff,
{
}

/// A product is zero where a factor is, and only there.
pub(crate) proof fn lemma_zero_product(x: int, y: int)
    by (nonlinear_arith)
    ensures
        x * y == 0 <==> x == 0 || y == 0,
{
}

/// A product of positive numbers is positive.
pub(crate) proof fn lemma_positive_product(x: int, y: int)
    by (nonlinear_arith)
    requires
        0 < x,
        0 < y,
    ensures
        0 < x * y,
{
}

/// Multiplying both sides of `x < y` by `m` keeps the order where `m` is
/// positive, turns it where `m` is negative, and levels it where `m` is zero.
pub(crate) proof fn lemma_scaled_order(x: int, y: int, m: int)
    by (nonlinear_arith)
    requires
        x < y,
    ensures
        0 < m ==> x * m < y * m,
        m < 0 ==> y * m < x * m,
        m == 0 ==> x * m == y * m,
{
}

/// A factor of a product is no further from zero than the product, where the
/// other factor is at least one.
pub(crate) proof fn lemma_factor_within(m: int, x: int, lo: int, hi: int)
    by (nonlinear_arith)
    requires
        m >= 1,
        lo <= 0 <= hi,
        lo <= m * x <= hi,
    ensures
        lo <= x <= hi,
{
}

/// Multiplication distributes over a sum.
pub(crate) proof fn lemma_distributes(b: int, p: int, q: int)
    by (nonlinear_arith)
    ensures
        b * p + b * q == b * (p + q),
        p * b + q * b == (p + q) * b,
{
}

/// A product of three factors, grouped and ordered as the proofs meet it.
pub(crate) proof fn lemma_regroup_three(x: int, y: int, z: int)
    by (nonlinear_arith)
    ensures
        (x * y) * z == z * (y * x),
        x * (y * z) == (y * x) * z,
        (x * y) * z == (y * x) * z,
{
}

/// A product of four factors, grouped and ordered as the proofs meet it.
pub(crate) proof fn lemma_regroup_four(a: int, b: int, d: int, n: int)
    by (nonlinear_arith)
    ensures
        a * ((d * b) * n) == b * ((a * d) * n),
        ((a * d) * n) * b == a * ((b * d) * n),
        (n * (a * b)) * d == a * ((b * d) * n),
{
}

} // verus!
