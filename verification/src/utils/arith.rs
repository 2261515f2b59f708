//! Integer division that rounds down, and what follows from bounds on a
//! dividend.
use vstd::arithmetic::div_mod::{lemma_div_is_ordered, lemma_div_multiples_vanish};
use vstd::prelude::*;

verus! {

/// The quotient of `a` by a positive `b`, rounded down.
pub fn floor_div(a: i128, b: i128) -> (q: i128)
    requires
        b > 0,
    ensures
        q == a / b,
{
    if a >= 0 {
        a / b
    } else {
        let m: i128 = -(a + 1);
        let k: i128 = m / b;
        assert(a / b == -k - 1) by (nonlinear_arith)
            requires
                b > 0,
                a < 0,
                k == (-(a + 1)) / (b as int),
        ;
        -k - 1
    }
}

/// A dividend between `lo * c` and `hi * c` has a quotient by `c` between
/// `lo` and `hi`.
pub proof fn lemma_quotient_between(x: int, c: int, lo: int, hi: int)
    requires
        c > 0,
        lo * c <= x <= hi * c,
    ensures
        lo <= x / c <= hi,
{
    lemma_div_is_ordered(lo * c, x, c);
    lemma_div_is_ordered(x, hi * c, c);
    lemma_div_multiples_vanish(lo, c);
    lemma_div_multiples_vanish(hi, c);
    assert(lo * c == c * lo && hi * c == c * hi) by (nonlinear_arith);
}

/// A product of two bounded factors is bounded by the product of the bounds.
pub proof fn lemma_product_bound(a: int, b: int, limit_a: int, limit_b: int)
    requires
        0 <= a <= limit_a,
        -limit_b <= b <= limit_b,
    ensures
        -(limit_a * limit_b) <= a * b <= limit_a * limit_b,
{
    assert(-(limit_a * limit_b) <= a * b <= limit_a * limit_b) by (nonlinear_arith)
        requires
            0 <= a <= limit_a,
            -limit_b <= b <= limit_b,
    ;
}

} // verus!
