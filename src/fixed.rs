//! Fixed-point arithmetic: a value `v` stands for `v / ONE`.
use vstd::prelude::*;

verus! {

/// The fixed-point representation of `1`.
pub const ONE: i64 = 65536;

/// Division that rounds toward zero, as Rust's integer `/` does.
pub open spec fn quot(a: int, d: int) -> int {
    if a >= 0 {
        a / d
    } else {
        -((-a) / d)
    }
}

/// The magnitude of a quotient never exceeds that of the dividend.
pub proof fn lemma_quot_bound(a: int, d: int)
    requires
        d > 0,
    ensures
        -(if a >= 0 { a } else { -a }) <= quot(a, d) <= (if a >= 0 { a } else { -a }),
        a >= 0 ==> 0 <= quot(a, d),
        a <= 0 ==> quot(a, d) <= 0,
{
    if a >= 0 {
        assert(a / d <= a) by (nonlinear_arith)
            requires a >= 0, d > 0;
        assert(a / d >= 0) by (nonlinear_arith)
            requires a >= 0, d > 0;
    } else {
        assert((-a) / d <= -a) by (nonlinear_arith)
            requires -a >= 0, d > 0;
        assert((-a) / d >= 0) by (nonlinear_arith)
            requires -a >= 0, d > 0;
    }
}

/// `a / d`, rounded toward zero.
pub fn div_trunc(a: i128, d: i128) -> (q: i128)
    requires
        d > 0,
        a > i128::MIN,
    ensures
        q == quot(a as int, d as int),
{
    proof {
        lemma_quot_bound(a as int, d as int);
    }
    if a >= 0 {
        a / d
    } else {
        let n: i128 = -a;
        -(n / d)
    }
}

} // verus!
