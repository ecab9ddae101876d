//! Uniform draws of fixed-point values.
use vstd::prelude::*;

verus! {

/// Relies on rand::random: a value of `T` from the thread-local generator;
/// any value may come back.
pub assume_specification<T>[ rand::random::<T> ]() -> (r: T)
    where
        rand::distributions::Standard: rand::distributions::Distribution<T>,
;

/// Number of distinct values of a `u32` draw.
pub const DRAW_SPAN: u64 = 0x1_0000_0000;

/// The point of `[min, max)` at fraction `r / 2^32` of the way, rounded down.
pub open spec fn range_point(min: int, max: int, r: int) -> int {
    min + ((max - min) * r) / (DRAW_SPAN as int)
}

/// Maps a raw `u32` draw onto `[min, max)`; `max` itself only when `min == max`.
pub fn range_from_draw(min: i64, max: i64, r: u32) -> (v: i64)
    requires
        min <= max,
    ensures
        v == range_point(min as int, max as int, r as int),
        min <= v <= max,
        min < max ==> v < max,
{
    let span: i128 = max as i128 - min as i128;
    assert(0 <= span <= 0x1_0000_0000_0000_0000);
    assert(0 <= span * (r as i128) <= 0x1_0000_0000_0000_0000 * 0x1_0000_0000) by (nonlinear_arith)
        requires 0 <= span <= 0x1_0000_0000_0000_0000, 0 <= r <= 0x1_0000_0000;
    let scaled: i128 = span * (r as i128);
    let off: i128 = scaled / (DRAW_SPAN as i128);
    proof {
        let s = span as int;
        let ri = r as int;
        let d = DRAW_SPAN as int;
        assert(0 <= ri < d);
        assert(0 <= s * ri <= s * d) by (nonlinear_arith)
            requires 0 <= s, 0 <= ri < d;
        assert((s * ri) / d <= s) by (nonlinear_arith)
            requires 0 <= s, 0 <= ri < d, 0 <= s * ri <= s * d, d > 0;
        assert(s > 0 ==> (s * ri) / d < s) by (nonlinear_arith)
            requires 0 <= s, 0 <= ri < d, d > 0;
        assert(0 <= (s * ri) / d) by (nonlinear_arith)
            requires 0 <= s * ri, d > 0;
    }
    (min as i128 + off) as i64
}

/// A uniform draw from `[min, max)` (`min` itself when the range is empty).
pub fn rand_range(min: i64, max: i64) -> (v: i64)
    requires
        min <= max,
    ensures
        min <= v <= max,
        min < max ==> v < max,
{
    let r: u32 = rand::random::<u32>();
    range_from_draw(min, max, r)
}

} // verus!
