//! Two-component fixed-point vectors.
use vstd::prelude::*;
use crate::fixed::quot;

verus! {

/// A 2D vector of fixed-point components.
#[derive(Clone, Copy, Debug, PartialEq, Eq, Structural)]
pub struct Vec2 {
    pub x: i64,
    pub y: i64,
}

/// The squared length of `(x, y)`.
pub open spec fn len_sq(x: int, y: int) -> int {
    x * x + y * y
}

/// One component after the magnitude rescaling: `c * mag^2 / |v|^2`,
/// rounded toward zero.
pub open spec fn scaled_component(c: int, x: int, y: int, mag: int) -> int {
    quot(c * (mag * mag), len_sq(x, y))
}

/// The magnitude rescaling: the zero vector stays as it is; any other vector
/// is multiplied by `mag^2 / |v|^2`. This is a quadratic correction toward
/// `mag`, not a normalisation: `(3, 4)` with `mag == 10` becomes `(12, 16)`.
pub open spec fn set_mag_spec(v: Vec2, mag: int) -> Vec2 {
    if v.x == 0 && v.y == 0 {
        v
    } else {
        Vec2 {
            x: scaled_component(v.x as int, v.x as int, v.y as int, mag) as i64,
            y: scaled_component(v.y as int, v.x as int, v.y as int, mag) as i64,
        }
    }
}

/// The absolute value of `c`.
pub open spec fn abs(c: int) -> int {
    if c >= 0 { c } else { -c }
}

/// `|c| * mag^2 / |v|^2` never exceeds `mag^2` when `|c| <= |v|^2`.
proof fn lemma_scaled_bound(ac: int, den: int, m2: int)
    requires
        0 <= ac <= den,
        den > 0,
        m2 >= 0,
    ensures
        0 <= (ac * m2) / den <= m2,
{
    assert(ac * m2 <= den * m2) by (nonlinear_arith)
        requires 0 <= ac <= den, m2 >= 0;
    assert((ac * m2) / den <= m2) by (nonlinear_arith)
        requires ac * m2 <= den * m2, den > 0, ac >= 0, m2 >= 0;
    assert(0 <= (ac * m2) / den) by (nonlinear_arith)
        requires ac >= 0, m2 >= 0, den > 0;
}

/// `|c|` as a `u128`.
fn abs_wide(c: i64) -> (r: u128)
    ensures
        r == abs(c as int),
{
    if c >= 0 {
        c as u128
    } else {
        (-(c as i128)) as u128
    }
}

/// One rescaled component, from `|c|`, the sign of `c`, `|v|^2` and `mag^2`.
fn scale_component(c: i64, ac: u128, den: u128, m2: u128) -> (r: i64)
    requires
        ac == abs(c as int),
        den > 0,
        ac <= den,
        m2 <= 0x4000_0000_0000_0000,
    ensures
        r == quot(c * m2, den as int),
        abs(r as int) <= m2,
{
    assert(ac * m2 <= 0x8000_0000_0000_0000u128 * 0x4000_0000_0000_0000u128) by (nonlinear_arith)
        requires ac <= 0x8000_0000_0000_0000u128, m2 <= 0x4000_0000_0000_0000u128;
    let q: u128 = (ac * m2) / den;
    proof {
        lemma_scaled_bound(ac as int, den as int, m2 as int);
        if c >= 0 {
            assert(c * m2 == ac * m2);
            assert(c * m2 >= 0) by (nonlinear_arith) requires c >= 0, m2 >= 0;
        } else {
            assert(c * m2 == -(ac * m2)) by (nonlinear_arith) requires ac == -c;
            if m2 == 0 {
                assert(c * m2 == 0);
            } else {
                assert(c * m2 < 0) by (nonlinear_arith) requires c < 0, m2 > 0;
            }
        }
    }
    if c >= 0 {
        q as i64
    } else {
        -(q as i64)
    }
}

impl Vec2 {
    /// The zero vector.
    pub fn zero() -> (v: Vec2)
        ensures
            v.x == 0 && v.y == 0,
    {
        Vec2 { x: 0, y: 0 }
    }

    /// Rescales the vector by `mag^2 / |v|^2`, leaving the zero vector as it is.
    pub fn set_mag(&mut self, mag: i32)
        ensures
            *final(self) == set_mag_spec(*old(self), mag as int),
            old(self).x == 0 && old(self).y == 0 ==> *final(self) == *old(self),
            abs(final(self).x as int) <= mag * mag,
            abs(final(self).y as int) <= mag * mag,
    {
        assert(mag * mag >= 0) by (nonlinear_arith);
        if self.x == 0 && self.y == 0 {
            return;
        }
        let ax: u128 = abs_wide(self.x);
        let ay: u128 = abs_wide(self.y);
        assert(ax * ax <= 0x4000_0000_0000_0000_0000_0000_0000_0000u128) by (nonlinear_arith)
            requires ax <= 0x8000_0000_0000_0000u128;
        assert(ay * ay <= 0x4000_0000_0000_0000_0000_0000_0000_0000u128) by (nonlinear_arith)
            requires ay <= 0x8000_0000_0000_0000u128;
        let den: u128 = ax * ax + ay * ay;
        let am: u128 = if mag >= 0 { mag as u128 } else { (-(mag as i64)) as u128 };
        assert(am * am <= 0x4000_0000_0000_0000u128) by (nonlinear_arith)
            requires am <= 0x8000_0000u128;
        let m2: u128 = am * am;
        proof {
            assert(m2 == mag * mag) by (nonlinear_arith)
                requires am == abs(mag as int), m2 == am * am;
            assert(den == len_sq(self.x as int, self.y as int)) by (nonlinear_arith)
                requires ax == abs(self.x as int), ay == abs(self.y as int), den == ax * ax + ay * ay;
            assert(ax <= ax * ax) by (nonlinear_arith) requires ax >= 0, ax != 1 ==> ax == 0 || ax >= 2;
            assert(ay <= ay * ay) by (nonlinear_arith) requires ay >= 0, ay != 1 ==> ay == 0 || ay >= 2;
            assert(ax > 0 || ay > 0);
            assert(ax * ax > 0 || ay * ay > 0) by (nonlinear_arith) requires ax > 0 || ay > 0;
            assert((ay * ay) >= 0) by (nonlinear_arith);
            assert((ax * ax) >= 0) by (nonlinear_arith);
        }
        let nx: i64 = scale_component(self.x, ax, den, m2);
        let ny: i64 = scale_component(self.y, ay, den, m2);
        self.x = nx;
        self.y = ny;
    }
}

} // verus!
