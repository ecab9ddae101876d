//! Particles: a position, a render half-extent and a velocity.
use vstd::prelude::*;
use crate::draw::rand_range;
use crate::fixed::{div_trunc, quot, ONE};
use crate::vec2::Vec2;

verus! {

/// One coordinate after the boundary wrap: below `-ONE` it snaps to `ONE`,
/// above `ONE` to `-ONE`; the wrap is a snap to the far edge, not modular.
pub open spec fn wrap_spec(c: int) -> int {
    if c < -ONE {
        ONE as int
    } else if c > ONE {
        -ONE
    } else {
        c
    }
}

/// The wrap leaves every coordinate inside the closed square `[-ONE, ONE]`.
pub proof fn lemma_wrap_in_bounds(c: int)
    ensures
        -ONE <= wrap_spec(c) <= ONE,
        -ONE <= c <= ONE ==> wrap_spec(c) == c,
{
}

/// Wraps one coordinate back into `[-ONE, ONE]`.
pub fn wrap_coord(c: i64) -> (r: i64)
    ensures
        r == wrap_spec(c as int),
        -ONE <= r <= ONE,
{
    let mut r: i64 = c;
    if r < -ONE {
        r = ONE;
    }
    if r > ONE {
        r = -ONE;
    }
    r
}

/// The half-extent that makes a rectangle about one pixel wide on a window
/// side of `size` pixels: `2 / size`.
pub open spec fn half_extent_spec(size: int) -> int {
    (2 * ONE) / size
}

/// The half-extent for a window side of `size` pixels.
pub fn half_extent(size: u32) -> (r: i64)
    requires
        size > 0,
    ensures
        r == half_extent_spec(size as int),
        0 <= r <= 2 * ONE,
{
    (2 * ONE) / (size as i64)
}

/// An RGBA colour with fixed-point channels.
#[derive(Clone, Copy, Debug, PartialEq, Eq, Structural)]
pub struct Color {
    pub r: i64,
    pub g: i64,
    pub b: i64,
    pub a: i64,
}

/// The colour of a particle at `(x, y)`: red grows with `x`, green with `y`,
/// blue falls with `x`, each scaled by `1/20`; alpha is opaque.
/// In real numbers: `((x+1)/2 * 0.05, (y+1)/2 * 0.05, (1-(x+1)/2) * 0.05, 1)`.
pub open spec fn color_spec(x: int, y: int) -> Color {
    Color {
        r: quot(x + ONE, 40) as i64,
        g: quot(y + ONE, 40) as i64,
        b: quot(ONE - x, 40) as i64,
        a: ONE,
    }
}

/// A particle: centre `(x, y)`, rectangle half-extents and velocity.
#[derive(Clone, Copy, Debug, PartialEq, Eq, Structural)]
pub struct Particle {
    pub x: i64,
    pub y: i64,
    pub half_w: i64,
    pub half_h: i64,
    pub vel: Vec2,
}

/// A freshly placed particle at `pos`, at rest, sized for a `win_w` by
/// `win_h` window.
pub open spec fn fresh_spec(pos: Vec2, win_w: int, win_h: int) -> Particle {
    Particle {
        x: pos.x,
        y: pos.y,
        half_w: half_extent_spec(win_w) as i64,
        half_h: half_extent_spec(win_h) as i64,
        vel: Vec2 { x: 0, y: 0 },
    }
}

impl Particle {
    /// A particle at rest at `pos`.
    pub fn at(pos: Vec2, win_w: u32, win_h: u32) -> (p: Particle)
        requires
            win_w > 0,
            win_h > 0,
        ensures
            p == fresh_spec(pos, win_w as int, win_h as int),
    {
        Particle {
            x: pos.x,
            y: pos.y,
            half_w: half_extent(win_w),
            half_h: half_extent(win_h),
            vel: Vec2::zero(),
        }
    }

    /// A particle at rest at a random position of the square.
    pub fn new(win_w: u32, win_h: u32) -> (p: Particle)
        requires
            win_w > 0,
            win_h > 0,
        ensures
            p == fresh_spec(Vec2 { x: p.x, y: p.y }, win_w as int, win_h as int),
            -ONE <= p.x < ONE,
            -ONE <= p.y < ONE,
    {
        let x: i64 = rand_range(-ONE, ONE);
        let y: i64 = rand_range(-ONE, ONE);
        Particle::at(Vec2 { x, y }, win_w, win_h)
    }

    /// Snaps each coordinate that left the square to the opposite edge.
    pub fn wrap(&mut self)
        ensures
            final(self).x == wrap_spec(old(self).x as int),
            final(self).y == wrap_spec(old(self).y as int),
            final(self).half_w == old(self).half_w,
            final(self).half_h == old(self).half_h,
            final(self).vel == old(self).vel,
    {
        self.x = wrap_coord(self.x);
        self.y = wrap_coord(self.y);
    }

    /// The colour the particle is drawn in, from its position alone.
    pub fn color(&self) -> (c: Color)
        ensures
            c == color_spec(self.x as int, self.y as int),
    {
        proof {
            crate::fixed::lemma_quot_bound(self.x + ONE, 40);
            crate::fixed::lemma_quot_bound(self.y + ONE, 40);
            crate::fixed::lemma_quot_bound(ONE - self.x, 40);
        }
        let r: i128 = div_trunc(self.x as i128 + ONE as i128, 40);
        let g: i128 = div_trunc(self.y as i128 + ONE as i128, 40);
        let b: i128 = div_trunc(ONE as i128 - self.x as i128, 40);
        Color { r: r as i64, g: g as i64, b: b as i64, a: ONE }
    }
}

} // verus!
