//! The grid of flow angles that steers the particles.
use vstd::prelude::*;
use crate::fixed::{div_trunc, quot, ONE};

verus! {

/// Largest magnitude a flow angle can take: `(1 + 1) * |i32::MIN|`.
pub const ANGLE_LIMIT: i64 = 0x1_0000_0000;

/// The flow angle for a noise sample `s` (nominally in `[-ONE, ONE]`):
/// `(s + 1) * multiplier`.
pub open spec fn angle_spec(s: int, multiplier: int) -> int {
    quot((s + ONE) * multiplier, ONE as int)
}

/// The grid's angles after a resample from `samples`.
pub open spec fn resampled_spec(samples: Seq<i64>, multiplier: int) -> Seq<i64> {
    samples.map_values(|s: i64| angle_spec(s as int, multiplier) as i64)
}

/// The grid cell along one axis of `n` cells for a coordinate `c` of
/// `[-ONE, ONE]`: `floor((c + 1) / 2 * n)`, clamped to the last cell so that
/// `c == ONE` stays on the grid.
pub open spec fn cell_coord_spec(c: int, n: int) -> int {
    let k = ((c + ONE) * n) / (2 * ONE);
    if k >= n { n - 1 } else { k }
}

/// The flat index `cx + cy * width` of the cell under `(x, y)`.
pub open spec fn cell_spec(x: int, y: int, width: int, height: int) -> int {
    cell_coord_spec(x, width) + cell_coord_spec(y, height) * width
}

/// A `width` by `height` grid of flow angles, indexed `x + y * width`.
pub struct FlowGrid {
    pub width: usize,
    pub height: usize,
    pub angles: Vec<i64>,
}

/// The grid cell along an axis of `n` cells.
pub fn cell_coord(c: i64, n: usize) -> (k: usize)
    requires
        -ONE <= c <= ONE,
        n > 0,
    ensures
        k == cell_coord_spec(c as int, n as int),
        k < n,
{
    let off: u128 = (c as i128 + ONE as i128) as u128;
    assert(off * (n as u128) <= 0x2_0000u128 * 0x1_0000_0000_0000_0000u128) by (nonlinear_arith)
        requires off <= 0x2_0000u128, n <= 0x1_0000_0000_0000_0000u128;
    let k: u128 = (off * (n as u128)) / (2 * ONE as u128);
    assert(k <= n) by (nonlinear_arith)
        requires k as int == (off as int * n as int) / 0x2_0000int, off <= 0x2_0000u128;
    if k >= n as u128 {
        n - 1
    } else {
        k as usize
    }
}

impl FlowGrid {
    /// The grid's own invariant: positive sizes, one angle per cell, and
    /// every angle within `ANGLE_LIMIT`.
    pub open spec fn wf(&self) -> bool {
        &&& self.width > 0
        &&& self.height > 0
        &&& self.angles@.len() == self.width * self.height
        &&& forall|i: int| 0 <= i < self.angles@.len() ==> -ANGLE_LIMIT <= #[trigger] self.angles@[i] <= ANGLE_LIMIT
    }

    /// A grid whose angles are all zero.
    pub fn new(width: usize, height: usize) -> (g: FlowGrid)
        requires
            width > 0,
            height > 0,
            width * height <= usize::MAX,
        ensures
            g.wf(),
            g.width == width,
            g.height == height,
            forall|i: int| 0 <= i < g.angles@.len() ==> #[trigger] g.angles@[i] == 0,
    {
        let n: usize = width * height;
        let mut angles: Vec<i64> = Vec::new();
        while angles.len() < n
            invariant
                angles@.len() <= n,
                forall|i: int| 0 <= i < angles@.len() ==> #[trigger] angles@[i] == 0,
            decreases n - angles@.len(),
        {
            angles.push(0);
        }
        FlowGrid { width, height, angles }
    }

    /// Overwrites every cell with the flow angle of its noise sample:
    /// `angles[i] = (samples[i] + 1) * multiplier`.
    pub fn resample(&mut self, samples: &Vec<i64>, multiplier: i32)
        requires
            old(self).wf(),
            samples@.len() == old(self).angles@.len(),
            forall|i: int| 0 <= i < samples@.len() ==> -ONE <= #[trigger] samples@[i] <= ONE,
        ensures
            final(self).wf(),
            final(self).width == old(self).width,
            final(self).height == old(self).height,
            final(self).angles@ == resampled_spec(samples@, multiplier as int),
    {
        let n: usize = samples.len();
        let mut i: usize = 0;
        while i < n
            invariant
                self.wf(),
                self.width == old(self).width,
                self.height == old(self).height,
                n == samples@.len(),
                n == self.angles@.len(),
                i <= n,
                forall|j: int| 0 <= j < samples@.len() ==> -ONE <= #[trigger] samples@[j] <= ONE,
                forall|j: int| 0 <= j < i ==> #[trigger] self.angles@[j] == angle_spec(samples@[j] as int, multiplier as int),
            decreases n - i,
        {
            let s: i64 = samples[i];
            proof {
                let a = (s + ONE) as int;
                let m = multiplier as int;
                assert(-0x2_0000 * 0x8000_0000 <= a * m <= 0x2_0000 * 0x8000_0000) by (nonlinear_arith)
                    requires 0 <= a <= 0x2_0000, -0x8000_0000 <= m <= 0x8000_0000;
                crate::fixed::lemma_quot_bound(a * m, ONE as int);
                if a * m >= 0 {
                    assert((a * m) / 0x1_0000 <= 0x1_0000_0000) by (nonlinear_arith)
                        requires 0 <= a * m <= 0x2_0000 * 0x8000_0000;
                } else {
                    assert((-(a * m)) / 0x1_0000 <= 0x1_0000_0000) by (nonlinear_arith)
                        requires 0 <= -(a * m) <= 0x2_0000 * 0x8000_0000;
                }
            }
            let prod: i128 = (s as i128 + ONE as i128) * (multiplier as i128);
            let angle: i128 = div_trunc(prod, ONE as i128);
            self.angles.set(i, angle as i64);
            i = i + 1;
        }
        assert(self.angles@ =~= resampled_spec(samples@, multiplier as int));
    }

    /// The flat index of the cell under `(x, y)`, a point of the closed square.
    pub fn cell_index(&self, x: i64, y: i64) -> (i: usize)
        requires
            self.wf(),
            -ONE <= x <= ONE,
            -ONE <= y <= ONE,
        ensures
            i == cell_spec(x as int, y as int, self.width as int, self.height as int),
            i < self.angles@.len(),
    {
        let n: usize = self.angles.len();
        let cx: usize = cell_coord(x, self.width);
        let cy: usize = cell_coord(y, self.height);
        let w: usize = self.width;
        let h: usize = self.height;
        assert(cx + cy * w <= (w - 1) + (h - 1) * w) by (nonlinear_arith)
            requires cx <= w - 1, cy <= h - 1, w > 0;
        assert((w - 1) + (h - 1) * w == w * h - 1) by (nonlinear_arith);
        assert(cy * w <= (h - 1) * w) by (nonlinear_arith)
            requires cy <= h - 1, w > 0;
        assert(cy * w + cx < n);
        cx + cy * w
    }
}

/// Resampling is a pure function of the samples and the multiplier: two
/// grids of the same size, whatever they held before, hold the same angles
/// after resampling from the same samples.
pub proof fn lemma_resample_deterministic(
    before_a: FlowGrid,
    after_a: FlowGrid,
    before_b: FlowGrid,
    after_b: FlowGrid,
    samples: Seq<i64>,
    multiplier: int,
)
    requires
        before_a.width == before_b.width,
        before_a.height == before_b.height,
        after_a.width == before_a.width,
        after_a.height == before_a.height,
        after_b.width == before_b.width,
        after_b.height == before_b.height,
        after_a.angles@ == resampled_spec(samples, multiplier),
        after_b.angles@ == resampled_spec(samples, multiplier),
    ensures
        after_a.width == after_b.width,
        after_a.height == after_b.height,
        after_a.angles@ == after_b.angles@,
{
}

} // verus!
