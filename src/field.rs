//! The flow field: a grid of flow angles and the particles it steers.
use vstd::prelude::*;
use crate::draw::rand_range;
use crate::fixed::{div_trunc, quot, ONE};
use crate::grid::{cell_spec, FlowGrid, ANGLE_LIMIT};
use crate::particle::{fresh_spec, wrap_spec, Particle};
use crate::vec2::{abs, set_mag_spec, Vec2};

verus! {

/// Largest velocity component a particle can hold: `|i32::MIN|^2`, the
/// bound of a rescaled velocity.
pub const VEL_LIMIT: i64 = 0x4000_0000_0000_0000;

/// Largest position component a particle can reach: a wrapped coordinate
/// moved by at most `VEL_LIMIT`.
pub const POS_LIMIT: i64 = 0x4000_0000_0001_0000;

/// How a particle's flow angle moves it.
#[derive(Clone, Copy, Debug, PartialEq, Eq, Structural)]
pub enum Motion {
    /// The position moves by `(cos(angle * ts), sin(angle * ts)) / 10`; the
    /// velocity is not used.
    Direct,
    /// The velocity grows by `(cos(angle), sin(angle)) * ts / 10`, is
    /// rescaled toward the target speed, and then moves the position.
    Eased,
}

/// Per-axis noise increments, fixed-point.
#[derive(Clone, Copy, Debug, PartialEq, Eq, Structural)]
pub struct Increment {
    pub x: i32,
    pub y: i32,
    pub z: i32,
}

/// The settings of a flow field, fixed-point where fractional.
#[derive(Clone, Copy, Debug, PartialEq, Eq, Structural)]
pub struct Config {
    /// Noise-space step between neighbouring cells (`x`, `y`) and per unit
    /// of time (`z`).
    pub increment: Increment,
    /// Scale from a shifted noise sample in `[0, 2]` to a flow angle.
    pub multiplier: i32,
    /// Target speed in pixels per tick (eased motion).
    pub speed: i32,
    /// Particles recycled per update.
    pub n_new_particles: usize,
    /// The time step to use in place of the frame time, if any.
    pub fixed_time_step: Option<i32>,
    /// How flow angles move the particles.
    pub motion: Motion,
}

/// A point of noise space, fixed-point.
#[derive(Clone, Copy, Debug, PartialEq, Eq, Structural)]
pub struct SamplePoint {
    pub x: i64,
    pub y: i64,
    pub z: i64,
}

/// The noise-space point of cell `(cx, cy)` at depth `depth`.
pub open spec fn sample_point_spec(cx: int, cy: int, inc: Increment, depth: i64) -> SamplePoint {
    SamplePoint { x: (cx * inc.x) as i64, y: (cy * inc.y) as i64, z: depth }
}

/// The tick scale: the fixed time step when one is set, else the frame time.
pub open spec fn time_step_spec(fixed: Option<i32>, dt: i32) -> i32 {
    match fixed {
        Some(t) => t,
        None => dt,
    }
}

/// The angle whose cosine and sine steer a particle in a cell of flow angle
/// `angle`: `angle * ts` for direct motion, `angle` itself for eased motion.
pub open spec fn steer_angle_spec(angle: int, ts: int, motion: Motion) -> int {
    match motion {
        Motion::Direct => quot(angle * ts, ONE as int),
        Motion::Eased => angle,
    }
}

/// The target speed in square units per tick: `speed / win_h`.
pub open spec fn target_mag_spec(speed: int, win_h: int) -> int {
    quot(speed, win_h)
}

/// A particle after one motion step, with `steer` the cosine and sine of its
/// cell's steering angle and `(x, y)` its wrapped position.
pub open spec fn moved_spec(p: Particle, x: int, y: int, steer: Vec2, ts: int, mag: int, motion: Motion) -> Particle {
    match motion {
        Motion::Direct => Particle {
            x: (x + quot(steer.x as int, 10)) as i64,
            y: (y + quot(steer.y as int, 10)) as i64,
            ..p
        },
        Motion::Eased => {
            let pushed = Vec2 {
                x: (p.vel.x + quot(steer.x * ts, 10 * ONE)) as i64,
                y: (p.vel.y + quot(steer.y * ts, 10 * ONE)) as i64,
            };
            let v = set_mag_spec(pushed, mag);
            Particle { x: (x + v.x) as i64, y: (y + v.y) as i64, vel: v, ..p }
        },
    }
}

/// One particle's whole step: wrap into the square, read the steering of the
/// cell under it, move.
pub open spec fn step_spec(
    p: Particle,
    width: int,
    height: int,
    steer: Seq<Vec2>,
    ts: int,
    mag: int,
    motion: Motion,
) -> Particle {
    let x = wrap_spec(p.x as int);
    let y = wrap_spec(p.y as int);
    moved_spec(p, x, y, steer[cell_spec(x, y, width, height)], ts, mag, motion)
}

/// The particles after recycling `spawns` in turn into the slots from
/// `start` on, cyclically.
pub open spec fn recycle_spec(ps: Seq<Particle>, start: int, spawns: Seq<Vec2>, win_w: int, win_h: int) -> Seq<Particle>
    decreases spawns.len(),
{
    if spawns.len() == 0 {
        ps
    } else {
        let n = spawns.len() - 1;
        recycle_spec(ps, start, spawns.take(n), win_w, win_h).update(
            (start + n) % (ps.len() as int),
            fresh_spec(spawns[n], win_w, win_h),
        )
    }
}

/// The depth after a step: `depth + ts * increment.z`, held at the ends of
/// the `i64` range.
pub open spec fn next_depth_spec(depth: int, ts: int, inc_z: int) -> int {
    let d = depth + quot(ts * inc_z, ONE as int);
    if d > i64::MAX { i64::MAX as int } else if d < i64::MIN { i64::MIN as int } else { d }
}

/// Whether a particle's coordinates and velocity are within the limits the
/// motion step keeps.
pub open spec fn bounded(p: Particle) -> bool {
    &&& abs(p.x as int) <= POS_LIMIT
    &&& abs(p.y as int) <= POS_LIMIT
    &&& abs(p.vel.x as int) <= VEL_LIMIT
    &&& abs(p.vel.y as int) <= VEL_LIMIT
}

/// A flow field: the angle grid, the particles, the cyclic recycle index and
/// the noise depth.
pub struct FlowField {
    pub grid: FlowGrid,
    pub particles: Vec<Particle>,
    pub index: usize,
    pub depth: i64,
    pub config: Config,
}

impl FlowField {
    /// The field's invariant.
    pub open spec fn wf(&self) -> bool {
        &&& self.grid.wf()
        &&& self.grid.width <= u32::MAX
        &&& self.grid.height <= u32::MAX
        &&& (if self.particles@.len() == 0 { self.index == 0 } else { self.index < self.particles@.len() })
        &&& (self.config.n_new_particles > 0 ==> self.particles@.len() > 0)
        &&& forall|i: int| 0 <= i < self.particles@.len() ==> bounded(#[trigger] self.particles@[i])
    }

    /// A field whose particles start at rest at `positions`, with a zeroed
    /// angle grid of `noise_width` by `noise_height` cells at depth zero.
    pub fn with_positions(
        win_w: u32,
        win_h: u32,
        noise_width: u32,
        noise_height: u32,
        positions: &Vec<Vec2>,
        config: Config,
    ) -> (f: FlowField)
        requires
            win_w > 0,
            win_h > 0,
            noise_width > 0,
            noise_height > 0,
            noise_width * noise_height <= usize::MAX,
            config.n_new_particles > 0 ==> positions@.len() > 0,
            forall|i: int| 0 <= i < positions@.len() ==>
                -ONE <= (#[trigger] positions@[i]).x <= ONE && -ONE <= positions@[i].y <= ONE,
        ensures
            f.wf(),
            f.grid.width == noise_width,
            f.grid.height == noise_height,
            forall|i: int| 0 <= i < f.grid.angles@.len() ==> #[trigger] f.grid.angles@[i] == 0,
            f.particles@ == positions@.map_values(|p: Vec2| fresh_spec(p, win_w as int, win_h as int)),
            f.index == 0,
            f.depth == 0,
            f.config == config,
    {
        let grid: FlowGrid = FlowGrid::new(noise_width as usize, noise_height as usize);
        let mut particles: Vec<Particle> = Vec::new();
        let mut i: usize = 0;
        while i < positions.len()
            invariant
                win_w > 0,
                win_h > 0,
                i <= positions@.len(),
                forall|j: int| 0 <= j < positions@.len() ==>
                    -ONE <= (#[trigger] positions@[j]).x <= ONE && -ONE <= positions@[j].y <= ONE,
                particles@ == positions@.take(i as int).map_values(|p: Vec2| fresh_spec(p, win_w as int, win_h as int)),
            decreases positions@.len() - i,
        {
            let p: Particle = Particle::at(positions[i], win_w, win_h);
            particles.push(p);
            assert(positions@.take(i + 1) == positions@.take(i as int).push(positions@[i as int]));
            i = i + 1;
        }
        assert(positions@.take(i as int) == positions@);
        FlowField { grid, particles, index: 0, depth: 0, config }
    }

    /// A field of `max_particles` particles at rest at random positions, with
    /// a zeroed angle grid of `noise_width` by `noise_height` cells at depth
    /// zero.
    pub fn new(
        win_w: u32,
        win_h: u32,
        noise_width: u32,
        noise_height: u32,
        max_particles: usize,
        config: Config,
    ) -> (f: FlowField)
        requires
            win_w > 0,
            win_h > 0,
            noise_width > 0,
            noise_height > 0,
            noise_width * noise_height <= usize::MAX,
            config.n_new_particles > 0 ==> max_particles > 0,
        ensures
            f.wf(),
            f.grid.width == noise_width,
            f.grid.height == noise_height,
            f.particles@.len() == max_particles,
            forall|i: int| 0 <= i < f.particles@.len() ==> {
                let p = #[trigger] f.particles@[i];
                &&& p == fresh_spec(Vec2 { x: p.x, y: p.y }, win_w as int, win_h as int)
                &&& -ONE <= p.x <= ONE
                &&& -ONE <= p.y <= ONE
            },
            f.index == 0,
            f.depth == 0,
            f.config == config,
    {
        let positions: Vec<Vec2> = random_positions(max_particles);
        FlowField::with_positions(win_w, win_h, noise_width, noise_height, &positions, config)
    }
}

impl FlowField {
    /// The tick scale for a frame of length `dt`.
    pub fn time_step(&self, dt: i32) -> (ts: i32)
        ensures
            ts == time_step_spec(self.config.fixed_time_step, dt),
    {
        match self.config.fixed_time_step {
            Some(t) => t,
            None => dt,
        }
    }

    /// Moves every particle one step: wrap, read the steering of its cell,
    /// move. `steer` holds, per cell, the cosine and sine of the angle that
    /// `steer_angles` gives for that cell.
    pub fn advance(&mut self, ts: i32, win_h: u32, steer: &Vec<Vec2>)
        requires
            old(self).wf(),
            win_h > 0,
            steer@.len() == old(self).grid.angles@.len(),
            steer_ok(steer@),
        ensures
            final(self).wf(),
            final(self).grid == old(self).grid,
            final(self).index == old(self).index,
            final(self).depth == old(self).depth,
            final(self).config == old(self).config,
            final(self).particles@.len() == old(self).particles@.len(),
            forall|i: int| 0 <= i < final(self).particles@.len() ==>
                #[trigger] final(self).particles@[i] == step_spec(
                    old(self).particles@[i],
                    old(self).grid.width as int,
                    old(self).grid.height as int,
                    steer@,
                    ts as int,
                    target_mag_spec(old(self).config.speed as int, win_h as int),
                    old(self).config.motion,
                ),
    {
        proof {
            crate::fixed::lemma_quot_bound(self.config.speed as int, win_h as int);
        }
        let mag: i32 = div_trunc(self.config.speed as i128, win_h as i128) as i32;
        let motion: Motion = self.config.motion;
        let n: usize = self.particles.len();
        let mut i: usize = 0;
        while i < n
            invariant
                self.wf(),
                self.grid == old(self).grid,
                self.index == old(self).index,
                self.depth == old(self).depth,
                self.config == old(self).config,
                motion == self.config.motion,
                mag == target_mag_spec(self.config.speed as int, win_h as int),
                n == self.particles@.len(),
                n == old(self).particles@.len(),
                i <= n,
                steer@.len() == self.grid.angles@.len(),
                steer_ok(steer@),
                forall|j: int| i <= j < n ==> #[trigger] self.particles@[j] == old(self).particles@[j],
                forall|j: int| 0 <= j < i ==>
                    #[trigger] self.particles@[j] == step_spec(
                        old(self).particles@[j],
                        self.grid.width as int,
                        self.grid.height as int,
                        steer@,
                        ts as int,
                        mag as int,
                        motion,
                    ),
            decreases n - i,
        {
            let p: Particle = self.particles[i];
            let q: Particle = step_particle(p, &self.grid, steer, ts, mag, motion);
            self.particles.set(i, q);
            i = i + 1;
        }
    }

    /// Advances the noise depth by `ts * increment.z`, held at the ends of
    /// the `i64` range.
    pub fn advance_depth(&mut self, ts: i32)
        requires
            old(self).wf(),
        ensures
            final(self).wf(),
            final(self).depth == next_depth_spec(old(self).depth as int, ts as int, old(self).config.increment.z as int),
            final(self).grid == old(self).grid,
            final(self).particles@ == old(self).particles@,
            final(self).index == old(self).index,
            final(self).config == old(self).config,
    {
        let inc: i32 = self.config.increment.z;
        proof {
            assert(-0x8000_0000 * 0x8000_0000 <= ts * inc <= 0x8000_0000 * 0x8000_0000) by (nonlinear_arith)
                requires -0x8000_0000 <= ts <= 0x8000_0000, -0x8000_0000 <= inc <= 0x8000_0000;
            crate::fixed::lemma_quot_bound(ts * inc, ONE as int);
        }
        let d: i128 = div_trunc(ts as i128 * inc as i128, ONE as i128);
        let sum: i128 = self.depth as i128 + d;
        self.depth = if sum > i64::MAX as i128 {
            i64::MAX
        } else if sum < i64::MIN as i128 {
            i64::MIN
        } else {
            sum as i64
        };
    }
}

/// Stepping a cyclic index: `(i % n + 1) % n == (i + 1) % n`.
proof fn lemma_next_slot(i: int, n: int)
    requires
        i >= 0,
        n > 0,
    ensures
        (if i % n + 1 == n { 0 } else { i % n + 1 }) == (i + 1) % n,
{
    vstd::arithmetic::div_mod::lemma_add_mod_noop(i, 1, n);
    vstd::arithmetic::div_mod::lemma_mod_self_0(n);
    if n == 1 {
        vstd::arithmetic::div_mod::lemma_small_mod(0, 1);
        assert((i + 1) % 1 == 0);
        assert(i % 1 == 0);
    } else {
        vstd::arithmetic::div_mod::lemma_small_mod(1, n as nat);
        if i % n + 1 < n {
            vstd::arithmetic::div_mod::lemma_small_mod((i % n + 1) as nat, n as nat);
        }
    }
}

impl FlowField {
    /// Recycles one particle per entry of `spawns`: the particle at the
    /// recycle index is replaced by one at rest at the spawn position, and
    /// the index moves on cyclically.
    pub fn recycle_at(&mut self, spawns: &Vec<Vec2>, win_w: u32, win_h: u32)
        requires
            old(self).wf(),
            win_w > 0,
            win_h > 0,
            spawns@.len() > 0 ==> old(self).particles@.len() > 0,
            forall|i: int| 0 <= i < spawns@.len() ==>
                -ONE <= (#[trigger] spawns@[i]).x <= ONE && -ONE <= spawns@[i].y <= ONE,
        ensures
            final(self).wf(),
            final(self).particles@ == recycle_spec(
                old(self).particles@,
                old(self).index as int,
                spawns@,
                win_w as int,
                win_h as int,
            ),
            spawns@.len() > 0 ==> final(self).index == (old(self).index + spawns@.len()) % (old(self).particles@.len() as int),
            spawns@.len() == 0 ==> final(self).index == old(self).index,
            final(self).grid == old(self).grid,
            final(self).depth == old(self).depth,
            final(self).config == old(self).config,
    {
        let n: usize = self.particles.len();
        let m: usize = spawns.len();
        let mut k: usize = 0;
        if n > 0 {
            proof {
                vstd::arithmetic::div_mod::lemma_small_mod(self.index as nat, n as nat);
            }
        }
        while k < m
            invariant
                self.wf(),
                k == 0 ==> self.index == old(self).index,
                win_w > 0,
                win_h > 0,
                m == spawns@.len(),
                m > 0 ==> n > 0,
                n == self.particles@.len(),
                n == old(self).particles@.len(),
                k <= m,
                forall|i: int| 0 <= i < spawns@.len() ==>
                    -ONE <= (#[trigger] spawns@[i]).x <= ONE && -ONE <= spawns@[i].y <= ONE,
                self.particles@ == recycle_spec(old(self).particles@, old(self).index as int, spawns@.take(k as int), win_w as int, win_h as int),
                n > 0 ==> self.index == (old(self).index + k) % (n as int),
                n == 0 ==> k == 0 && self.index == old(self).index,
                self.grid == old(self).grid,
                self.depth == old(self).depth,
                self.config == old(self).config,
            decreases m - k,
        {
            let p: Particle = Particle::at(spawns[k], win_w, win_h);
            let slot: usize = self.index;
            self.particles.set(slot, p);
            proof {
                let t = spawns@.take(k + 1);
                assert(t.take(k as int) == spawns@.take(k as int));
                assert(t[k as int] == spawns@[k as int]);
                assert(t.len() == k + 1);
                lemma_next_slot(old(self).index + k, n as int);
            }
            self.index = if slot + 1 == n { 0 } else { slot + 1 };
            k = k + 1;
        }
        assert(spawns@.take(m as int) == spawns@);
        if m > 0 {
            assert(self.index == (old(self).index + m) % (n as int));
        } else {
            assert(self.index == old(self).index);
        }
    }
}

/// How many recycles after starting at slot `start` the slot `j` comes up,
/// on a ring of `n` slots.
pub open spec fn slot_offset(j: int, start: int, n: int) -> int {
    if j >= start { j - start } else { j - start + n }
}

/// The slot `start + k` of a ring of `n` slots, for `k < n`.
proof fn lemma_ring_slot(start: int, k: int, n: int)
    requires
        0 <= start < n,
        0 <= k < n,
    ensures
        0 <= (start + k) % n < n,
        slot_offset((start + k) % n, start, n) == k,
{
    if start + k < n {
        vstd::arithmetic::div_mod::lemma_small_mod((start + k) as nat, n as nat);
    } else {
        vstd::arithmetic::div_mod::lemma_mod_add_multiples_vanish(start + k - n, n);
        vstd::arithmetic::div_mod::lemma_small_mod((start + k - n) as nat, n as nat);
    }
}

/// After fewer recycles than slots, the slots reached so far hold the fresh
/// particles and the others are untouched.
proof fn lemma_recycle_prefix(ps: Seq<Particle>, start: int, spawns: Seq<Vec2>, win_w: int, win_h: int)
    requires
        0 <= start < ps.len(),
        spawns.len() <= ps.len(),
    ensures
        recycle_spec(ps, start, spawns, win_w, win_h).len() == ps.len(),
        forall|j: int| 0 <= j < ps.len() ==> #[trigger] recycle_spec(ps, start, spawns, win_w, win_h)[j] == (
            if slot_offset(j, start, ps.len() as int) < spawns.len() {
                fresh_spec(spawns[slot_offset(j, start, ps.len() as int)], win_w, win_h)
            } else {
                ps[j]
            }),
    decreases spawns.len(),
{
    if spawns.len() > 0 {
        let n = spawns.len() - 1;
        let len = ps.len() as int;
        let prev = spawns.take(n);
        lemma_recycle_prefix(ps, start, prev, win_w, win_h);
        lemma_ring_slot(start, n, len);
        let slot = (start + n) % len;
        assert forall|j: int| 0 <= j < len implies #[trigger] recycle_spec(ps, start, spawns, win_w, win_h)[j] == (
            if slot_offset(j, start, len) < spawns.len() {
                fresh_spec(spawns[slot_offset(j, start, len)], win_w, win_h)
            } else {
                ps[j]
            }) by {
            if j != slot {
                assert(recycle_spec(ps, start, prev, win_w, win_h)[j] == recycle_spec(ps, start, spawns, win_w, win_h)[j]);
                if slot_offset(j, start, len) < n {
                    assert(prev[slot_offset(j, start, len)] == spawns[slot_offset(j, start, len)]);
                }
            }
        }
    }
}

/// Recycling as many particles as there are slots, from any start, replaces
/// every particle by a fresh one exactly once, in ring order, and brings the
/// recycle index back to where it started.
pub proof fn lemma_recycle_full_cycle(ps: Seq<Particle>, start: int, spawns: Seq<Vec2>, win_w: int, win_h: int)
    requires
        0 <= start < ps.len(),
        spawns.len() == ps.len(),
    ensures
        recycle_spec(ps, start, spawns, win_w, win_h).len() == ps.len(),
        forall|j: int| 0 <= j < ps.len() ==> #[trigger] recycle_spec(ps, start, spawns, win_w, win_h)[j]
            == fresh_spec(spawns[slot_offset(j, start, ps.len() as int)], win_w, win_h),
        (start + spawns.len()) % (ps.len() as int) == start,
{
    lemma_recycle_prefix(ps, start, spawns, win_w, win_h);
    vstd::arithmetic::div_mod::lemma_mod_add_multiples_vanish(start, ps.len() as int);
    vstd::arithmetic::div_mod::lemma_small_mod(start as nat, ps.len());
}

/// `c * inc` of a cell coordinate below `2^32` fits an `i64`.
proof fn lemma_coord_bound(c: int, inc: int)
    requires
        0 <= c < 0x1_0000_0000,
        -0x8000_0000 <= inc < 0x8000_0000,
    ensures
        i64::MIN <= c * inc <= i64::MAX,
{
    assert(-0x8000_0000 * 0x1_0000_0000 < c * inc < 0x8000_0000 * 0x1_0000_0000) by (nonlinear_arith)
        requires 0 <= c < 0x1_0000_0000, -0x8000_0000 <= inc < 0x8000_0000;
}

impl FlowField {
    /// The noise-space point of every cell, in grid order: cell `i` is
    /// `(i % width, i / width)`, sampled at `(cx * inc.x, cy * inc.y, depth)`.
    pub fn sample_points(&self) -> (pts: Vec<SamplePoint>)
        requires
            self.wf(),
        ensures
            pts@.len() == self.grid.angles@.len(),
            forall|i: int| 0 <= i < pts@.len() ==> #[trigger] pts@[i] == sample_point_spec(
                i % (self.grid.width as int),
                i / (self.grid.width as int),
                self.config.increment,
                self.depth,
            ),
    {
        let w: usize = self.grid.width;
        let h: usize = self.grid.height;
        let inc: Increment = self.config.increment;
        let mut pts: Vec<SamplePoint> = Vec::new();
        let mut cx: usize = 0;
        let mut cy: usize = 0;
        while cy < h
            invariant
                self.wf(),
                w == self.grid.width,
                h == self.grid.height,
                inc == self.config.increment,
                cx < w,
                cy <= h,
                cy == h ==> cx == 0,
                pts@.len() == cy * w + cx,
                forall|i: int| 0 <= i < pts@.len() ==> #[trigger] pts@[i] == sample_point_spec(
                    i % (w as int),
                    i / (w as int),
                    inc,
                    self.depth,
                ),
            decreases w * h - pts@.len(),
        {
            proof {
                lemma_coord_bound(cx as int, inc.x as int);
                lemma_coord_bound(cy as int, inc.y as int);
                vstd::arithmetic::div_mod::lemma_fundamental_div_mod_converse(
                    (cy * w + cx) as int, w as int, cy as int, cx as int);
                assert(cy * w + cx < w * h) by (nonlinear_arith)
                    requires cx < w, cy < h;
            }
            let pt: SamplePoint = SamplePoint {
                x: cx as i64 * inc.x as i64,
                y: cy as i64 * inc.y as i64,
                z: self.depth,
            };
            pts.push(pt);
            if cx + 1 == w {
                assert(pts@.len() == (cy + 1) * w) by (nonlinear_arith)
                    requires pts@.len() == cy * w + cx + 1, cx + 1 == w;
                cx = 0;
                cy = cy + 1;
            } else {
                cx = cx + 1;
            }
        }
        assert(pts@.len() == w * h) by (nonlinear_arith)
            requires pts@.len() == cy * w + cx, cy == h, cx == 0;
        pts
    }

    /// The steering angle of every cell for tick scale `ts`; the caller
    /// hands their cosines and sines back to `advance`.
    pub fn steer_angles(&self, ts: i32) -> (a: Vec<i64>)
        requires
            self.wf(),
        ensures
            a@.len() == self.grid.angles@.len(),
            forall|i: int| 0 <= i < a@.len() ==> #[trigger] a@[i]
                == steer_angle_spec(self.grid.angles@[i] as int, ts as int, self.config.motion),
    {
        let n: usize = self.grid.angles.len();
        let motion: Motion = self.config.motion;
        let mut a: Vec<i64> = Vec::new();
        let mut i: usize = 0;
        while i < n
            invariant
                self.wf(),
                n == self.grid.angles@.len(),
                motion == self.config.motion,
                i <= n,
                a@.len() == i,
                forall|j: int| 0 <= j < i ==> #[trigger] a@[j]
                    == steer_angle_spec(self.grid.angles@[j] as int, ts as int, motion),
            decreases n - i,
        {
            let angle: i64 = self.grid.angles[i];
            let s: i64 = match motion {
                Motion::Direct => {
                    proof {
                        assert(-ANGLE_LIMIT * 0x8000_0000 <= angle * ts <= ANGLE_LIMIT * 0x8000_0000) by (nonlinear_arith)
                            requires -ANGLE_LIMIT <= angle <= ANGLE_LIMIT, -0x8000_0000 <= ts <= 0x8000_0000;
                        crate::fixed::lemma_quot_bound(angle * ts, ONE as int);
                        if angle * ts >= 0 {
                            assert((angle * ts) / 0x1_0000 <= 0x8000_0000_0000) by (nonlinear_arith)
                                requires 0 <= angle * ts <= 0x1_0000_0000 * 0x8000_0000;
                        } else {
                            assert((-(angle * ts)) / 0x1_0000 <= 0x8000_0000_0000) by (nonlinear_arith)
                                requires 0 <= -(angle * ts) <= 0x1_0000_0000 * 0x8000_0000;
                        }
                    }
                    div_trunc(angle as i128 * ts as i128, ONE as i128) as i64
                },
                Motion::Eased => angle,
            };
            a.push(s);
            i = i + 1;
        }
        a
    }
}

/// Every particle after its motion step.
pub open spec fn stepped_spec(
    ps: Seq<Particle>,
    width: int,
    height: int,
    steer: Seq<Vec2>,
    ts: int,
    mag: int,
    motion: Motion,
) -> Seq<Particle> {
    ps.map_values(|p: Particle| step_spec(p, width, height, steer, ts, mag, motion))
}

/// Whether every position lies in the closed square.
pub open spec fn in_square(ps: Seq<Vec2>) -> bool {
    forall|i: int| 0 <= i < ps.len() ==> -ONE <= (#[trigger] ps[i]).x <= ONE && -ONE <= ps[i].y <= ONE
}

/// The whole update of a frame, with `spawns` as the recycled particles'
/// positions.
pub open spec fn updated_spec(
    old_f: FlowField,
    new_f: FlowField,
    dt: int,
    win_w: int,
    win_h: int,
    steer: Seq<Vec2>,
    spawns: Seq<Vec2>,
) -> bool {
    let ts = time_step_spec(old_f.config.fixed_time_step, dt as i32) as int;
    let mag = target_mag_spec(old_f.config.speed as int, win_h);
    let moved = stepped_spec(old_f.particles@, old_f.grid.width as int, old_f.grid.height as int, steer, ts, mag, old_f.config.motion);
    &&& new_f.particles@ == recycle_spec(moved, old_f.index as int, spawns, win_w, win_h)
    &&& new_f.depth == next_depth_spec(old_f.depth as int, ts, old_f.config.increment.z as int)
    &&& (spawns.len() > 0 ==> new_f.index == (old_f.index + spawns.len()) % (old_f.particles@.len() as int))
    &&& (spawns.len() == 0 ==> new_f.index == old_f.index)
    &&& new_f.grid == old_f.grid
    &&& new_f.config == old_f.config
}

impl FlowField {
    /// Rewrites the angle grid from one noise sample per cell (in grid
    /// order, each in `[-ONE, ONE]`), scaled by the configured multiplier.
    pub fn resample(&mut self, samples: &Vec<i64>)
        requires
            old(self).wf(),
            samples@.len() == old(self).grid.angles@.len(),
            forall|i: int| 0 <= i < samples@.len() ==> -ONE <= #[trigger] samples@[i] <= ONE,
        ensures
            final(self).wf(),
            final(self).grid.width == old(self).grid.width,
            final(self).grid.height == old(self).grid.height,
            final(self).grid.angles@ == crate::grid::resampled_spec(samples@, old(self).config.multiplier as int),
            final(self).particles@ == old(self).particles@,
            final(self).index == old(self).index,
            final(self).depth == old(self).depth,
            final(self).config == old(self).config,
    {
        let m: i32 = self.config.multiplier;
        self.grid.resample(samples, m);
    }

    /// One frame: move every particle, advance the depth, then recycle one
    /// particle per entry of `spawns`.
    pub fn update_with(&mut self, dt: i32, win_w: u32, win_h: u32, steer: &Vec<Vec2>, spawns: &Vec<Vec2>)
        requires
            old(self).wf(),
            win_w > 0,
            win_h > 0,
            steer@.len() == old(self).grid.angles@.len(),
            steer_ok(steer@),
            spawns@.len() == old(self).config.n_new_particles,
            in_square(spawns@),
        ensures
            final(self).wf(),
            updated_spec(*old(self), *final(self), dt as int, win_w as int, win_h as int, steer@, spawns@),
    {
        let ts: i32 = self.time_step(dt);
        self.advance(ts, win_h, steer);
        proof {
            let mag = target_mag_spec(old(self).config.speed as int, win_h as int);
            let moved = stepped_spec(old(self).particles@, old(self).grid.width as int, old(self).grid.height as int, steer@, ts as int, mag, old(self).config.motion);
            assert(self.particles@ =~= moved);
        }
        self.advance_depth(ts);
        self.recycle_at(spawns, win_w, win_h);
    }

    /// One frame with the configured number of particles recycled at random
    /// positions of the square.
    pub fn update(&mut self, dt: i32, win_w: u32, win_h: u32, steer: &Vec<Vec2>)
        requires
            old(self).wf(),
            win_w > 0,
            win_h > 0,
            steer@.len() == old(self).grid.angles@.len(),
            steer_ok(steer@),
        ensures
            final(self).wf(),
            exists|spawns: Seq<Vec2>| #[trigger] in_square(spawns)
                && spawns.len() == old(self).config.n_new_particles
                && updated_spec(*old(self), *final(self), dt as int, win_w as int, win_h as int, steer@, spawns),
    {
        let spawns: Vec<Vec2> = random_positions(self.config.n_new_particles);
        self.update_with(dt, win_w, win_h, steer, &spawns);
        assert(in_square(spawns@));
    }
}

/// Whether every steering vector has components in `[-ONE, ONE]`, as a
/// cosine and a sine do.
pub open spec fn steer_ok(steer: Seq<Vec2>) -> bool {
    forall|i: int| 0 <= i < steer.len() ==>
        -ONE <= (#[trigger] steer[i]).x <= ONE && -ONE <= steer[i].y <= ONE
}

/// One particle's motion step.
pub fn step_particle(
    p: Particle,
    grid: &FlowGrid,
    steer: &Vec<Vec2>,
    ts: i32,
    mag: i32,
    motion: Motion,
) -> (q: Particle)
    requires
        grid.wf(),
        steer@.len() == grid.angles@.len(),
        steer_ok(steer@),
        bounded(p),
    ensures
        q == step_spec(p, grid.width as int, grid.height as int, steer@, ts as int, mag as int, motion),
        bounded(q),
{
    let mut q: Particle = p;
    q.wrap();
    let cell: usize = grid.cell_index(q.x, q.y);
    let s: Vec2 = steer[cell];
    match motion {
        Motion::Direct => {
            proof {
                crate::fixed::lemma_quot_bound(s.x as int, 10);
                crate::fixed::lemma_quot_bound(s.y as int, 10);
            }
            let dx: i128 = div_trunc(s.x as i128, 10);
            let dy: i128 = div_trunc(s.y as i128, 10);
            q.x = q.x + dx as i64;
            q.y = q.y + dy as i64;
        },
        Motion::Eased => {
            proof {
                assert(-0x1_0000 * 0x8000_0000 <= s.x * ts <= 0x1_0000 * 0x8000_0000) by (nonlinear_arith)
                    requires -0x1_0000 <= s.x <= 0x1_0000, -0x8000_0000 <= ts <= 0x8000_0000;
                assert(-0x1_0000 * 0x8000_0000 <= s.y * ts <= 0x1_0000 * 0x8000_0000) by (nonlinear_arith)
                    requires -0x1_0000 <= s.y <= 0x1_0000, -0x8000_0000 <= ts <= 0x8000_0000;
                lemma_push_bound(s.x * ts);
                lemma_push_bound(s.y * ts);
            }
            let ax: i128 = div_trunc(s.x as i128 * ts as i128, 10 * ONE as i128);
            let ay: i128 = div_trunc(s.y as i128 * ts as i128, 10 * ONE as i128);
            let mut v: Vec2 = Vec2 { x: q.vel.x + ax as i64, y: q.vel.y + ay as i64 };
            v.set_mag(mag);
            proof {
                assert(mag * mag <= VEL_LIMIT) by (nonlinear_arith)
                    requires -0x8000_0000 <= mag <= 0x8000_0000;
            }
            q.x = q.x + v.x;
            q.y = q.y + v.y;
            q.vel = v;
        },
    }
    q
}

/// A velocity push `c * ts / (10 * ONE)` stays under `2^31` in magnitude.
proof fn lemma_push_bound(a: int)
    requires
        -0x1_0000 * 0x8000_0000 <= a <= 0x1_0000 * 0x8000_0000,
    ensures
        -0x8000_0000 <= quot(a, 10 * ONE) <= 0x8000_0000,
{
    if a >= 0 {
        assert(a / (10 * ONE) <= 0x8000_0000) by (nonlinear_arith)
            requires 0 <= a <= 0x1_0000 * 0x8000_0000;
        assert(a / (10 * ONE) >= 0) by (nonlinear_arith)
            requires 0 <= a;
    } else {
        assert((-a) / (10 * ONE) <= 0x8000_0000) by (nonlinear_arith)
            requires 0 <= -a <= 0x1_0000 * 0x8000_0000;
        assert((-a) / (10 * ONE) >= 0) by (nonlinear_arith)
            requires 0 <= -a;
    }
}

/// `n` random positions of the square.
fn random_positions(n: usize) -> (v: Vec<Vec2>)
    ensures
        v@.len() == n,
        forall|i: int| 0 <= i < v@.len() ==>
            -ONE <= (#[trigger] v@[i]).x <= ONE && -ONE <= v@[i].y <= ONE,
{
    let mut v: Vec<Vec2> = Vec::new();
    while v.len() < n
        invariant
            v@.len() <= n,
            forall|i: int| 0 <= i < v@.len() ==>
                -ONE <= (#[trigger] v@[i]).x <= ONE && -ONE <= v@[i].y <= ONE,
        decreases n - v@.len(),
    {
        let x: i64 = rand_range(-ONE, ONE);
        let y: i64 = rand_range(-ONE, ONE);
        v.push(Vec2 { x, y });
    }
    v
}

} // verus!
