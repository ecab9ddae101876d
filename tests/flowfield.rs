use flowfield::draw::{rand_range, range_from_draw};
use flowfield::field::{Config, FlowField, Increment, Motion, SamplePoint};
use flowfield::fixed::{div_trunc, ONE};
use flowfield::grid::{cell_coord, FlowGrid};
use flowfield::particle::{half_extent, wrap_coord, Color, Particle};
use flowfield::vec2::Vec2;
use noise::{NoiseFn, Perlin};

fn fixed(v: f64) -> i64 {
    (v * ONE as f64).round() as i64
}

fn config(motion: Motion, n_new: usize) -> Config {
    Config {
        increment: Increment { x: 0, y: 0, z: 0 },
        multiplier: ONE as i32,
        speed: 0,
        n_new_particles: n_new,
        fixed_time_step: None,
        motion,
    }
}

fn uniform_steer(n: usize, s: Vec2) -> Vec<Vec2> {
    vec![s; n]
}

#[test]
fn set_mag_leaves_zero_vector() {
    for mag in [0, 1, 10, -7, i32::MAX, i32::MIN] {
        let mut v = Vec2 { x: 0, y: 0 };
        v.set_mag(mag);
        assert_eq!(v, Vec2 { x: 0, y: 0 });
    }
}

#[test]
fn set_mag_scales_by_square_ratio() {
    let mut v = Vec2 { x: 3, y: 4 };
    v.set_mag(10);
    assert_eq!(v, Vec2 { x: 12, y: 16 });

    let mut w = Vec2 { x: 3 * ONE, y: 4 * ONE };
    w.set_mag(10 * ONE as i32);
    assert_eq!(w, Vec2 { x: 12 * ONE, y: 16 * ONE });
}

#[test]
fn set_mag_rounds_toward_zero_and_keeps_signs() {
    let mut v = Vec2 { x: -3, y: 4 };
    v.set_mag(2);
    // -3 * 4 / 25 and 4 * 4 / 25, rounded toward zero.
    assert_eq!(v, Vec2 { x: 0, y: 0 });

    let mut w = Vec2 { x: -1, y: 0 };
    w.set_mag(5);
    assert_eq!(w, Vec2 { x: -25, y: 0 });

    let mut big = Vec2 { x: i64::MIN, y: i64::MIN };
    big.set_mag(i32::MIN);
    assert_eq!(big, Vec2 { x: 0, y: 0 });
}

#[test]
fn wrap_snaps_to_far_edge() {
    assert_eq!(wrap_coord(ONE * 3 / 2), -ONE);
    assert_eq!(wrap_coord(-ONE * 13 / 10), ONE);
    assert_eq!(wrap_coord(ONE), ONE);
    assert_eq!(wrap_coord(-ONE), -ONE);
    assert_eq!(wrap_coord(12345), 12345);
    assert_eq!(wrap_coord(i64::MAX), -ONE);
    assert_eq!(wrap_coord(i64::MIN), ONE);
}

#[test]
fn wrap_acts_on_both_axes() {
    let mut p = Particle::at(Vec2 { x: ONE * 3 / 2, y: -ONE * 2 }, 1920, 1080);
    p.vel = Vec2 { x: 5, y: -5 };
    p.wrap();
    assert_eq!((p.x, p.y), (-ONE, ONE));
    assert_eq!(p.vel, Vec2 { x: 5, y: -5 });
}

#[test]
fn wrapped_positions_stay_in_square() {
    for c in [i64::MIN, -ONE - 1, -ONE, 0, ONE, ONE + 1, i64::MAX, 7 * ONE] {
        let w = wrap_coord(c);
        assert!(-ONE <= w && w <= ONE);
    }
}

#[test]
fn half_extent_is_two_over_size() {
    assert_eq!(half_extent(1920), 2 * ONE / 1920);
    assert_eq!(half_extent(1920), 68);
    assert_eq!(half_extent(1), 2 * ONE);
}

#[test]
fn fresh_particle_is_at_rest_and_sized() {
    let p = Particle::at(Vec2 { x: 10, y: -20 }, 1920, 1080);
    assert_eq!(p.x, 10);
    assert_eq!(p.y, -20);
    assert_eq!(p.half_w, 68);
    assert_eq!(p.half_h, 121);
    assert_eq!(p.vel, Vec2 { x: 0, y: 0 });
}

#[test]
fn random_particle_lies_in_square() {
    for _ in 0..200 {
        let p = Particle::new(640, 480);
        assert!(-ONE <= p.x && p.x < ONE);
        assert!(-ONE <= p.y && p.y < ONE);
        assert_eq!(p.vel, Vec2 { x: 0, y: 0 });
    }
}

#[test]
fn color_follows_position() {
    let c = Particle::at(Vec2 { x: 0, y: 0 }, 10, 10).color();
    assert_eq!(c, Color { r: ONE / 40, g: ONE / 40, b: ONE / 40, a: ONE });
    let d = Particle::at(Vec2 { x: ONE, y: -ONE }, 10, 10).color();
    assert_eq!(d, Color { r: 2 * ONE / 40, g: 0, b: 0, a: ONE });
    let e = Particle::at(Vec2 { x: -2 * ONE, y: 0 }, 10, 10).color();
    assert_eq!(e.r, -(ONE / 40));
    assert_eq!(e.b, 3 * ONE / 40);
}

#[test]
fn div_trunc_rounds_toward_zero() {
    assert_eq!(div_trunc(7, 2), 3);
    assert_eq!(div_trunc(-7, 2), -3);
    assert_eq!(div_trunc(0, 5), 0);
}

#[test]
fn range_from_draw_maps_draws_linearly() {
    assert_eq!(range_from_draw(-ONE, ONE, 0), -ONE);
    assert_eq!(range_from_draw(-ONE, ONE, 1 << 31), 0);
    assert_eq!(range_from_draw(-ONE, ONE, u32::MAX), ONE - 1);
    assert_eq!(range_from_draw(5, 5, u32::MAX), 5);
    assert_eq!(range_from_draw(i64::MIN, i64::MAX, 0), i64::MIN);
}

#[test]
fn rand_range_stays_in_range() {
    for _ in 0..200 {
        let v = rand_range(-3, 9);
        assert!(-3 <= v && v < 9);
    }
    assert_eq!(rand_range(4, 4), 4);
}

#[test]
fn cell_coord_clamps_right_edge() {
    assert_eq!(cell_coord(-ONE, 4), 0);
    assert_eq!(cell_coord(0, 4), 2);
    assert_eq!(cell_coord(ONE, 4), 3);
    assert_eq!(cell_coord(ONE - 1, 4), 3);
    assert_eq!(cell_coord(-ONE / 2, 4), 1);
}

#[test]
fn grid_resample_computes_angles() {
    let mut g = FlowGrid::new(2, 1);
    assert_eq!(g.angles, vec![0, 0]);
    g.resample(&vec![-ONE, ONE / 2], 2 * ONE as i32);
    assert_eq!(g.angles, vec![0, 3 * ONE]);
    assert_eq!(g.cell_index(ONE, ONE), 1);
}

#[test]
fn resample_is_deterministic() {
    let samples: Vec<i64> = vec![-ONE, -ONE / 3, 0, 17, ONE / 2, ONE];
    let mut a = FlowGrid::new(3, 2);
    let mut b = FlowGrid::new(3, 2);
    b.resample(&vec![ONE; 6], 99);
    a.resample(&samples, -12345);
    b.resample(&samples, -12345);
    assert_eq!(a.angles, b.angles);
    a.resample(&samples, -12345);
    assert_eq!(a.angles, b.angles);
}

#[test]
fn recycling_capacity_particles_renews_every_slot() {
    let start = vec![Vec2 { x: 1, y: 1 }, Vec2 { x: 2, y: 2 }, Vec2 { x: 3, y: 3 }];
    let mut f = FlowField::with_positions(100, 100, 2, 2, &start, config(Motion::Eased, 1));
    f.recycle_at(&vec![Vec2 { x: 9, y: 9 }], 100, 100);
    assert_eq!(f.index, 1);
    let spawns = vec![Vec2 { x: 10, y: 0 }, Vec2 { x: 20, y: 0 }, Vec2 { x: 30, y: 0 }];
    f.recycle_at(&spawns, 200, 50);
    assert_eq!(f.index, 1);
    let xs: Vec<i64> = f.particles.iter().map(|p| p.x).collect();
    assert_eq!(xs, vec![30, 10, 20]);
    for p in &f.particles {
        assert_eq!(p.half_w, 2 * ONE / 200);
        assert_eq!(p.half_h, 2 * ONE / 50);
        assert_eq!(p.vel, Vec2 { x: 0, y: 0 });
    }
}

#[test]
fn recycle_index_wraps_cyclically() {
    let start = vec![Vec2 { x: 0, y: 0 }; 4];
    let mut f = FlowField::with_positions(10, 10, 1, 1, &start, config(Motion::Direct, 3));
    f.recycle_at(&vec![Vec2 { x: 1, y: 0 }; 3], 10, 10);
    assert_eq!(f.index, 3);
    f.recycle_at(&vec![Vec2 { x: 2, y: 0 }; 3], 10, 10);
    assert_eq!(f.index, 2);
    let xs: Vec<i64> = f.particles.iter().map(|p| p.x).collect();
    assert_eq!(xs, vec![2, 2, 1, 2]);
}

#[test]
fn direct_step_with_constant_noise() {
    let start = vec![Vec2 { x: 0, y: 0 }];
    let mut f = FlowField::with_positions(100, 100, 4, 4, &start, config(Motion::Direct, 0));
    let perlin = Perlin::new();
    let mut angles_seen: Vec<Vec<i64>> = Vec::new();
    for _ in 0..2 {
        let pts: Vec<SamplePoint> = f.sample_points();
        assert_eq!(pts.len(), 16);
        assert!(pts.iter().all(|p| p.x == 0 && p.y == 0 && p.z == 0));
        let samples: Vec<i64> = pts
            .iter()
            .map(|p| fixed(perlin.get([p.x as f64, p.y as f64, p.z as f64])))
            .collect();
        f.resample(&samples);
        angles_seen.push(f.grid.angles.clone());
    }
    assert_eq!(angles_seen[0], angles_seen[1]);
    let noise0 = fixed(perlin.get([0.0, 0.0, 0.0]));
    let angle = noise0 + ONE;
    assert!(f.grid.angles.iter().all(|a| *a == angle));

    let ts = f.time_step(ONE as i32);
    assert_eq!(ts, ONE as i32);
    let steer_angles = f.steer_angles(ts);
    assert!(steer_angles.iter().all(|a| *a == angle));
    let a = angle as f64 / ONE as f64;
    let s = Vec2 { x: fixed(a.cos()), y: fixed(a.sin()) };
    f.update_with(ONE as i32, 100, 100, &uniform_steer(16, s), &Vec::new());
    assert_eq!(f.particles[0].x, s.x / 10);
    assert_eq!(f.particles[0].y, s.y / 10);
    assert_eq!(f.particles[0].vel, Vec2 { x: 0, y: 0 });
}

#[test]
fn direct_steer_angle_scales_with_time_step() {
    let start = vec![Vec2 { x: 0, y: 0 }];
    let mut f = FlowField::with_positions(100, 100, 1, 1, &start, config(Motion::Direct, 0));
    f.resample(&vec![0]);
    assert_eq!(f.grid.angles, vec![ONE]);
    assert_eq!(f.steer_angles(ONE as i32 / 2), vec![ONE / 2]);
}

#[test]
fn eased_step_rescales_velocity() {
    let start = vec![Vec2 { x: 0, y: 0 }];
    let mut cfg = config(Motion::Eased, 0);
    cfg.speed = 6553;
    let mut f = FlowField::with_positions(100, 1, 1, 1, &start, cfg);
    f.resample(&vec![-ONE]);
    assert_eq!(f.steer_angles(ONE as i32), vec![0]);
    f.update_with(ONE as i32, 100, 1, &vec![Vec2 { x: ONE, y: 0 }], &Vec::new());
    // push = ONE * ONE / (10 * ONE) = 6553; rescaled: 6553 * 6553^2 / 6553^2.
    assert_eq!(f.particles[0].vel, Vec2 { x: 6553, y: 0 });
    assert_eq!(f.particles[0].x, 6553);
    assert_eq!(f.particles[0].y, 0);
}

#[test]
fn eased_step_target_speed_divides_by_height() {
    let start = vec![Vec2 { x: 0, y: 0 }];
    let mut cfg = config(Motion::Eased, 0);
    cfg.speed = 1000;
    let mut f = FlowField::with_positions(100, 10, 1, 1, &start, cfg);
    // target = 1000 / 10 = 100; push = 6553; 6553 * 100^2 / 6553^2 = 1.
    f.update_with(ONE as i32, 100, 10, &vec![Vec2 { x: ONE, y: 0 }], &Vec::new());
    assert_eq!(f.particles[0].vel, Vec2 { x: 1, y: 0 });
}

#[test]
fn update_wraps_before_moving() {
    let start = vec![Vec2 { x: ONE * 3 / 2, y: 0 }];
    let mut f = FlowField::with_positions(100, 100, 2, 1, &start, config(Motion::Direct, 0));
    f.update_with(ONE as i32, 100, 100, &vec![Vec2 { x: 10, y: 0 }, Vec2 { x: 20, y: 0 }], &Vec::new());
    // Wrapped to -ONE, which reads cell 0.
    assert_eq!(f.particles[0].x, -ONE + 1);
}

#[test]
fn depth_advances_by_time_step() {
    let start: Vec<Vec2> = Vec::new();
    let mut cfg = config(Motion::Eased, 0);
    cfg.increment = Increment { x: 0, y: 0, z: ONE as i32 / 100 };
    cfg.fixed_time_step = Some(ONE as i32 * 3);
    let mut f = FlowField::with_positions(100, 100, 1, 1, &start, cfg);
    f.advance_depth(f.time_step(1));
    assert_eq!(f.depth, 3 * (ONE / 100));
    f.depth = i64::MAX - 1;
    f.advance_depth(ONE as i32);
    assert_eq!(f.depth, i64::MAX);
}

#[test]
fn time_step_prefers_fixed_step() {
    let mut cfg = config(Motion::Eased, 0);
    let f = FlowField::with_positions(100, 100, 1, 1, &Vec::new(), cfg);
    assert_eq!(f.time_step(42), 42);
    cfg.fixed_time_step = Some(7);
    let g = FlowField::with_positions(100, 100, 1, 1, &Vec::new(), cfg);
    assert_eq!(g.time_step(42), 7);
}

#[test]
fn sample_points_follow_grid_order() {
    let mut cfg = config(Motion::Eased, 0);
    cfg.increment = Increment { x: 10, y: 100, z: 0 };
    let mut f = FlowField::with_positions(100, 100, 3, 2, &Vec::new(), cfg);
    f.depth = 5;
    let pts = f.sample_points();
    let got: Vec<(i64, i64, i64)> = pts.iter().map(|p| (p.x, p.y, p.z)).collect();
    assert_eq!(
        got,
        vec![(0, 0, 5), (10, 0, 5), (20, 0, 5), (0, 100, 5), (10, 100, 5), (20, 100, 5)]
    );
}

#[test]
fn random_update_recycles_configured_count() {
    let mut f = FlowField::new(100, 100, 4, 4, 5, config(Motion::Eased, 2));
    assert_eq!(f.particles.len(), 5);
    for _ in 0..3 {
        f.update(ONE as i32 / 60, 100, 100, &uniform_steer(16, Vec2 { x: ONE, y: 0 }));
    }
    assert_eq!(f.index, 1);
    assert_eq!(f.particles.len(), 5);
}
