//! A particle flow field on fixed-point numbers.
//!
//! Positions live in normalized device coordinates, where the visible square
//! spans `-ONE ..= ONE`. A grid of flow angles, resampled from a noise source
//! each frame, steers a fixed-capacity swarm of particles; particles that
//! leave the square snap to the opposite edge, and a few particles are
//! recycled at fresh positions every frame.
pub mod draw;
pub mod field;
pub mod fixed;
pub mod grid;
pub mod particle;
pub mod vec2;
