//! Flocking of boids on a bounded plane.
//!
//! A `Flock` owns a fixed number of `Boid`s on a canvas. In each tick every
//! boid steers by three rules over its neighbours as they were before the
//! tick: alignment with their mean velocity, cohesion toward their mean
//! position, and separation from each of them. Each component of its new
//! velocity is clipped to a largest speed; the boid then moves for one tick's
//! time and, where it has left the canvas, is shifted back by one canvas.
//!
//! Every length, speed and weight is a whole number of millionths (see
//! `fixed`), so a tick is exact integer arithmetic: sums are exact, means and
//! weighted values are rounded toward zero.
//!
//! The module `laws` holds what is proved of every flock and every tick.

pub mod boid;
pub mod fixed;
pub mod flock;
pub mod laws;
pub mod random;

pub use boid::Boid;
pub use flock::{ConfigError, Flock};
