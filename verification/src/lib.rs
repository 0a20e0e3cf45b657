//! A correlated random walk over a fixed field of particles.
//!
//! Each tick every particle's velocity receives a uniform random increment,
//! and the particle is displaced by the running mean of the updated
//! velocities of all particles up to and including itself, unless its
//! vertical position has left the allowed band.  All coordinates are held in
//! thousandths of a drawing unit, so every constant of the rule is exact.

pub mod field;
pub mod laws;
pub mod rng;
