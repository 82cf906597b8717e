//! The computational core of a Monte Carlo path tracer: distribution
//! combinators, the scene composition protocol with its self-intersection
//! guard, the path integrator with Russian roulette, and the partition of an
//! image among workers.

pub mod distribution;
pub mod integrator;
pub mod material;
pub mod primitive;
pub mod scene;
pub mod schedule;
