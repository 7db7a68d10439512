//! A particle engine in the style of smoothed-particle hydrodynamics, with a
//! population that grows by division.
//!
//! All quantities are fixed-point numbers with saturating arithmetic, so that
//! every pass is total and gives the same result on every machine. A frame is
//! a fixed number of sub-steps; each sub-step is the division rule, the
//! density pass, the force pass and the integration step. The drag between
//! neighbours is a linear system; a solver of the host's choice solves it
//! between the force pass and the integration step.

pub mod config;
pub mod density;
pub mod division;
pub mod fixed;
pub mod forces;
pub mod frame;
pub mod friction;
pub mod kernel;
pub mod laws;
pub mod particle;
pub mod particles;
pub mod random;
pub mod roots;
pub mod vec3;
