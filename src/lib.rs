//! Termination logic of a Schwarzschild ray tracer.
//!
//! The floating-point geodesic integrator evaluates, for each ray state it
//! reaches, the tracer's termination predicates; this crate decides from those
//! answers when a ray stops and how it is classified, and proves the rules.
pub mod input;
pub mod laws;
pub mod trace;
