//! Core math engine: Q64.64 fixed point, sphere invariant, torus helpers,
//! and the analytical swap solver.
pub mod fixed_point;
pub mod newton;
pub mod sphere;
pub mod torus;
pub mod wide;

pub use fixed_point::FixedPoint;
pub use sphere::Sphere;
