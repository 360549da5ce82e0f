//! Ordering, hit selection and refractive-boundary bookkeeping for a ray
//! tracer, proved with Verus.
//!
//! Shading itself works on floating-point values and lives outside this
//! library. What lives here is the discrete part of the pipeline: where each
//! ray/surface crossing falls in time order, which crossing is the visible
//! hit (or the one that blocks light), which shapes a ray is inside of at a
//! given crossing, and the index bookkeeping of 4x4 transforms.
pub mod containment;
pub mod crossing;
pub mod grid;
pub mod hit;

pub use containment::refraction_sides;
pub use grid::{submatrix3, submatrix4, transpose};
pub use crossing::{ray_order, time_key, Crossing};
pub use hit::{blocked_before, hit_index, shadow_hit_index};
