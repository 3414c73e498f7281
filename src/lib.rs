//! Approximate penetration depth of overlapping convex shapes, found by sampling
//! the support function of their configuration-space obstacle.
//!
//! Geometry is exact two-dimensional integer geometry: coordinates are `i64`,
//! sample directions are integer vectors of one exact length, and unit normals
//! are fixed-point vectors of length about `NORMAL_SCALE`.
//!
//! The pipeline: `sampling` finds the sampled direction of least support
//! distance and the shift that separates the shapes along it; an exact
//! distance algorithm, given through `ExactDistance` or `ExactProjection`
//! (`CuboidDistance` is one for boxes), measures the separated shapes;
//! `correction` moves its answer back and derives the contact normal and depth.

pub mod vector;
pub mod shape;
pub mod simplex;
pub mod sampling;
pub mod correction;
pub mod penetration;
pub mod exact;
pub mod laws;

pub use vector::{Vect, floor_div, isqrt};
pub use shape::{
    SupportMap, Cuboid, AnnotatedPoint, cso_support, lemma_cuboid_support_farthest, COORD_LIMIT,
    DIR_LIMIT, PLACEMENT_LIMIT,
};
pub use simplex::{Simplex, AnnotatedSimplex, SIMPLEX_LIMIT, SHIFT_LIMIT};
pub use sampling::{
    SAMPLE_COUNT, DIR_LENGTH, DIST_LIMIT, MARGIN_LIMIT, SHIFT_BOUND, PenetrationShift,
    sample_direction, first_minimum, separating_shift, penetration_shift, projection_shift,
    lemma_first_min_unique,
};
pub use correction::{NORMAL_SCALE, RESULT_LIMIT, normalize, correct_contact, correct_projection};
pub use penetration::{ExactDistance, ExactProjection, closest_points, project_origin};
pub use exact::CuboidDistance;
pub use laws::{lemma_swap_dists, lemma_swap_symmetry, lemma_margin_monotone};
