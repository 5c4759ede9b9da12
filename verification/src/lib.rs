//! Nested-polygon animation library.
//!
//! Starting from a regular polygon inscribed in the unit circle, each further
//! layer connects the midpoints of the previous layer's edges, and an
//! animation driver redraws the whole stack of layers once per tick with a
//! shrinking inter-frame delay.  All geometry is carried in fixed-point
//! integer coordinates so that every computation here is verified; trigonometry
//! comes from the `cordic` crate behind trusted wrappers.

pub mod driver;
pub mod geometry;
pub mod trig;
