//! The renderers of a style: which geometries each one takes and what it
//! draws for them.
pub mod area_renderer;
pub mod geometry_renderer;
pub mod line_renderer;
pub mod point_renderer;
