//! Style resolution and geometry classification for rendering vector
//! geographic data: which lines, areas and points a geometry gives, which
//! style applies to a feature, and which drawing operations follow, in order.
//!
//! Coordinates and other numbers with a fraction are held as the bit
//! patterns of doubles and singles. The library compares them but does no
//! arithmetic on them: what needs arithmetic (hulls, centroids, clipping,
//! the reading and writing of numbers) and what needs a file or the network
//! is asked of functions and sources that the caller supplies.
pub mod cache;
pub mod classify;
pub mod features;
pub mod geometry;
pub mod magic_value;
pub mod paint;
pub mod render;
pub mod render_option;
pub mod rendered_geometry;
pub mod renderer;
pub mod resolve;
pub mod resolved;
pub mod scalar;
pub mod scene;
pub mod service;
pub mod utils;

pub use magic_value::{
    Converted, Fetched, Loader, MagicConverter, MagicFetcher, MagicValue, MagicValueKind,
    PropValue, Properties, StrEncoding,
};
pub use render::{render_to_buffer, render_to_texture};
pub use render_option::{PixelOption, RenderOption, RenderRegion, TileProj};
pub use rendered_geometry::RenderedGeometry;
pub use renderer::area_renderer::{AreaRenderer, LineKind};
pub use renderer::geometry_renderer::{GeometryRenderer, RenderedGeometryFilter};
pub use renderer::line_renderer::{LineRenderer, NodeKind};
pub use renderer::point_renderer::PointRenderer;
