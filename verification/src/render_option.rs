//! What to render and onto what: the region, the size of the picture and
//! the renderers of a style.
use crate::geometry::Rect;
use crate::magic_value::{
    lemma_owed_fetch, outcome_view, owed_fetch, Fetched, MagicFetcher, MagicValue, Phase,
    Properties,
};
use crate::renderer::geometry_renderer::GeometryRenderer;
use crate::resolve::{list_first, list_kept, list_needs, resolve_list, StyleSource};
use crate::resolved::{bare, list_resolved};
use vstd::prelude::*;

verus! {

/// A colour: the bit patterns of its red, green, blue and alpha as singles.
#[derive(Clone, Copy, Debug, PartialEq, Eq, Structural)]
pub struct Color {
    pub red: u32,
    pub green: u32,
    pub blue: u32,
    pub alpha: u32,
}

impl Color {
    /// The colour whose four components are zero.
    pub fn transparent() -> (c: Color)
        ensures
            c == (Color { red: 0, green: 0, blue: 0, alpha: 0 }),
    {
        Color { red: 0, green: 0, blue: 0, alpha: 0 }
    }
}

/// The size of the picture in pixels and its background.
#[derive(Clone, Copy, Debug, PartialEq, Eq, Structural)]
pub struct PixelOption {
    pub width: u32,
    pub height: u32,
    pub base_color: Color,
}

impl Default for PixelOption {
    /// 256 by 256 pixels on a transparent background.
    fn default() -> (r: Self)
        ensures
            r == (PixelOption {
                width: 256,
                height: 256,
                base_color: Color { red: 0, green: 0, blue: 0, alpha: 0 },
            }),
    {
        PixelOption { width: 256, height: 256, base_color: Color::transparent() }
    }
}

/// The projection of the tiles served.
#[derive(Clone, Copy, Debug, PartialEq, Eq, Structural)]
pub enum TileProj {
    EPSG4326,
    EPSG3857,
}

impl Default for TileProj {
    fn default() -> (r: Self)
        ensures
            r == TileProj::EPSG4326,
    {
        TileProj::EPSG4326
    }
}

/// The part of the plane to render.
#[derive(Clone, Copy, Debug, PartialEq, Eq, Structural)]
pub enum RenderRegion {
    /// What holds all the geometries.
    All,
    /// This rectangle.
    Rect(Rect),
    /// The square round a point: its two ordinates and half the side, as bit
    /// patterns of doubles.
    PointBuffer(u64, u64, u64),
    /// The tile in this column and row at this zoom.
    TileIndex(u32, u32, u32),
}

impl Default for RenderRegion {
    fn default() -> (r: Self)
        ensures
            r == RenderRegion::All,
    {
        RenderRegion::All
    }
}

impl RenderRegion {
    /// Whether the rectangle of the region has to be worked out: that of a
    /// square round a point and that of a tile.
    pub open spec fn is_worked_out(&self) -> bool {
        *self is PointBuffer || *self is TileIndex
    }

    /// The rectangle of the region: none for all, a rectangle itself, and
    /// for a square round a point or a tile what `frame` works out.
    pub fn get_rect<F: Fn(&RenderRegion, &TileProj) -> Rect>(
        &self,
        proj: &TileProj,
        frame: &F,
    ) -> (r: Option<Rect>)
        requires
            self.is_worked_out() ==> frame.requires((self, proj)),
        ensures
            match *self {
                RenderRegion::All => r is None,
                RenderRegion::Rect(rect) => r == Some(rect),
                _ => r matches Some(rect) && frame.ensures((self, proj), rect),
            },
    {
        match self {
            RenderRegion::All => None,
            RenderRegion::Rect(rect) => Some(*rect),
            _ => Some(frame(self, proj)),
        }
    }
}

/// The bytes of one row of pixels, four to the pixel.
pub open spec fn row_bytes(width: u32) -> int {
    4 * width
}

/// The bytes of one row of pixels rounded up to a multiple of 256.
pub open spec fn padded_row_bytes(width: u32) -> int {
    ((row_bytes(width) + 255) / 256) * 256
}

/// The greatest width whose padded row fits 32 bits.
pub const MAX_PADDED_WIDTH: u32 = 0x3fff_ffc0;

/// A style with its view: the region, the picture, the renderers in the
/// order in which they paint, and the projection.
#[derive(Debug, PartialEq)]
pub struct RenderOption {
    pub region: RenderRegion,
    pub pixel_option: PixelOption,
    pub renderers: Vec<MagicValue<GeometryRenderer>>,
    pub tile_proj: TileProj,
    pub need_proj_geom: bool,
}

impl Default for RenderOption {
    /// All geometries on the default picture, without renderers, in
    /// EPSG:4326 and without reprojection.
    fn default() -> (r: Self)
        ensures
            r.region == RenderRegion::All,
            r.pixel_option == (PixelOption {
                width: 256,
                height: 256,
                base_color: Color { red: 0, green: 0, blue: 0, alpha: 0 },
            }),
            r.renderers@.len() == 0,
            r.tile_proj == TileProj::EPSG4326,
            !r.need_proj_geom,
    {
        RenderOption {
            region: RenderRegion::All,
            pixel_option: PixelOption::default(),
            renderers: Vec::new(),
            tile_proj: TileProj::EPSG4326,
            need_proj_geom: false,
        }
    }
}

impl<S: StyleSource> Fetched<S> for RenderOption {
    /// The first pass over the renderers, in which properties play no
    /// part: what [`list_resolved`] says for a bag that holds none. The
    /// region, the picture and the projection are left as they are.
    open spec fn fetch_gives(
        &self,
        source: S,
        depth: usize,
        after: Self,
        r: Result<(), String>,
    ) -> bool {
        &&& after.region == self.region
        &&& after.pixel_option == self.pixel_option
        &&& after.tile_proj == self.tile_proj
        &&& after.need_proj_geom == self.need_proj_geom
        &&& exists|props: Properties| #[trigger]
            bare(props) && list_resolved(
                self.renderers,
                Phase::Fetch,
                props,
                source,
                depth,
                after.renderers,
                r,
            )
    }
}

impl MagicFetcher for RenderOption {
    open spec fn fetched(&self) -> bool {
        !list_needs(self.renderers, Phase::Fetch)
    }

    /// Follows the references to files and addresses in the renderers, in
    /// their order, up to the first failure; the region, the picture and
    /// the projection are left as they are. This is the first pass, in
    /// which properties play no part: the renderers after it and the
    /// outcome are what [`list_resolved`] says for a bag that holds none.
    /// As far as the outcome is settled before anything is loaded (see
    /// [`owed_fetch`]), that is the outcome, and nothing is changed. Every
    /// renderer keeps where it comes from, and a renderer that needs
    /// nothing is left as it is.
    fn fetch<S: StyleSource>(&mut self, source: &S, depth: usize) -> (r: Result<(), String>)
        ensures
            owed_fetch(list_first(old(self).renderers, Phase::Fetch), depth) matches Some(v)
                ==> outcome_view(r) == v && *final(self) == *old(self),
            list_kept(old(self).renderers@, final(self).renderers@, Phase::Fetch),
            final(self).region == old(self).region,
            final(self).pixel_option == old(self).pixel_option,
            final(self).tile_proj == old(self).tile_proj,
            final(self).need_proj_geom == old(self).need_proj_geom,
    {
        let props = Properties::new();
        proof {
            lemma_owed_fetch(list_first(self.renderers, Phase::Fetch), props, depth);
        }
        let r = resolve_list(&mut self.renderers, Phase::Fetch, &props, source, depth);
        assert(bare(props));
        r
    }
}

impl RenderOption {
    /// The rectangle of the region in the projection of the tiles.
    pub fn get_region_rect<F: Fn(&RenderRegion, &TileProj) -> Rect>(&self, frame: &F) -> (r:
        Option<Rect>)
        requires
            self.region.is_worked_out() ==> frame.requires((&self.region, &self.tile_proj)),
        ensures
            match self.region {
                RenderRegion::All => r is None,
                RenderRegion::Rect(rect) => r == Some(rect),
                _ => r matches Some(rect) && frame.ensures((&self.region, &self.tile_proj), rect),
            },
    {
        self.region.get_rect(&self.tile_proj, frame)
    }

    /// The width and the height of the picture in pixels.
    pub fn get_pixel_size(&self) -> (r: (u32, u32))
        ensures
            r == (self.pixel_option.width, self.pixel_option.height),
    {
        (self.pixel_option.width, self.pixel_option.height)
    }

    /// The bytes of one row of the picture, rounded up to a multiple of 256.
    pub fn get_padded_byte_width(&self) -> (r: u32)
        requires
            self.pixel_option.width <= MAX_PADDED_WIDTH,
        ensures
            r == padded_row_bytes(self.pixel_option.width),
            r % 256 == 0,
            r >= row_bytes(self.pixel_option.width),
            r < row_bytes(self.pixel_option.width) + 256,
    {
        let bytes: u32 = self.pixel_option.width * 4;
        ((bytes + 255) / 256) * 256
    }

    /// The bytes of one row of the picture, rounded up to a multiple of 256,
    /// or none where that does not fit 32 bits.
    pub fn checked_padded_byte_width(&self) -> (r: Option<u32>)
        ensures
            match r {
                Some(bytes) => self.pixel_option.width <= MAX_PADDED_WIDTH && bytes
                    == padded_row_bytes(self.pixel_option.width),
                None => self.pixel_option.width > MAX_PADDED_WIDTH,
            },
    {
        if self.pixel_option.width <= MAX_PADDED_WIDTH {
            Some(self.get_padded_byte_width())
        } else {
            None
        }
    }

    /// The bytes of a buffer that holds every padded row of the picture.
    pub fn get_buffer_size(&self) -> (r: u64)
        requires
            self.pixel_option.width <= MAX_PADDED_WIDTH,
        ensures
            r == padded_row_bytes(self.pixel_option.width) * self.pixel_option.height,
    {
        let padded: u64 = self.get_padded_byte_width() as u64;
        let height: u64 = self.pixel_option.height as u64;
        assert(padded * height <= 0xffff_ffff * 0xffff_ffff) by (nonlinear_arith)
            requires
                padded <= 0xffff_ffff,
                height <= 0xffff_ffff,
        ;
        padded * height
    }
}

} // verus!
