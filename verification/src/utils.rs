//! Small helpers shared by the rest of the crate.
use crate::render_option::TileProj;
use vstd::prelude::*;
use vstd::std_specs::cmp::PartialEqSpec;

verus! {

/// Whether a value equals the default of its type.
pub fn is_default<T: Default + PartialEq>(value: &T) -> (r: bool)
    ensures
        T::obeys_eq_spec() ==> exists|d: T|
            call_ensures(T::default, (), d) && r == #[trigger] value.eq_spec(&d),
{
    let d = T::default();
    *value == d
}

/// What the numbers of a tile's rectangle count.
#[derive(Clone, Copy, Debug, PartialEq, Eq, Structural)]
pub enum TileUnit {
    /// Degrees of longitude and latitude.
    Degree,
    /// Half the length of the equator of a sphere of radius 6378137, which
    /// is that radius times pi.
    HalfEquator,
}

/// The rectangle of a tile in exact numbers, in the unit named: an ordinate
/// east and west is `origin_x` plus its number here over `2^zoom`, an
/// ordinate north and south is `origin_y` plus its number here over
/// `2^zoom`.
#[derive(Clone, Copy, Debug, PartialEq, Eq, Structural)]
pub struct TileRect {
    pub origin_x: i64,
    pub origin_y: i64,
    pub min_x: i64,
    pub min_y: i64,
    pub max_x: i64,
    pub max_y: i64,
    pub zoom: u32,
    pub unit: TileUnit,
}

/// The rectangle of a tile in EPSG:4326, in degrees, counted from the north
/// west corner of the map at 180 degrees west and 90 degrees north.
///
/// At zoom `z` there are `2^(z+1)` columns of `360 / 2^(z+1)` degrees,
/// which is `180 / 2^z`, and `2^z` rows of as many degrees, counted from the
/// west and from the north. At zoom 0 the two columns are the two
/// hemispheres whatever the row, and every other column gives a rectangle
/// off the map, from 182 to 181 degrees west and from 92 to 91 degrees
/// south.
pub open spec fn tile_4326(x: u32, y: u32, z: u32) -> TileRect {
    if z == 0 && x > 1 {
        TileRect {
            origin_x: (-180) as i64,
            origin_y: 90,
            min_x: (-2) as i64,
            min_y: (-182) as i64,
            max_x: (-1) as i64,
            max_y: (-181) as i64,
            zoom: 0,
            unit: TileUnit::Degree,
        }
    } else {
        let row: int = if z == 0 {
            0
        } else {
            y as int
        };
        TileRect {
            origin_x: (-180) as i64,
            origin_y: 90,
            min_x: (180 * x) as i64,
            min_y: (-180 * row - 180) as i64,
            max_x: (180 * x + 180) as i64,
            max_y: (-180 * row) as i64,
            zoom: z,
            unit: TileUnit::Degree,
        }
    }
}

/// The rectangle of a tile in EPSG:3857, in half equators, counted from
/// the north west corner of the map: at zoom `z` there are `2^z` columns and
/// as many rows, each two half equators over `2^z` wide and high.
pub open spec fn tile_3857(x: u32, y: u32, z: u32) -> TileRect {
    TileRect {
        origin_x: (-1) as i64,
        origin_y: 1,
        min_x: (2 * x) as i64,
        min_y: (-2 * y - 2) as i64,
        max_x: (2 * x + 2) as i64,
        max_y: (-2 * y) as i64,
        zoom: z,
        unit: TileUnit::HalfEquator,
    }
}

/// The rectangle of a tile in EPSG:4326, for every column, row and zoom.
pub fn get_rect_from_xyz_4326(x: u32, y: u32, z: u32) -> (r: TileRect)
    ensures
        r == tile_4326(x, y, z),
{
    if z == 0 && x > 1 {
        return TileRect {
            origin_x: -180,
            origin_y: 90,
            min_x: -2,
            min_y: -182,
            max_x: -1,
            max_y: -181,
            zoom: 0,
            unit: TileUnit::Degree,
        };
    }
    let row: i64 = if z == 0 {
        0
    } else {
        y as i64
    };
    let min_x: i64 = 180 * (x as i64);
    let max_y: i64 = -180 * row;
    TileRect {
        origin_x: -180,
        origin_y: 90,
        min_x,
        min_y: max_y - 180,
        max_x: min_x + 180,
        max_y,
        zoom: z,
        unit: TileUnit::Degree,
    }
}

/// The rectangle of a tile in EPSG:3857, for every column, row and zoom.
pub fn get_rect_from_xyz_3857(x: u32, y: u32, z: u32) -> (r: TileRect)
    ensures
        r == tile_3857(x, y, z),
{
    let min_x: i64 = 2 * (x as i64);
    let max_y: i64 = -2 * (y as i64);
    TileRect {
        origin_x: -1,
        origin_y: 1,
        min_x,
        min_y: max_y - 2,
        max_x: min_x + 2,
        max_y,
        zoom: z,
        unit: TileUnit::HalfEquator,
    }
}

/// The rectangle of a tile in a projection, for every column, row and zoom.
pub fn get_rect_from_xyz(x: u32, y: u32, z: u32, proj: &TileProj) -> (r: TileRect)
    ensures
        r == (match *proj {
            TileProj::EPSG3857 => tile_3857(x, y, z),
            TileProj::EPSG4326 => tile_4326(x, y, z),
        }),
{
    match proj {
        TileProj::EPSG3857 => get_rect_from_xyz_3857(x, y, z),
        TileProj::EPSG4326 => get_rect_from_xyz_4326(x, y, z),
    }
}

/// At zoom 0 the first tile of EPSG:4326 is the western hemisphere, from
/// -180 to 0 degrees and from -90 to 90, and the second the eastern, from 0
/// to 180 degrees and from -90 to 90, whatever the row.
pub proof fn lemma_hemispheres(y: u32)
    ensures
        ({
            let west = tile_4326(0, y, 0);
            &&& west.unit == TileUnit::Degree
            &&& west.zoom == 0
            &&& west.origin_x + west.min_x == -180
            &&& west.origin_y + west.min_y == -90
            &&& west.origin_x + west.max_x == 0
            &&& west.origin_y + west.max_y == 90
        }),
        ({
            let east = tile_4326(1, y, 0);
            &&& east.unit == TileUnit::Degree
            &&& east.zoom == 0
            &&& east.origin_x + east.min_x == 0
            &&& east.origin_y + east.min_y == -90
            &&& east.origin_x + east.max_x == 180
            &&& east.origin_y + east.max_y == 90
        }),
{
}

/// From zoom 1 on, every tile of EPSG:4326 is 360 degrees over `2^(z+1)`
/// wide, which is 180 over `2^z`, and 180 degrees over `2^z` high; its west
/// edge lies `x` such widths east of 180 degrees west, and its north edge
/// `y` such heights south of 90 degrees north.
pub proof fn lemma_degree_tile_spans(x: u32, y: u32, z: u32)
    requires
        z >= 1,
    ensures
        ({
            let tile = tile_4326(x, y, z);
            &&& tile.unit == TileUnit::Degree
            &&& tile.zoom == z
            &&& tile.max_x - tile.min_x == 180
            &&& tile.max_y - tile.min_y == 180
            &&& tile.origin_x == -180 && tile.min_x == x * 180
            &&& tile.origin_y == 90 && tile.max_y == -(y * 180)
        }),
{
}

/// Every tile of EPSG:3857 is a square whose side is two half equators
/// over `2^z`, that is `2 * 6378137 * pi / 2^z`; its west edge lies `x`
/// sides east of the west edge of the map, and its north edge `y` sides
/// south of the north edge.
pub proof fn lemma_mercator_tile_is_square(x: u32, y: u32, z: u32)
    ensures
        ({
            let tile = tile_3857(x, y, z);
            &&& tile.unit == TileUnit::HalfEquator
            &&& tile.zoom == z
            &&& tile.max_x - tile.min_x == 2
            &&& tile.max_y - tile.min_y == 2
            &&& tile.origin_x == -1 && tile.min_x == x * 2
            &&& tile.origin_y == 1 && tile.max_y == -(y * 2)
        }),
{
}

} // verus!
