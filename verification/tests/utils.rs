use geello::magic_value::{MagicValueKind, StrEncoding};
use geello::render_option::TileProj;
use geello::utils::{
    get_rect_from_xyz, get_rect_from_xyz_3857, get_rect_from_xyz_4326, is_default, TileRect,
    TileUnit,
};

fn ordinates(tile: &TileRect, unit: f64) -> (f64, f64, f64, f64) {
    let span = (-(tile.zoom as f64)).exp2();
    let (x, y) = (tile.origin_x as f64, tile.origin_y as f64);
    (
        (x + tile.min_x as f64 * span) * unit,
        (y + tile.min_y as f64 * span) * unit,
        (x + tile.max_x as f64 * span) * unit,
        (y + tile.max_y as f64 * span) * unit,
    )
}

fn degrees(tile: &TileRect) -> (f64, f64, f64, f64) {
    assert_eq!(tile.unit, TileUnit::Degree);
    ordinates(tile, 1.0)
}

fn metres(tile: &TileRect) -> (f64, f64, f64, f64) {
    assert_eq!(tile.unit, TileUnit::HalfEquator);
    ordinates(tile, 6378137.0 * std::f64::consts::PI)
}

fn in_doubles(x: u32, y: u32, z: u32) -> (f64, f64, f64, f64) {
    let x_n = 2u32.pow(z + 1);
    let y_n = 2u32.pow(z);
    let lon_deg = 360.0 / x_n as f64;
    let lat_deg = 180.0 / y_n as f64;
    let min_lon = x as f64 * lon_deg - 180.0;
    let max_lat = 90.0 - y as f64 * lat_deg;
    (min_lon, max_lat - lat_deg, min_lon + lon_deg, max_lat)
}

#[test]
fn the_two_tiles_of_zoom_nought_are_the_hemispheres() {
    let west = get_rect_from_xyz(0, 0, 0, &TileProj::EPSG4326);
    assert_eq!(degrees(&west), (-180.0, -90.0, 0.0, 90.0));
    let east = get_rect_from_xyz(1, 0, 0, &TileProj::EPSG4326);
    assert_eq!(degrees(&east), (0.0, -90.0, 180.0, 90.0));
}

#[test]
fn the_hemispheres_do_not_depend_on_the_row() {
    assert_eq!(get_rect_from_xyz_4326(0, 7, 0), get_rect_from_xyz_4326(0, 0, 0));
    assert_eq!(get_rect_from_xyz_4326(1, 7, 0), get_rect_from_xyz_4326(1, 0, 0));
}

#[test]
fn any_other_column_of_zoom_nought_is_off_the_map() {
    let tile = get_rect_from_xyz_4326(2, 0, 0);
    assert_eq!(degrees(&tile), (-182.0, -92.0, -181.0, -91.0));
    assert_eq!(get_rect_from_xyz_4326(9, 3, 0), tile);
    assert_eq!(get_rect_from_xyz_4326(u32::MAX, u32::MAX, 0), tile);
}

#[test]
fn degree_tiles_are_what_doubles_give() {
    for z in 1..=12u32 {
        for (x, y) in [(0, 0), (1, 0), (3, 1), (2u32.pow(z + 1) - 1, 2u32.pow(z) - 1)] {
            let tile = get_rect_from_xyz_4326(x, y, z);
            assert_eq!(degrees(&tile), in_doubles(x, y, z), "{x} {y} {z}");
        }
    }
}

#[test]
fn a_degree_tile_of_zoom_one() {
    let tile = get_rect_from_xyz_4326(3, 1, 1);
    assert_eq!(
        tile,
        TileRect {
            origin_x: -180,
            origin_y: 90,
            min_x: 540,
            min_y: -360,
            max_x: 720,
            max_y: -180,
            zoom: 1,
            unit: TileUnit::Degree
        }
    );
    assert_eq!(degrees(&tile), (90.0, -90.0, 180.0, 0.0));
}

#[test]
fn a_mercator_tile_is_a_square_of_the_right_side() {
    let half = 6378137.0 * std::f64::consts::PI;
    for z in 0..=31u32 {
        for (x, y) in [(0u32, 0u32), (1, 1), (5, 3)] {
            let tile = get_rect_from_xyz_3857(x, y, z);
            assert_eq!(tile.max_x - tile.min_x, 2);
            assert_eq!(tile.max_y - tile.min_y, 2);
            assert_eq!(tile.zoom, z);
            let (min_x, min_y, max_x, max_y) = metres(&tile);
            let side = 2.0 * half / (1u64 << z) as f64;
            assert!((max_x - min_x - side).abs() <= 1e-7);
            assert!((max_y - min_y - side).abs() <= 1e-7);
            assert!((min_x - (x as f64 * side - half)).abs() <= 1e-7);
            assert!((max_y - (half - y as f64 * side)).abs() <= 1e-7);
        }
    }
}

#[test]
fn the_mercator_tile_of_zoom_nought_is_the_world() {
    let tile = get_rect_from_xyz(0, 0, 0, &TileProj::EPSG3857);
    assert_eq!(
        tile,
        TileRect {
            origin_x: -1,
            origin_y: 1,
            min_x: 0,
            min_y: -2,
            max_x: 2,
            max_y: 0,
            zoom: 0,
            unit: TileUnit::HalfEquator
        }
    );
    let half = 6378137.0 * std::f64::consts::PI;
    assert_eq!(metres(&tile), (-half, -half, half, half));
}

#[test]
fn every_zoom_has_its_tiles() {
    let last = get_rect_from_xyz_3857(u32::MAX, u32::MAX, 31);
    assert_eq!((last.min_x, last.max_x), (8589934590, 8589934592));
    assert_eq!((last.min_y, last.max_y), (-8589934592, -8589934590));
    let deep = get_rect_from_xyz(3, 5, u32::MAX, &TileProj::EPSG3857);
    assert_eq!((deep.zoom, deep.min_x, deep.max_y), (u32::MAX, 6, -10));
    let (min_x, min_y, max_x, max_y) = metres(&deep);
    assert!(min_x.is_finite() && min_y.is_finite() && max_x.is_finite() && max_y.is_finite());
    let far = get_rect_from_xyz_4326(u32::MAX, u32::MAX, 40);
    assert_eq!((far.zoom, far.min_x, far.max_x), (40, 773094113100, 773094113280));
    assert_eq!((far.min_y, far.max_y), (-773094113280, -773094113100));
    let (west, south, east, north) = degrees(&far);
    assert!(west.is_finite() && south.is_finite() && east.is_finite() && north.is_finite());
    assert!((east - west - 180.0 / 2f64.powi(40)).abs() <= 1e-12);
    assert!((north - south - 180.0 / 2f64.powi(40)).abs() <= 1e-12);
}

#[test]
fn a_default_is_told_from_other_values() {
    assert!(is_default(&0u32));
    assert!(!is_default(&7u32));
    assert!(is_default(&false));
    assert!(is_default(&StrEncoding::Ron));
    assert!(!is_default(&StrEncoding::Json));
    assert!(is_default(&MagicValueKind::Fixed));
    assert!(!is_default(&MagicValueKind::Ron("a.ron".to_string())));
    assert!(is_default(&TileProj::EPSG4326));
    assert!(!is_default(&TileProj::EPSG3857));
}
