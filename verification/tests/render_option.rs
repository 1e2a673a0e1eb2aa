use geello::geometry::{Coord, Rect};
use geello::render::{render_to_buffer, unpad_rows};
use geello::render_option::{
    Color, PixelOption, RenderOption, RenderRegion, TileProj, MAX_PADDED_WIDTH,
};

fn c(x: f64, y: f64) -> Coord {
    Coord::new(x.to_bits(), y.to_bits())
}

fn option(width: u32, height: u32) -> RenderOption {
    let mut option = RenderOption::default();
    option.pixel_option.width = width;
    option.pixel_option.height = height;
    option
}

fn frame(region: &RenderRegion, _: &TileProj) -> Rect {
    match region {
        RenderRegion::PointBuffer(x, y, z) => {
            let (x, y, z) = (f64::from_bits(*x), f64::from_bits(*y), f64::from_bits(*z));
            Rect::new(c(x - z, y + z), c(x + z, y - z))
        }
        _ => Rect::new(c(-180.0, -90.0), c(0.0, 90.0)),
    }
}

#[test]
fn the_default_picture_is_transparent_and_256_pixels_square() {
    let pixels = PixelOption::default();
    assert_eq!(pixels.width, 256);
    assert_eq!(pixels.height, 256);
    assert_eq!(pixels.base_color, Color::transparent());
    assert_eq!(
        Color::transparent(),
        Color {
            red: 0.0f32.to_bits(),
            green: 0.0f32.to_bits(),
            blue: 0.0f32.to_bits(),
            alpha: 0.0f32.to_bits()
        }
    );
}

#[test]
fn the_default_style_renders_everything_in_degrees() {
    let option = RenderOption::default();
    assert_eq!(option.region, RenderRegion::All);
    assert_eq!(option.tile_proj, TileProj::EPSG4326);
    assert!(option.renderers.is_empty());
    assert!(!option.need_proj_geom);
    assert_eq!(option.get_pixel_size(), (256, 256));
}

#[test]
fn all_has_no_rect_and_a_rect_is_itself() {
    let rect = Rect::new(c(0.0, 0.0), c(1.0, 1.0));
    assert_eq!(RenderRegion::All.get_rect(&TileProj::EPSG4326, &frame), None);
    assert_eq!(RenderRegion::Rect(rect).get_rect(&TileProj::EPSG3857, &frame), Some(rect));
}

#[test]
fn a_tile_and_a_square_round_a_point_are_worked_out_by_the_caller() {
    assert_eq!(
        RenderRegion::TileIndex(0, 0, 0).get_rect(&TileProj::EPSG4326, &frame),
        Some(Rect::new(c(-180.0, -90.0), c(0.0, 90.0)))
    );
    let buffer = RenderRegion::PointBuffer(10.0f64.to_bits(), 20.0f64.to_bits(), 2.0f64.to_bits());
    let mut option = RenderOption::default();
    option.region = buffer;
    assert_eq!(option.get_region_rect(&frame), Some(Rect::new(c(8.0, 18.0), c(12.0, 22.0))));
}

#[test]
fn a_row_is_padded_to_a_multiple_of_256_bytes() {
    assert_eq!(option(0, 1).get_padded_byte_width(), 0);
    assert_eq!(option(1, 1).get_padded_byte_width(), 256);
    assert_eq!(option(64, 1).get_padded_byte_width(), 256);
    assert_eq!(option(65, 1).get_padded_byte_width(), 512);
    assert_eq!(option(256, 1).get_padded_byte_width(), 1024);
    assert_eq!(option(300, 1).get_padded_byte_width(), 1280);
}

#[test]
fn padding_agrees_with_the_standard_rounding() {
    for width in [0u32, 1, 63, 64, 65, 100, 255, 256, 1000, MAX_PADDED_WIDTH] {
        assert_eq!(option(width, 1).get_padded_byte_width(), (width * 4).next_multiple_of(256));
        assert_eq!(
            option(width, 1).checked_padded_byte_width(),
            Some((width * 4).next_multiple_of(256))
        );
    }
    assert_eq!(option(MAX_PADDED_WIDTH + 1, 1).checked_padded_byte_width(), None);
    assert_eq!(option(u32::MAX, 1).checked_padded_byte_width(), None);
}

#[test]
fn the_buffer_holds_every_padded_row() {
    assert_eq!(option(256, 256).get_buffer_size(), 1024 * 256);
    assert_eq!(option(100, 3).get_buffer_size(), 512 * 3);
    assert_eq!(option(100, 0).get_buffer_size(), 0);
    assert_eq!(
        option(MAX_PADDED_WIDTH, u32::MAX).get_buffer_size(),
        0xffff_ff00u64 * 0xffff_ffffu64
    );
}

#[test]
fn rows_are_taken_without_their_padding() {
    let data: Vec<u8> = (0..24u8).collect();
    assert_eq!(
        unpad_rows(&data, 1, 3, 8),
        Some(vec![0, 1, 2, 3, 8, 9, 10, 11, 16, 17, 18, 19])
    );
    assert_eq!(unpad_rows(&data, 2, 3, 8), Some(data.clone()));
    assert_eq!(unpad_rows(&data, 1, 0, 8), Some(vec![]));
    assert_eq!(unpad_rows(&data, 0, 4, 8), Some(vec![]));
    assert_eq!(unpad_rows(&data, 0, 5, 8), None);
}

#[test]
fn the_last_row_need_not_be_padded() {
    let data: Vec<u8> = (0..20u8).collect();
    assert_eq!(
        unpad_rows(&data, 1, 3, 8),
        Some(vec![0, 1, 2, 3, 8, 9, 10, 11, 16, 17, 18, 19])
    );
    assert_eq!(unpad_rows(&data[..19].to_vec(), 1, 3, 8), None);
}

#[test]
fn a_buffer_too_short_gives_no_rows() {
    assert_eq!(unpad_rows(&vec![0u8; 7], 2, 1, 8), None);
    assert_eq!(unpad_rows(&vec![], 1, 1, 256), None);
    assert_eq!(unpad_rows(&vec![0u8; 16], u32::MAX, u32::MAX, u32::MAX), None);
}

#[test]
fn the_picture_is_the_rows_of_the_padded_buffer() {
    let option = option(2, 2);
    let mut data = vec![0u8; 512];
    for (i, byte) in data.iter_mut().enumerate() {
        *byte = (i % 251) as u8;
    }
    let picture = render_to_buffer(&data, &option).unwrap();
    let mut expected = data[0..8].to_vec();
    expected.extend_from_slice(&data[256..264]);
    assert_eq!(picture, expected);
    assert_eq!(picture.len(), 2 * 2 * 4);
}

#[test]
fn a_buffer_that_does_not_hold_the_picture_is_a_failure() {
    assert_eq!(
        render_to_buffer(&vec![0u8; 263], &option(2, 2)),
        Err("pixel buffer does not hold the picture".to_string())
    );
    assert_eq!(
        render_to_buffer(&vec![0u8; 16], &option(u32::MAX, 1)),
        Err("pixel buffer does not hold the picture".to_string())
    );
    assert_eq!(render_to_buffer(&vec![], &option(0, 0)), Ok(vec![]));
}

#[test]
fn rows_of_one_colour_give_a_picture_of_that_colour() {
    let option = option(3, 2);
    let colour = [10u8, 20, 30, 255];
    let mut data = vec![7u8; 512];
    for row in 0..2 {
        for k in 0..12 {
            data[row * 256 + k] = colour[k % 4];
        }
    }
    let picture = render_to_buffer(&data, &option).unwrap();
    assert_eq!(picture.len(), 3 * 2 * 4);
    for pixel in picture.chunks(4) {
        assert_eq!(pixel, colour);
    }
}
