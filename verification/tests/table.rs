use imgcatr::ops::create_colourtable;
use imgcatr::pixels::{PixelBuffer, Rgb, Rgba};

fn opaque(r: u8, g: u8, b: u8) -> Rgba {
    Rgba { r, g, b, a: 255 }
}

#[test]
fn two_by_two_image_matches_exactly() {
    let pixels = vec![
        opaque(0, 0, 0),
        opaque(255, 255, 255),
        opaque(255, 255, 255),
        opaque(0, 0, 0),
    ];
    let img = PixelBuffer::new(2, 2, pixels).unwrap();
    let pal = [
        Rgb { r: 0, g: 0, b: 0 },
        Rgb { r: 255, g: 255, b: 255 },
    ];
    let table = create_colourtable(&img, &pal, &pal);
    assert_eq!(table, vec![vec![(0usize, 1usize), (1usize, 0usize)]]);
}

#[test]
fn upper_and_lower_palettes_are_matched_separately() {
    let pixels = vec![opaque(200, 0, 0), opaque(200, 0, 0)];
    let img = PixelBuffer::new(1, 2, pixels).unwrap();
    let upper = [
        Rgb { r: 255, g: 0, b: 0 },
        Rgb { r: 0, g: 0, b: 255 },
    ];
    let lower = [
        Rgb { r: 0, g: 0, b: 255 },
        Rgb { r: 255, g: 0, b: 0 },
    ];
    let table = create_colourtable(&img, &upper, &lower);
    assert_eq!(table, vec![vec![(0usize, 1usize)]]);
}

#[test]
fn odd_trailing_row_is_ignored() {
    let pixels = vec![
        opaque(0, 0, 0),
        opaque(255, 255, 255),
        opaque(9, 9, 9),
    ];
    let img = PixelBuffer::new(1, 3, pixels).unwrap();
    let pal = [
        Rgb { r: 0, g: 0, b: 0 },
        Rgb { r: 255, g: 255, b: 255 },
    ];
    let table = create_colourtable(&img, &pal, &pal);
    assert_eq!(table, vec![vec![(0usize, 1usize)]]);
}

#[test]
fn building_twice_yields_identical_tables() {
    let pixels = vec![
        opaque(13, 37, 73),
        opaque(200, 150, 100),
        opaque(0, 255, 128),
        opaque(128, 0, 255),
    ];
    let img = PixelBuffer::new(2, 2, pixels).unwrap();
    let upper = imgcatr::util::ansi_colours_white_bg();
    let lower = imgcatr::util::ansi_colours_black_bg();
    let first = create_colourtable(&img, &upper, &lower);
    let second = create_colourtable(&img, &upper, &lower);
    assert_eq!(first, second);
}

#[test]
fn pixel_buffer_validates_its_dimensions() {
    assert!(PixelBuffer::new(2, 2, vec![opaque(0, 0, 0); 4]).is_some());
    assert!(PixelBuffer::new(2, 2, vec![opaque(0, 0, 0); 3]).is_none());
    assert!(PixelBuffer::new(0, 0, vec![]).is_some());
    let img = PixelBuffer::new(3, 1, vec![opaque(1, 2, 3); 3]).unwrap();
    assert_eq!(img.dimensions(), (3, 1));
    assert_eq!(img.get_pixel(2, 0), opaque(1, 2, 3));
}
