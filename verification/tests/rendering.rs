use imgcatr::ops::{
    get_str_ascii, render_ansi, render_ansi_truecolor, render_ascii, write_ansi,
    write_ansi_truecolor, write_no_ansi,
};
use imgcatr::ops::{console_cell_attribute, rgb_from_console_colour};
use imgcatr::pixels::{PixelBuffer, Rgb, Rgba};
use imgcatr::util::ansi_colours_white_bg;
use imgcatr::Error;

fn opaque(r: u8, g: u8, b: u8) -> Rgba {
    Rgba { r, g, b, a: 255 }
}

#[test]
fn ascii_ramp_ends() {
    assert_eq!(get_str_ascii(0), " ");
    assert_eq!(get_str_ascii(31), " ");
    assert_eq!(get_str_ascii(32), ".");
    assert_eq!(get_str_ascii(64), ",");
    assert_eq!(get_str_ascii(96), "-");
    assert_eq!(get_str_ascii(128), "~");
    assert_eq!(get_str_ascii(160), "+");
    assert_eq!(get_str_ascii(192), "=");
    assert_eq!(get_str_ascii(224), "@");
    assert_eq!(get_str_ascii(255), "@");
}

#[test]
fn transparency_renders_blank_whatever_the_colour() {
    let img = PixelBuffer::new(2, 1, vec![
        Rgba { r: 255, g: 255, b: 255, a: 0 },
        Rgba { r: 255, g: 255, b: 255, a: 255 },
    ])
    .unwrap();
    assert_eq!(render_ascii(&img), " @\n");
}

#[test]
fn solid_white_two_by_two_renders_one_bright_row() {
    let img = PixelBuffer::new(2, 2, vec![opaque(255, 255, 255); 4]).unwrap();
    assert_eq!(render_ascii(&img), "@@\n");
}

#[test]
fn ascii_skips_odd_rows() {
    let img = PixelBuffer::new(1, 4, vec![
        opaque(255, 255, 255),
        opaque(0, 0, 0),
        opaque(0, 0, 0),
        opaque(255, 255, 255),
    ])
    .unwrap();
    // Rows 0 and 2 are emitted; rows 1 and 3 are skipped, not merged.
    assert_eq!(render_ascii(&img), "@\n \n");
}

#[test]
fn truecolor_renders_literal_channels() {
    let img = PixelBuffer::new(1, 2, vec![opaque(1, 2, 3), opaque(200, 100, 0)]).unwrap();
    assert_eq!(
        render_ansi_truecolor(&img),
        "\x1B[38;2;1;2;3m\x1B[48;2;200;100;0m\u{2580}\x1B[0m\n"
    );
}

#[test]
fn truecolor_write_goes_through_a_sink() {
    let img = PixelBuffer::new(1, 2, vec![opaque(0, 0, 0), opaque(255, 255, 255)]).unwrap();
    let mut sink: Vec<u8> = Vec::new();
    write_ansi_truecolor(&mut sink, &img);
    assert_eq!(
        String::from_utf8(sink).unwrap(),
        "\x1B[38;2;0;0;0m\x1B[48;2;255;255;255m\u{2580}\x1B[0m\n"
    );
}

#[test]
fn simple_ansi_emits_escapes_keyed_by_matched_indices() {
    let pal = ansi_colours_white_bg();
    // The upper pixel is exactly entry 0, the lower exactly entry 1 (which
    // also sits in the 8-entry background palette).
    let img = PixelBuffer::new(1, 2, vec![
        opaque(0xEE, 0xE8, 0xD5),
        opaque(0xDC, 0x32, 0x2F),
    ])
    .unwrap();
    assert_eq!(render_ansi(&img, &pal), "\x1B[0;30m\x1B[41m\u{2580}\x1B[0m\n");
    let mut sink: Vec<u8> = Vec::new();
    write_ansi(&mut sink, &img, &pal);
    assert_eq!(
        String::from_utf8(sink).unwrap(),
        "\x1B[0;30m\x1B[41m\u{2580}\x1B[0m\n"
    );
}

#[test]
fn console_attribute_packs_the_nibbles() {
    assert_eq!(console_cell_attribute(0xABCD, 3, 5), 0xAB53);
    assert_eq!(console_cell_attribute(0x0000, 15, 15), 0x00FF);
    assert_eq!(console_cell_attribute(0xFF00, 0, 0), 0xFF00);
}

#[test]
fn console_colour_entries_decode_low_byte_first() {
    let c = rgb_from_console_colour(0x0012_3456);
    assert_eq!(c, Rgb { r: 0x56, g: 0x34, b: 0x12 });
}

#[test]
fn the_console_grid_renderer_is_a_no_op_here() {
    let img = PixelBuffer::new(1, 2, vec![opaque(1, 2, 3), opaque(4, 5, 6)]).unwrap();
    write_no_ansi(&img);
}

#[test]
fn error_reports_name_the_file() {
    let e = Error::GuessingFormatFailed("not_image.rs".to_string());
    assert_eq!(e.error_message(), "Failed to guess format of \"not_image.rs\".");
    let mut out: Vec<u8> = Vec::new();
    e.print_error(&mut out);
    assert_eq!(
        String::from_utf8(out).unwrap(),
        "Failed to guess format of \"not_image.rs\".\n"
    );
    let o = Error::OpeningImageFailed("img.png".to_string());
    assert_eq!(o.error_message(), "Failed to open image file \"img.png\".");
}

#[test]
fn exit_values_tell_the_two_failures_apart() {
    assert_eq!(Error::GuessingFormatFailed(String::new()).exit_value(), 1);
    assert_eq!(Error::OpeningImageFailed(String::new()).exit_value(), 2);
}
