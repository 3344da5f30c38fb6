use imgcatr::ops::{format_from_extension, format_from_magic, guess_format, FormatTag};
use imgcatr::Error;

#[test]
fn extension_table_maps_every_supported_extension() {
    let cases: &[(&str, FormatTag)] = &[
        ("png", FormatTag::Png),
        ("jpg", FormatTag::Jpeg),
        ("jpeg", FormatTag::Jpeg),
        ("jpe", FormatTag::Jpeg),
        ("jif", FormatTag::Jpeg),
        ("jfif", FormatTag::Jpeg),
        ("jfi", FormatTag::Jpeg),
        ("gif", FormatTag::Gif),
        ("webp", FormatTag::WebP),
        ("ppm", FormatTag::Pnm),
        ("tiff", FormatTag::Tiff),
        ("tif", FormatTag::Tiff),
        ("tga", FormatTag::Tga),
        ("bmp", FormatTag::Bmp),
        ("dib", FormatTag::Bmp),
        ("ico", FormatTag::Ico),
        ("hdr", FormatTag::Hdr),
    ];
    for (ext, tag) in cases {
        assert_eq!(format_from_extension(ext), Some(*tag));
    }
}

#[test]
fn extension_match_is_case_insensitive() {
    assert_eq!(format_from_extension("PNG"), Some(FormatTag::Png));
    assert_eq!(format_from_extension("JpEg"), Some(FormatTag::Jpeg));
    assert_eq!(format_from_extension("TIF"), Some(FormatTag::Tiff));
}

#[test]
fn unknown_extension_maps_to_nothing() {
    assert_eq!(format_from_extension("txt"), None);
    assert_eq!(format_from_extension(""), None);
    assert_eq!(format_from_extension("pngx"), None);
}

#[test]
fn extension_is_authoritative_without_touching_contents() {
    // A correctly-named file that does not exist: the prefix is never needed.
    let name = String::from("no_such_file.png");
    let r = guess_format(&name, Some("png"), None);
    assert!(matches!(r, Ok(FormatTag::Png)));
}

#[test]
fn magic_prefixes_identify_the_five_sniffable_formats() {
    let png = [0x89u8, 0x50, 0x4E, 0x47, 0x0D, 0x0A, 0x1A, 0x0A, 0, 0, 0, 0];
    let jpeg = [0xFFu8, 0xD8, 0xFF, 0xE0, 1, 2, 3];
    let gif = [0x47u8, 0x49, 0x46, 0x38, 0x39];
    let bmp = [0x42u8, 0x4D, 9];
    let ico = [0x00u8, 0x00, 0x01, 0x00];
    assert_eq!(format_from_magic(&png), Some(FormatTag::Png));
    assert_eq!(format_from_magic(&jpeg), Some(FormatTag::Jpeg));
    assert_eq!(format_from_magic(&gif), Some(FormatTag::Gif));
    assert_eq!(format_from_magic(&bmp), Some(FormatTag::Bmp));
    assert_eq!(format_from_magic(&ico), Some(FormatTag::Ico));
    assert_eq!(format_from_magic(b"hello world"), None);
    assert_eq!(format_from_magic(&[]), None);
    // Too short a prefix does not match.
    assert_eq!(format_from_magic(&[0x89u8, 0x50]), None);
}

#[test]
fn magic_fallback_sniffs_a_png_prefix() {
    let name = String::from("mystery_file");
    let prefix = [0x89u8, 0x50, 0x4E, 0x47, 0x0D, 0x0A, 0x1A, 0x0A, 0xAA, 0xBB];
    let r = guess_format(&name, None, Some(&prefix));
    assert!(matches!(r, Ok(FormatTag::Png)));
    // An unrecognised extension falls through to the magic bytes too.
    let r = guess_format(&name, Some("dat"), Some(&prefix));
    assert!(matches!(r, Ok(FormatTag::Png)));
}

#[test]
fn neither_extension_nor_magic_fails_the_guess() {
    let name = String::from("src/ops.rs");
    let r = guess_format(&name, Some("rs"), Some(b"use vstd::prelude::*;"));
    match r {
        Err(Error::GuessingFormatFailed(n)) => assert_eq!(n, "src/ops.rs"),
        _ => panic!("expected a format-guess failure"),
    }
}

#[test]
fn unopenable_file_fails_the_open_way() {
    let name = String::from("gone.img");
    let r = guess_format(&name, Some("img"), None);
    match r {
        Err(Error::OpeningImageFailed(n)) => assert_eq!(n, "gone.img"),
        _ => panic!("expected an open failure"),
    }
}
