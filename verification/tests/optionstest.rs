use imgcatr::{AnsiOutputFormat, Options};

#[test]
fn sizes_parse_around_the_first_separator() {
    assert_eq!(Options::parse_size("123x45"), Some((123, 45)));
    assert_eq!(Options::parse_size("800X600"), Some((800, 600)));
    assert_eq!(Options::parse_size("0x5"), Some((0, 5)));
    assert_eq!(Options::parse_size("007x042"), Some((7, 42)));
    assert_eq!(Options::parse_size("4294967295x1"), Some((4294967295, 1)));
}

#[test]
fn malformed_sizes_do_not_parse() {
    assert_eq!(Options::parse_size(""), None);
    assert_eq!(Options::parse_size("12"), None);
    assert_eq!(Options::parse_size("axb"), None);
    assert_eq!(Options::parse_size("12x"), None);
    assert_eq!(Options::parse_size("x12"), None);
    assert_eq!(Options::parse_size("1x2x3"), None);
    assert_eq!(Options::parse_size("12 x34"), None);
    assert_eq!(Options::parse_size("4294967296x1"), None);
    assert_eq!(Options::parse_size("-3x4"), None);
}

#[test]
fn the_size_validator_reports_each_rejection() {
    assert_eq!(Options::size_validator("10x20"), Ok((10, 20)));
    assert_eq!(
        Options::size_validator("abc"),
        Err("\"abc\" is not a valid size (in format \"NNNxMMM\")".to_string())
    );
    assert_eq!(
        Options::size_validator("0x5"),
        Err("Can't resize image to size 0".to_string())
    );
    assert_eq!(
        Options::size_validator("5x0"),
        Err("Can't resize image to size 0".to_string())
    );
}

#[test]
fn options_carry_plain_configuration_values() {
    let opts = Options {
        image: ("img.png".to_string(), "/tmp/img.png".to_string()),
        size: (80, 24),
        preserve_aspect: true,
        ansi_out: Some(AnsiOutputFormat::Truecolor),
    };
    assert_eq!(opts.image.0, "img.png");
    assert_eq!(opts.size, (80, 24));
    assert!(opts.preserve_aspect);
    assert_eq!(opts.ansi_out, Some(AnsiOutputFormat::Truecolor));
}
