use imgcatr::pixels::Rgb;
use imgcatr::util::{
    ansi_colours_black_bg, ansi_colours_white_bg, bg_colours_for, closest_colour, mul_str,
};

#[test]
fn palette_entry_is_its_own_closest_match() {
    // Neither stock palette holds a duplicate colour, so matching any entry
    // against its palette must give that entry's index back.
    let white = ansi_colours_white_bg();
    for i in 0..white.len() {
        assert_eq!(closest_colour(white[i], &white), i);
    }
    let black = ansi_colours_black_bg();
    for i in 0..black.len() {
        assert_eq!(closest_colour(black[i], &black), i);
    }
}

#[test]
fn ties_break_to_the_lowest_index() {
    let pal = [
        Rgb { r: 10, g: 20, b: 30 },
        Rgb { r: 10, g: 20, b: 30 },
        Rgb { r: 200, g: 200, b: 200 },
    ];
    assert_eq!(closest_colour(Rgb { r: 10, g: 20, b: 30 }, &pal), 0);
}

#[test]
fn near_miss_lands_on_the_nearest_entry() {
    let pal = [
        Rgb { r: 0, g: 0, b: 0 },
        Rgb { r: 255, g: 255, b: 255 },
    ];
    assert_eq!(closest_colour(Rgb { r: 10, g: 5, b: 0 }, &pal), 0);
    assert_eq!(closest_colour(Rgb { r: 250, g: 240, b: 255 }, &pal), 1);
}

#[test]
fn background_palette_is_the_first_eight_entries() {
    let white = ansi_colours_white_bg();
    let bg = bg_colours_for(&white);
    assert_eq!(bg.len(), 8);
    assert_eq!(bg, &white[0..8]);
}

#[test]
fn repeating_a_string() {
    assert_eq!(mul_str("ab", 3), "ababab".to_string());
    assert_eq!(mul_str("x", 0), "".to_string());
    assert_eq!(mul_str("", 5), "".to_string());
}
