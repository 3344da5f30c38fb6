use imgcatr::ops::image_resized_size;

#[test]
fn wide_source_fits_the_box_preserving_aspect() {
    // 100x50 into a 40x25-cell terminal: the box is 40x50 pixels; the 2:1
    // source is width-bound, so the plan is 40x20.
    assert_eq!(image_resized_size((100, 50), (40, 25), true), (40, 20));
}

#[test]
fn tall_source_is_height_bound() {
    // 50x100 into the same box: height binds, scale 1/2, plan 25x50.
    assert_eq!(image_resized_size((50, 100), (40, 25), true), (25, 50));
}

#[test]
fn without_aspect_preservation_the_plan_is_the_doubled_grid() {
    assert_eq!(image_resized_size((123, 456), (40, 25), false), (40, 50));
    assert_eq!(image_resized_size((1, 1), (40, 25), false), (40, 50));
    assert_eq!(image_resized_size((9999, 3), (80, 24), false), (80, 48));
}

#[test]
fn exact_fit_is_kept() {
    // The source already has the box's 40:50 shape.
    assert_eq!(image_resized_size((4, 5), (40, 25), true), (40, 50));
}
