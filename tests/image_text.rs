use raycaster::image_writer::ImageWriter;

fn text_of(w: &ImageWriter) -> String {
    String::from_utf8(w.encode()).unwrap()
}

#[test]
fn single_white_pixel_text() {
    let mut w = ImageWriter::create(5, 3);
    w.set_pixel(2, 1, (255, 255, 255));
    let mut expected = String::from("P3\n5 3\n255\n");
    for i in 0..15 {
        if i == 11 {
            expected.push_str("255 255 255\n");
        } else {
            expected.push_str("0 0 0\n");
        }
    }
    assert_eq!(text_of(&w), expected);
}

#[test]
fn fresh_image_is_black() {
    let w = ImageWriter::create(2, 2);
    assert_eq!(text_of(&w), "P3\n2 2\n255\n0 0 0\n0 0 0\n0 0 0\n0 0 0\n");
    assert_eq!(w.pixel(1, 1), (0, 0, 0));
    assert_eq!(w.width(), 2);
    assert_eq!(w.height(), 2);
}

#[test]
fn empty_image_has_only_header() {
    let w = ImageWriter::create(0, 0);
    assert_eq!(text_of(&w), "P3\n0 0\n255\n");
}

#[test]
fn multi_digit_sizes_and_channels() {
    let mut w = ImageWriter::create(500, 300);
    w.set_pixel(0, 0, (7, 10, 100));
    let text = text_of(&w);
    assert!(text.starts_with("P3\n500 300\n255\n7 10 100\n0 0 0\n"));
    assert_eq!(text.lines().count(), 3 + 500 * 300);
}

#[test]
fn set_pixel_touches_one_cell() {
    let mut w = ImageWriter::create(3, 2);
    w.set_pixel(1, 2, (1, 2, 3));
    w.set_pixel(0, 1, (9, 8, 7));
    w.set_pixel(0, 1, (4, 5, 6));
    assert_eq!(w.pixel(1, 2), (1, 2, 3));
    assert_eq!(w.pixel(0, 1), (4, 5, 6));
    assert_eq!(w.pixel(0, 0), (0, 0, 0));
    assert_eq!(w.pixel(1, 1), (0, 0, 0));
    assert_eq!(
        text_of(&w),
        "P3\n3 2\n255\n0 0 0\n4 5 6\n0 0 0\n0 0 0\n0 0 0\n1 2 3\n"
    );
}
