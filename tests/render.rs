use raycaster::image_writer::Pixel;
use raycaster::raster::render;

fn diagonal(row: usize, col: usize) -> Option<Pixel> {
    if row == col {
        Some((row as u8 * 10, 0, 255))
    } else {
        None
    }
}

#[test]
fn render_writes_hits_and_keeps_background() {
    let img = render(3, 2, diagonal);
    assert_eq!(img.width(), 3);
    assert_eq!(img.height(), 2);
    assert_eq!(img.pixel(0, 0), (0, 0, 255));
    assert_eq!(img.pixel(1, 1), (10, 0, 255));
    assert_eq!(img.pixel(0, 1), (0, 0, 0));
    assert_eq!(img.pixel(1, 2), (0, 0, 0));
}

#[test]
fn render_passes_row_and_column() {
    let img = render(4, 3, |r: usize, c: usize| Some((r as u8, c as u8, 0)));
    for r in 0..3 {
        for c in 0..4 {
            assert_eq!(img.pixel(r, c), (r as u8, c as u8, 0));
        }
    }
}

#[test]
fn render_twice_gives_identical_bytes() {
    let shade = |r: usize, c: usize| {
        let d = ((r * r + c * c) as f64).sqrt();
        if d < 3.0 {
            Some(((255.0 / (d + 1.0)) as u8, 0, 0))
        } else {
            None
        }
    };
    let a = render(6, 5, shade).encode();
    let b = render(6, 5, shade).encode();
    assert_eq!(a, b);
}

#[test]
fn render_with_no_hits_is_black() {
    let img = render(2, 1, |_r: usize, _c: usize| None);
    assert_eq!(String::from_utf8(img.encode()).unwrap(), "P3\n2 1\n255\n0 0 0\n0 0 0\n");
}
