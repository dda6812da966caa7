//! The raster loop: one shading decision per pixel, written into a fresh image.
use vstd::prelude::*;
use crate::image_writer::{ImageView, ImageWriter, Pixel, BACKGROUND};

verus! {

/// The colour a pixel gets from its shading result: the hit colour, or the
/// background where nothing was hit.
pub open spec fn shaded(o: Option<Pixel>) -> Pixel {
    match o {
        Some(p) => p,
        None => BACKGROUND,
    }
}

/// The pixel `(row, col)` of `v` is the colour of a result that one call
/// `shade(row, col)` may return.
pub open spec fn shaded_by<F: Fn(usize, usize) -> Option<Pixel>>(
    v: ImageView,
    shade: F,
    row: int,
    col: int,
) -> bool {
    exists|o: Option<Pixel>|
        #[trigger] shade.ensures((row as usize, col as usize), o) && v.pixel_at(row, col) == shaded(
            o,
        )
}

/// `v` is a `width` by `height` image whose every pixel is shaded by `shade`.
pub open spec fn rendered_by<F: Fn(usize, usize) -> Option<Pixel>>(
    v: ImageView,
    width: usize,
    height: usize,
    shade: F,
) -> bool {
    &&& v.width == width
    &&& v.height == height
    &&& v.well_formed()
    &&& forall|row: int, col: int|
        0 <= row < height && 0 <= col < width ==> #[trigger] shaded_by(v, shade, row, col)
}

/// `shade` has one result for each pixel: two calls on the same pixel agree.
pub open spec fn deterministic<F: Fn(usize, usize) -> Option<Pixel>>(shade: F) -> bool {
    forall|row: usize, col: usize, a: Option<Pixel>, b: Option<Pixel>|
        #[trigger] shade.ensures((row, col), a) && #[trigger] shade.ensures((row, col), b) ==> a
            == b
}

/// Renders a `width` by `height` image: for each pixel, row by row, `shade`
/// decides whether something was hit and in which colour; pixels with no hit
/// keep the background.
pub fn render<F: Fn(usize, usize) -> Option<Pixel>>(width: usize, height: usize, shade: F) -> (img:
    ImageWriter)
    requires
        width * height <= usize::MAX,
        forall|row: usize, col: usize| row < height && col < width ==> shade.requires((row, col)),
    ensures
        rendered_by(img@, width, height, shade),
{
    let mut img = ImageWriter::create(width, height);
    let mut r: usize = 0;
    while r < height
        invariant
            r <= height,
            forall|row: usize, col: usize|
                row < height && col < width ==> shade.requires((row, col)),
            img@.width == width,
            img@.height == height,
            img@.well_formed(),
            forall|row: int, col: int|
                0 <= row < r && 0 <= col < width ==> #[trigger] shaded_by(img@, shade, row, col),
            forall|row: int, col: int|
                r <= row < height && 0 <= col < width ==> #[trigger] img@.pixel_at(row, col)
                    == BACKGROUND,
        decreases height - r,
    {
        let mut c: usize = 0;
        while c < width
            invariant
                r < height,
                c <= width,
                forall|row: usize, col: usize|
                    row < height && col < width ==> shade.requires((row, col)),
                img@.width == width,
                img@.height == height,
                img@.well_formed(),
                forall|row: int, col: int|
                    (0 <= row < r && 0 <= col < width) || (row == r && 0 <= col < c)
                        ==> #[trigger] shaded_by(img@, shade, row, col),
                forall|row: int, col: int|
                    (r < row < height && 0 <= col < width) || (row == r && c <= col < width)
                        ==> #[trigger] img@.pixel_at(row, col) == BACKGROUND,
            decreases width - c,
        {
            let o = shade(r, c);
            let ghost before = img@;
            assert(before.pixel_at(r as int, c as int) == BACKGROUND);
            match o {
                Some(p) => img.set_pixel(r, c, p),
                None => {},
            }
            assert(img@.pixel_at(r as int, c as int) == shaded(o));
            assert(shade.ensures(((r as int) as usize, (c as int) as usize), o));
            assert(shaded_by(img@, shade, r as int, c as int));
            assert forall|row: int, col: int|
                (0 <= row < r && 0 <= col < width) || (row == r && 0 <= col < c + 1) implies #[trigger] shaded_by(
                img@,
                shade,
                row,
                col,
            ) by {
                if row != r || col != c {
                    assert(shaded_by(before, shade, row, col));
                    assert(img@.pixel_at(row, col) == before.pixel_at(row, col));
                }
            }
            c += 1;
        }
        r += 1;
    }
    img
}

/// Rendering is repeatable: two images rendered with the same size and the
/// same shading function, one that gives one result per pixel, are the same
/// image and encode to the same bytes.
pub proof fn lemma_render_repeatable<F: Fn(usize, usize) -> Option<Pixel>>(
    shade: F,
    width: usize,
    height: usize,
    first: ImageWriter,
    second: ImageWriter,
)
    requires
        deterministic(shade),
        rendered_by(first@, width, height, shade),
        rendered_by(second@, width, height, shade),
    ensures
        first@ == second@,
        first@.text() == second@.text(),
{
    let (a, b) = (first@, second@);
    assert forall|i: int| 0 <= i < a.pixels.len() implies a.pixels[i] == b.pixels[i] by {
        let w = width as int;
        let h = height as int;
        let row = i / w;
        let col = i % w;
        assert(w > 0) by (nonlinear_arith)
            requires
                0 <= i < w * h,
                h >= 0,
        ;
        vstd::arithmetic::div_mod::lemma_fundamental_div_mod(i, w);
        assert(0 <= col < w);
        assert(0 <= row < h) by (nonlinear_arith)
            requires
                w > 0,
                0 <= i < w * h,
                i == w * row + col,
                0 <= col < w,
        ;
        assert(row * w + col == i) by (nonlinear_arith)
            requires
                i == w * row + col,
        ;
        assert(shaded_by(a, shade, row, col));
        assert(shaded_by(b, shade, row, col));
    }
    assert(a.pixels =~= b.pixels);
}

} // verus!
