//! A fixed-size grid of RGB pixels, stored row-major, and its text encoding.
use vstd::prelude::*;
use crate::ppm::{pixel_line, pixel_lines, ppm_text, push_decimal, LETTER_P, NEWLINE, SPACE};

verus! {

/// An RGB triple.
pub type Pixel = (u8, u8, u8);

/// The colour every pixel has until it is set.
pub const BACKGROUND: Pixel = (0, 0, 0);

/// The image as a mathematical value.
pub struct ImageView {
    pub width: nat,
    pub height: nat,
    pub pixels: Seq<Pixel>,
}

impl ImageView {
    /// There is exactly one pixel per cell of the grid.
    pub open spec fn well_formed(self) -> bool {
        self.pixels.len() == self.width * self.height
    }

    /// The pixel at `(row, col)`.
    pub open spec fn pixel_at(self, row: int, col: int) -> Pixel {
        self.pixels[row * self.width + col]
    }

    /// The encoded text of this image.
    pub open spec fn text(self) -> Seq<u8> {
        ppm_text(self.width, self.height, self.pixels)
    }
}

/// The cell index of `(row, col)` lies in the grid, and no other cell shares it.
proof fn lemma_cell_index(row: int, col: int, width: int, height: int)
    requires
        0 <= row < height,
        0 <= col < width,
    ensures
        0 <= row * width <= row * width + col < width * height,
        forall|r: int, c: int|
            0 <= r < height && 0 <= c < width && (r != row || c != col) ==> #[trigger] (r * width
                + c) != row * width + col,
{
    assert(0 <= row * width <= row * width + col < width * height) by (nonlinear_arith)
        requires
            0 <= row < height,
            0 <= col < width,
    ;
    assert forall|r: int, c: int|
        0 <= r < height && 0 <= c < width && (r != row || c != col) implies #[trigger] (r * width
            + c) != row * width + col by {
        if r * width + c == row * width + col {
            vstd::arithmetic::div_mod::lemma_fundamental_div_mod_converse_div(
                r * width + c,
                width,
                r,
                c,
            );
            vstd::arithmetic::div_mod::lemma_fundamental_div_mod_converse_div(
                row * width + col,
                width,
                row,
                col,
            );
            vstd::arithmetic::div_mod::lemma_fundamental_div_mod_converse_mod(
                r * width + c,
                width,
                r,
                c,
            );
            vstd::arithmetic::div_mod::lemma_fundamental_div_mod_converse_mod(
                row * width + col,
                width,
                row,
                col,
            );
        }
    }
}

/// A `width` by `height` grid of pixels.
pub struct ImageWriter {
    width: usize,
    height: usize,
    image_data: Vec<Pixel>,
}

impl View for ImageWriter {
    type V = ImageView;

    closed spec fn view(&self) -> ImageView {
        ImageView { width: self.width as nat, height: self.height as nat, pixels: self.image_data@ }
    }
}

impl ImageWriter {
    /// A `width` by `height` image with every pixel set to the background.
    pub fn create(width: usize, height: usize) -> (w: Self)
        requires
            width * height <= usize::MAX,
        ensures
            w@.width == width,
            w@.height == height,
            w@.well_formed(),
            forall|i: int| 0 <= i < w@.pixels.len() ==> #[trigger] w@.pixels[i] == BACKGROUND,
            forall|r: int, c: int|
                0 <= r < height && 0 <= c < width ==> #[trigger] w@.pixel_at(r, c) == BACKGROUND,
    {
        let n: usize = width * height;
        let mut image_data: Vec<Pixel> = Vec::new();
        let mut i: usize = 0;
        while i < n
            invariant
                i <= n,
                image_data@.len() == i,
                forall|j: int| 0 <= j < i ==> #[trigger] image_data@[j] == BACKGROUND,
            decreases n - i,
        {
            image_data.push(BACKGROUND);
            i += 1;
        }
        let w = ImageWriter { width, height, image_data };
        assert forall|r: int, c: int|
            0 <= r < height && 0 <= c < width implies #[trigger] w@.pixel_at(r, c) == BACKGROUND by {
            lemma_cell_index(r, c, width as int, height as int);
        }
        w
    }

    /// The number of columns.
    pub fn width(&self) -> (r: usize)
        ensures
            r == self@.width,
    {
        self.width
    }

    /// The number of rows.
    pub fn height(&self) -> (r: usize)
        ensures
            r == self@.height,
    {
        self.height
    }

    /// The pixel at `(row, col)`.
    pub fn pixel(&self, row: usize, col: usize) -> (p: Pixel)
        requires
            self@.well_formed(),
            row < self@.height,
            col < self@.width,
        ensures
            p == self@.pixel_at(row as int, col as int),
    {
        let len: usize = self.image_data.len();
        proof {
            lemma_cell_index(row as int, col as int, self.width as int, self.height as int);
        }
        self.image_data[row * self.width + col]
    }

    /// Sets the pixel at `(row, col)`, leaving every other pixel as it was.
    pub fn set_pixel(&mut self, row: usize, col: usize, pixel: Pixel)
        requires
            old(self)@.well_formed(),
            row < old(self)@.height,
            col < old(self)@.width,
        ensures
            final(self)@.width == old(self)@.width,
            final(self)@.height == old(self)@.height,
            final(self)@.well_formed(),
            final(self)@.pixels == old(self)@.pixels.update(
                row * old(self)@.width + col,
                pixel,
            ),
            forall|r: int, c: int|
                0 <= r < old(self)@.height && 0 <= c < old(self)@.width
                    ==> #[trigger] final(self)@.pixel_at(r, c) == if r == row && c == col {
                    pixel
                } else {
                    old(self)@.pixel_at(r, c)
                },
    {
        let len: usize = self.image_data.len();
        proof {
            lemma_cell_index(row as int, col as int, self.width as int, self.height as int);
        }
        let ghost before = self@;
        let index: usize = row * self.width + col;
        self.image_data.set(index, pixel);
        assert forall|r: int, c: int|
            0 <= r < before.height && 0 <= c < before.width implies #[trigger] self@.pixel_at(r, c)
            == if r == row && c == col {
            pixel
        } else {
            before.pixel_at(r, c)
        } by {
            lemma_cell_index(r, c, before.width as int, before.height as int);
        }
    }

    /// The image as text: `P3`, `"<width> <height>"` and `255` on three lines,
    /// then one line `"<r> <g> <b>"` per pixel, row 0 first.
    pub fn encode(&self) -> (out: Vec<u8>)
        ensures
            out@ == self@.text(),
    {
        let mut out: Vec<u8> = Vec::new();
        out.push(LETTER_P);
        out.push(51);
        out.push(NEWLINE);
        push_decimal(&mut out, self.width);
        out.push(SPACE);
        push_decimal(&mut out, self.height);
        out.push(NEWLINE);
        push_decimal(&mut out, 255);
        out.push(NEWLINE);
        let ghost head = out@;
        assert(head =~= crate::ppm::header(self.width as nat, self.height as nat));
        let mut i: usize = 0;
        while i < self.image_data.len()
            invariant
                i <= self.image_data@.len(),
                out@ == head + pixel_lines(self.image_data@.take(i as int)),
            decreases self.image_data@.len() - i,
        {
            let p: Pixel = self.image_data[i];
            let ghost before = out@;
            push_decimal(&mut out, p.0 as usize);
            out.push(SPACE);
            push_decimal(&mut out, p.1 as usize);
            out.push(SPACE);
            push_decimal(&mut out, p.2 as usize);
            out.push(NEWLINE);
            proof {
                let taken = self.image_data@.take(i + 1);
                assert(taken.drop_last() =~= self.image_data@.take(i as int));
                assert(out@ =~= before + pixel_line(p));
            }
            i += 1;
        }
        assert(self.image_data@.take(i as int) =~= self.image_data@);
        out
    }
}

} // verus!
