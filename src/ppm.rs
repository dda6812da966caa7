//! The plain-text pixel format: a `P3` tag, the dimensions, the maximum
//! channel value, then one line of three decimal channels per pixel.
use vstd::prelude::*;
use crate::image_writer::Pixel;

verus! {

/// ASCII space, the separator inside a line.
pub const SPACE: u8 = 32;

/// ASCII line feed, the end of every line.
pub const NEWLINE: u8 = 10;

/// ASCII `P`, the first byte of the format tag.
pub const LETTER_P: u8 = 80;

/// The ASCII digit for a value below ten.
pub open spec fn digit(d: nat) -> u8 {
    (d + 48) as u8
}

/// The decimal digits of `n`, most significant first, with no leading zeros.
pub open spec fn decimal(n: nat) -> Seq<u8>
    decreases n,
{
    if n < 10 {
        seq![digit(n)]
    } else {
        decimal(n / 10) + seq![digit(n % 10)]
    }
}

/// The line for one pixel: `"<r> <g> <b>\n"`.
pub open spec fn pixel_line(p: Pixel) -> Seq<u8> {
    decimal(p.0 as nat) + seq![SPACE] + decimal(p.1 as nat) + seq![SPACE] + decimal(p.2 as nat)
        + seq![NEWLINE]
}

/// The pixel lines of `ps`, in order.
pub open spec fn pixel_lines(ps: Seq<Pixel>) -> Seq<u8>
    decreases ps.len(),
{
    if ps.len() == 0 {
        Seq::empty()
    } else {
        pixel_lines(ps.drop_last()) + pixel_line(ps.last())
    }
}

/// The three header lines: `P3`, `"<width> <height>"`, `255`.
pub open spec fn header(width: nat, height: nat) -> Seq<u8> {
    seq![LETTER_P, digit(3), NEWLINE] + decimal(width) + seq![SPACE] + decimal(height) + seq![NEWLINE] + decimal(255) + seq![NEWLINE]
}

/// The whole text of an image of the given size and row-major pixels.
pub open spec fn ppm_text(width: nat, height: nat, pixels: Seq<Pixel>) -> Seq<u8> {
    header(width, height) + pixel_lines(pixels)
}

/// Appends the decimal digits of `n` to `out`.
pub(crate) fn push_decimal(out: &mut Vec<u8>, n: usize)
    ensures
        final(out)@ == old(out)@ + decimal(n as nat),
    decreases n,
{
    if n >= 10 {
        push_decimal(out, n / 10);
    }
    let d: u8 = (n % 10) as u8;
    out.push(d + 48);
    proof {
        if n >= 10 {
            assert(old(out)@ + decimal(n as nat) =~= old(out)@ + decimal((n / 10) as nat) + seq![
                digit((n % 10) as nat),
            ]);
        }
    }
}

} // verus!
