//! The plain-text image format the renderer emits: a `P3` header followed by
//! one `R G B ` triple per pixel, rows separated by newlines, channel values
//! in `0..=255`.
//!
//! Also holds the coordinate-gradient image: the scene-free render whose
//! pixel colors are a direct function of the pixel's coordinates, mapped to
//! the channel range without gamma correction.

use crate::color::Rgb;
use crate::reorder::Row;
use crate::text::{decimal, push_decimal};
use vstd::arithmetic::div_mod::{lemma_div_by_multiple, lemma_div_is_ordered};
use vstd::prelude::*;
use vstd::string::StringExecFns;

verus! {

/// The text for one pixel: the three channel values in decimal, each
/// followed by one space.
pub open spec fn pixel_text(c: Rgb) -> Seq<char> {
    decimal(c.r as nat) + seq![' '] + decimal(c.g as nat) + seq![' '] + decimal(c.b as nat)
        + seq![' ']
}

/// The text for one row of pixels, left to right, without the closing
/// newline.
pub open spec fn row_text(pixels: Seq<Rgb>) -> Seq<char>
    decreases pixels.len(),
{
    if pixels.len() == 0 {
        Seq::empty()
    } else {
        row_text(pixels.drop_last()) + pixel_text(pixels.last())
    }
}

/// The image header: the `P3` magic line, the width and height, and the
/// largest channel value.
pub open spec fn header_text(width: nat, height: nat) -> Seq<char> {
    "P3\n"@ + decimal(width) + " "@ + decimal(height) + "\n255\n"@
}

/// Appends the text for one pixel to `out`.
pub fn push_pixel(out: &mut String, c: Rgb)
    ensures
        final(out)@ == old(out)@ + pixel_text(c),
{
    push_decimal(out, c.r as u128);
    out.append(" ");
    push_decimal(out, c.g as u128);
    out.append(" ");
    push_decimal(out, c.b as u128);
    out.append(" ");
    proof {
        reveal_strlit(" ");
        assert(out@ =~= old(out)@ + pixel_text(c));
    }
}

/// The text line for one row of pixels: the pixel triples left to right,
/// closed by a newline.
pub fn row_line(pixels: &Vec<Rgb>) -> (s: String)
    ensures
        s@ == row_text(pixels@) + seq!['\n'],
{
    let mut s = String::new();
    let mut i: usize = 0;
    while i < pixels.len()
        invariant
            i <= pixels@.len(),
            s@ == row_text(pixels@.take(i as int)),
        decreases pixels@.len() - i,
    {
        push_pixel(&mut s, pixels[i]);
        proof {
            assert(pixels@.take(i + 1).drop_last() =~= pixels@.take(i as int));
            assert(pixels@.take(i + 1).last() == pixels@[i as int]);
        }
        i = i + 1;
    }
    s.append("\n");
    proof {
        reveal_strlit("\n");
        assert(pixels@.take(pixels@.len() as int) =~= pixels@);
        assert(s@ =~= row_text(pixels@) + seq!['\n']);
    }
    s
}

/// The image header for a `width` by `height` image.
pub fn header(width: usize, height: usize) -> (s: String)
    ensures
        s@ == header_text(width as nat, height as nat),
{
    let mut s = String::new();
    s.append("P3\n");
    push_decimal(&mut s, width as u128);
    s.append(" ");
    push_decimal(&mut s, height as u128);
    s.append("\n255\n");
    proof {
        assert(s@ =~= header_text(width as nat, height as nat));
    }
    s
}

/// The pixel at column `i`, image row `j` of the coordinate gradient: red
/// rises with the column, green with the row, and blue is held at a quarter.
/// Each channel is the raw mapping of a `0..=1` coordinate fraction onto
/// `0..=255`, truncated, with no gamma correction.
pub open spec fn gradient_pixel(i: nat, j: nat, width: nat, height: nat) -> Rgb {
    Rgb {
        r: (i * 255 / ((width - 1) as nat)) as u8,
        g: (j * 255 / ((height - 1) as nat)) as u8,
        b: (255nat / 4) as u8,
    }
}

/// One row of the coordinate gradient: image row `j`, columns left to right.
pub open spec fn gradient_row_pixels(j: nat, width: nat, height: nat) -> Seq<Rgb> {
    Seq::new(width, |i: int| gradient_pixel(i as nat, j, width, height))
}

/// The text of the first `rows` emitted gradient rows. Rows are emitted top
/// to bottom: the `k`-th emitted row is image row `height - 1 - k`.
pub open spec fn gradient_rows_text(rows: nat, width: nat, height: nat) -> Seq<char>
    decreases rows,
{
    if rows == 0 {
        Seq::empty()
    } else {
        gradient_rows_text((rows - 1) as nat, width, height) + row_text(
            gradient_row_pixels((height - rows) as nat, width, height),
        ) + seq!['\n']
    }
}

/// The whole gradient image as text: header, then every row top to bottom.
pub open spec fn gradient_ppm_text(width: nat, height: nat) -> Seq<char> {
    header_text(width, height) + gradient_rows_text(height, width, height)
}

/// One rendered row of the coordinate gradient.
pub fn gradient_row(j: usize, width: usize, height: usize) -> (pixels: Vec<Rgb>)
    requires
        2 <= width <= 0x10000,
        2 <= height <= 0x10000,
        j < height,
    ensures
        pixels@ == gradient_row_pixels(j as nat, width as nat, height as nat),
{
    let g_num: usize = j * 255;
    let g: usize = g_num / (height - 1);
    proof {
        lemma_div_is_ordered(g_num as int, (height - 1) * 255, height - 1);
        lemma_div_by_multiple(255, height - 1);
    }
    let mut pixels: Vec<Rgb> = Vec::with_capacity(width);
    let mut i: usize = 0;
    while i < width
        invariant
            2 <= width <= 0x10000,
            2 <= height <= 0x10000,
            j < height,
            i <= width,
            g == j * 255 / (height - 1),
            g <= 255,
            pixels@.len() == i,
            forall|k: int|
                0 <= k < i ==> pixels@[k] == gradient_pixel(
                    k as nat,
                    j as nat,
                    width as nat,
                    height as nat,
                ),
        decreases width - i,
    {
        let r_num: usize = i * 255;
        let r: usize = r_num / (width - 1);
        proof {
            lemma_div_is_ordered(r_num as int, (width - 1) * 255, width - 1);
            lemma_div_by_multiple(255, width - 1);
        }
        pixels.push(Rgb { r: r as u8, g: g as u8, b: 255 / 4 });
        i = i + 1;
    }
    proof {
        assert(pixels@ =~= gradient_row_pixels(j as nat, width as nat, height as nat));
    }
    pixels
}

/// The coordinate-gradient image, rendered whole: the header, then one text
/// line per row, top to bottom.
pub fn gradient_ppm(width: usize, height: usize) -> (s: String)
    requires
        2 <= width <= 0x10000,
        2 <= height <= 0x10000,
    ensures
        s@ == gradient_ppm_text(width as nat, height as nat),
{
    let mut s = header(width, height);
    let mut k: usize = 0;
    while k < height
        invariant
            2 <= width <= 0x10000,
            2 <= height <= 0x10000,
            k <= height,
            s@ == header_text(width as nat, height as nat) + gradient_rows_text(
                k as nat,
                width as nat,
                height as nat,
            ),
        decreases height - k,
    {
        let j = height - 1 - k;
        let pixels = gradient_row(j, width, height);
        let line = row_line(&pixels);
        s.append(line.as_str());
        proof {
            assert(s@ =~= header_text(width as nat, height as nat) + gradient_rows_text(
                (k + 1) as nat,
                width as nat,
                height as nat,
            ));
        }
        k = k + 1;
    }
    proof {
        assert(s@ =~= gradient_ppm_text(width as nat, height as nat));
    }
    s
}


/// The text of a run of finished rows, in the order given: each row's
/// pixel triples, closed by a newline.
pub open spec fn rows_text(rows: Seq<Row>) -> Seq<char>
    decreases rows.len(),
{
    if rows.len() == 0 {
        Seq::empty()
    } else {
        rows_text(rows.drop_last()) + row_text(rows.last().colors@) + seq!['\n']
    }
}

/// The text lines for a batch of finished rows, in the order the batch
/// holds them — what the consumer writes each time the reorder buffer
/// releases rows.
pub fn batch_lines(rows: &Vec<Row>) -> (s: String)
    ensures
        s@ == rows_text(rows@),
{
    let mut s = String::new();
    let mut k: usize = 0;
    while k < rows.len()
        invariant
            k <= rows@.len(),
            s@ == rows_text(rows@.take(k as int)),
        decreases rows@.len() - k,
    {
        let line = row_line(&rows[k].colors);
        s.append(line.as_str());
        proof {
            assert(rows@.take(k + 1).drop_last() =~= rows@.take(k as int));
            assert(rows@.take(k + 1).last() == rows@[k as int]);
            assert(s@ =~= rows_text(rows@.take(k + 1)));
        }
        k = k + 1;
    }
    proof {
        assert(rows@.take(rows@.len() as int) =~= rows@);
    }
    s
}

} // verus!
