//! The image-to-rich-text transcoder: a 2D pixel grid becomes one text block
//! plus a list of color ranges anchored to character offsets in that text.

use crate::color::{color_hex, color_hex_seq, Rgb16};
use vstd::arithmetic::div_mod::{lemma_fundamental_div_mod, lemma_fundamental_div_mod_converse};
use vstd::prelude::*;

verus! {

/// The color-channel layout tag a decoded image declares.
#[derive(Clone, Copy, PartialEq, Eq, Structural, Debug)]
pub enum ColorFormat {
    Rgb8,
    Rgba8,
    Rgb16,
    Rgba16,
    Gray8,
    Gray16,
    GrayAlpha8,
    GrayAlpha16,
}

/// A decoded raster image: grid dimensions, the channel-layout tag, and the
/// pixel samples in row-major order. Only the `Rgb16` layout carries samples
/// the transcoder understands, so `pixels` is meaningful only under that tag.
pub struct PixelGrid {
    pub width: usize,
    pub height: usize,
    pub format: ColorFormat,
    pub pixels: Vec<Rgb16>,
}

/// A styling range: the half-open character-offset interval `[start, end)`
/// of the display text is to be rendered in the color `hex` (`#rrggbb`).
#[derive(Debug)]
pub struct ColorRange {
    pub start: u32,
    pub end: u32,
    pub hex: String,
}

/// The transcoder's output: the display text, and one color range per pixel
/// in row-major pixel order.
#[derive(Debug)]
pub struct TextContent {
    pub text: String,
    pub formatting: Vec<ColorRange>,
}

/// Why a transcoding call failed.
#[derive(Clone, Copy, PartialEq, Eq, Structural, Debug)]
pub enum TranscodeError {
    /// The input is not in the 16-bit RGB channel layout.
    UnsupportedFormat,
    /// A computed pixel index fell outside the supplied pixel buffer: the
    /// buffer is shorter than the declared `width * height` grid.
    OutOfBounds,
}

/// The two-character glyph pair that renders one pixel: the filled block
/// symbol, then a space.
pub open spec fn glyph_pair() -> Seq<char> {
    seq!['\u{25a0}', ' ']
}

/// The first `w` glyph pairs of one text row.
pub open spec fn glyphs(w: int) -> Seq<char>
    decreases w,
{
    if w <= 0 {
        Seq::empty()
    } else {
        glyphs(w - 1) + glyph_pair()
    }
}

/// The first `h` full rows of the display text of a grid `width` pixels
/// wide: each row is `width` glyph pairs followed by one line terminator.
pub open spec fn grid_text(width: int, h: int) -> Seq<char>
    decreases h,
{
    if h <= 0 {
        Seq::empty()
    } else {
        grid_text(width, h - 1) + glyphs(width) + seq!['\n']
    }
}

/// A row of `w` glyph pairs is `2 * w` characters long.
pub proof fn lemma_glyphs_len(w: int)
    requires
        w >= 0,
    ensures
        glyphs(w).len() == 2 * w,
    decreases w,
{
    if w > 0 {
        lemma_glyphs_len(w - 1);
    }
}

/// The display text of a `width x h` grid has `h` lines of `2 * width + 1`
/// characters each.
pub proof fn lemma_grid_text_len(width: int, h: int)
    requires
        width >= 0,
        h >= 0,
    ensures
        grid_text(width, h).len() == h * (2 * width + 1),
    decreases h,
{
    if h > 0 {
        lemma_grid_text_len(width, h - 1);
        lemma_glyphs_len(width);
        assert((h - 1) * (2 * width + 1) + (2 * width + 1) == h * (2 * width + 1))
            by (nonlinear_arith);
    } else {
        assert(h * (2 * width + 1) == 0) by (nonlinear_arith)
            requires
                h == 0,
        ;
    }
}

/// The character offset where the glyph pair of the pixel at row `h`,
/// column `w` begins: two characters per glyph pair already laid down, plus
/// one line terminator per completed prior row (the trailing `+ h`).
pub open spec fn glyph_offset(width: int, h: int, w: int) -> int {
    h * (width * 2) + w * 2 + h
}

/// The range `r` is the one owed to the pixel at row `h`, column `w` of a
/// grid `width` pixels wide with samples `pixels`: it covers exactly that
/// pixel's glyph pair and carries the pixel's `#rrggbb` color.
pub open spec fn range_matches(
    r: ColorRange,
    width: int,
    h: int,
    w: int,
    pixels: Seq<Rgb16>,
) -> bool {
    &&& r.start as int == glyph_offset(width, h, w)
    &&& r.end as int == glyph_offset(width, h, w) + 2
    &&& r.hex@ == color_hex_seq(pixels[h * width + w])
}

/// Every range in `rs` matches its pixel, the range at position `k` being
/// owed to the pixel at row `k / width`, column `k % width`.
pub open spec fn ranges_ok(rs: Seq<ColorRange>, width: int, pixels: Seq<Rgb16>) -> bool {
    forall|k: int|
        0 <= k < rs.len() ==> range_matches(#[trigger] rs[k], width, k / width, k % width, pixels)
}

/// Transcodes a decoded image into display text plus color ranges.
///
/// The grid must be small enough that every character offset of the output
/// fits the 32-bit range unit of the consuming platform.
///
/// Exactly the 16-bit RGB inputs whose pixel buffer covers the whole
/// `width * height` grid succeed; the output then holds `height` lines of
/// `width` glyph pairs each, and one matching color range per pixel in
/// row-major order. Any other layout tag is rejected as unsupported; a
/// buffer shorter than the grid is rejected as out of bounds, and nothing
/// partial is returned.
pub fn image_to_content(image: &PixelGrid) -> (result: Result<TextContent, TranscodeError>)
    requires
        image.height * (2 * image.width + 1) <= u32::MAX,
    ensures
        match result {
            Ok(content) => {
                &&& image.format == ColorFormat::Rgb16
                &&& image.pixels@.len() >= image.width * image.height
                &&& content.text@ == grid_text(image.width as int, image.height as int)
                &&& content.text@.len() == image.height * (2 * image.width + 1)
                &&& content.formatting@.len() == image.width * image.height
                &&& ranges_ok(content.formatting@, image.width as int, image.pixels@)
            },
            Err(TranscodeError::UnsupportedFormat) => image.format != ColorFormat::Rgb16,
            Err(TranscodeError::OutOfBounds) => {
                &&& image.format == ColorFormat::Rgb16
                &&& image.pixels@.len() < image.width * image.height
            },
        },
{
    if !(matches!(image.format, ColorFormat::Rgb16)) {
        return Err(TranscodeError::UnsupportedFormat);
    }
    let mut text = String::new();
    let mut formatting: Vec<ColorRange> = Vec::new();
    proof {
        assert(0 * image.width == 0) by (nonlinear_arith);
    }

    for h in 0..image.height
        invariant
            image.format == ColorFormat::Rgb16,
            image.height * (2 * image.width + 1) <= u32::MAX,
            text@ == grid_text(image.width as int, h as int),
            formatting@.len() == h * image.width,
            ranges_ok(formatting@, image.width as int, image.pixels@),
            image.pixels@.len() >= h * image.width,
    {
        for w in 0..image.width
            invariant
                h < image.height,
                image.format == ColorFormat::Rgb16,
                image.height * (2 * image.width + 1) <= u32::MAX,
                text@ == grid_text(image.width as int, h as int) + glyphs(w as int),
                formatting@.len() == h * image.width + w,
                ranges_ok(formatting@, image.width as int, image.pixels@),
                image.pixels@.len() >= h * image.width + w,
        {
            proof {
                assert(h * image.width + w < image.height * image.width && image.height
                    * image.width <= image.height * (2 * image.width + 1) && image.width * 2
                    <= image.height * (2 * image.width + 1) && h * (image.width * 2) + w * 2 + h
                    + 2 <= image.height * (2 * image.width + 1)) by (nonlinear_arith)
                    requires
                        0 <= h < image.height,
                        0 <= w < image.width,
                ;
            }
            let index: usize = (h * image.width) + w;
            let offset: usize = (h * (image.width * 2)) + (w * 2) + h;

            text.append("\u{25a0} ");
            proof {
                reveal_strlit("\u{25a0} ");
                assert(("\u{25a0} ")@ =~= glyph_pair());
                assert(text@ =~= grid_text(image.width as int, h as int) + glyphs(w as int + 1));
            }

            if index >= image.pixels.len() {
                proof {
                    assert(image.height * image.width == image.width * image.height)
                        by (nonlinear_arith);
                }
                return Err(TranscodeError::OutOfBounds);
            }
            let c = image.pixels[index];
            let hex = color_hex(c);
            let ghost prior = formatting@;
            formatting.push(ColorRange { start: offset as u32, end: (offset + 2) as u32, hex });
            proof {
                let wid = image.width as int;
                let k0 = h * wid + w;
                lemma_fundamental_div_mod_converse(k0, wid, h as int, w as int);
                assert(range_matches(formatting@[k0], wid, k0 / wid, k0 % wid, image.pixels@));
                assert forall|k: int| 0 <= k < formatting@.len() implies range_matches(
                    #[trigger] formatting@[k],
                    wid,
                    k / wid,
                    k % wid,
                    image.pixels@,
                ) by {
                    if k < prior.len() {
                        assert(formatting@[k] == prior[k]);
                    }
                }
            }
        }
        text.append("\n");
        proof {
            reveal_strlit("\n");
            assert(("\n")@ =~= seq!['\n']);
            assert(text@ =~= grid_text(image.width as int, h as int + 1));
            assert((h + 1) * image.width == h * image.width + image.width) by (nonlinear_arith);
        }
    }
    proof {
        lemma_grid_text_len(image.width as int, image.height as int);
        assert(image.height * image.width == image.width * image.height) by (nonlinear_arith);
    }
    Ok(TextContent { text, formatting })
}

/// The one-character gap that separates two consecutive color ranges: the
/// line terminator sits between them exactly where the later range opens a
/// new row.
pub open spec fn adjacent_gap(width: int, k: int) -> int {
    if (k + 1) % width == 0 {
        1
    } else {
        0
    }
}

/// Color ranges are strictly increasing and non-overlapping: each range
/// covers exactly two characters, and each range after the first starts
/// where its predecessor ends, except across a row boundary, where the line
/// terminator occupies the one character between them.
pub proof fn lemma_ranges_adjacent(rs: Seq<ColorRange>, width: int, pixels: Seq<Rgb16>)
    requires
        width >= 1,
        ranges_ok(rs, width, pixels),
    ensures
        forall|k: int| 0 <= k < rs.len() ==> (#[trigger] rs[k]).start < rs[k].end,
        forall|k: int|
            0 <= k < rs.len() - 1 ==> (#[trigger] rs[k]).end as int + adjacent_gap(width, k)
                == rs[k + 1].start as int,
{
    assert forall|k: int| 0 <= k < rs.len() - 1 implies (#[trigger] rs[k]).end as int
        + adjacent_gap(width, k) == rs[k + 1].start as int by {
        lemma_fundamental_div_mod(k, width);
        let h = k / width;
        let w = k % width;
        assert(range_matches(rs[k + 1], width, (k + 1) / width, (k + 1) % width, pixels));
        if w + 1 < width {
            lemma_fundamental_div_mod_converse(k + 1, width, h, w + 1);
        } else {
            assert(w == width - 1);
            assert((h + 1) * width == h * width + width) by (nonlinear_arith);
            lemma_fundamental_div_mod_converse(k + 1, width, h + 1, 0);
            assert((h + 1) * (width * 2) == h * (width * 2) + width * 2) by (nonlinear_arith);
        }
    }
}

} // verus!
