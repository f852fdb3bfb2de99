//! Text blocks: a text laid out in a font and painted, glyph by glyph, onto
//! a fresh transparent image sized to the laid-out line plus margins.

use vstd::prelude::*;
use vstd::string::StrSliceExecFns;
use crate::bitmap::Grid;
use crate::buffer::{
    allocatable, buffer_height, buffer_width, fits_in_memory, read_pixel, transparent,
    write_pixel, zeroed, Raster, RgbaImage,
};
use crate::canvas::{before, renders};
use crate::error::RenderError;
use crate::font::{Outline, ScaledFont};
use crate::layout::{
    glyph_models, laid_out, layout_paragraph, Glyph, PlacedGlyph, Point, MAX_TEXT_CHARS,
};
use crate::pixel::{paint, painted};

verus! {

/// The margins around a text block in whole pixels: top, right, bottom, left.
#[derive(Clone, Copy, Debug, PartialEq, Eq, Structural)]
pub struct ImageMargin(pub u32, pub u32, pub u32, pub u32);

/// The number of whole pixels that hold a length given in sixty-fourths of a
/// pixel: the length over 64, rounded up.
pub open spec fn pixels_up(length: int) -> int {
    if length >= 0 {
        (length + 63) / 64
    } else {
        -((-length) / 64)
    }
}

/// The pixel that holds a position given in sixty-fourths of a pixel: the
/// position over 64, rounded down.
pub open spec fn pixel_of(position: int) -> int {
    if position >= 0 {
        position / 64
    } else {
        -((-position + 63) / 64)
    }
}

/// The glyphs of a text block: the text laid out from the top left margin, in
/// the width that the margins leave of `max_width`.
pub open spec fn block_glyphs(
    font: ScaledFont,
    max_width: u32,
    margin: ImageMargin,
    text: Seq<char>,
) -> Seq<PlacedGlyph> {
    laid_out(
        font,
        margin.3 * 64,
        margin.0 * 64,
        (max_width - margin.3 - margin.1) * 64,
        text,
    )
}

/// The width of a text block in pixels: from the pen of the first glyph to the
/// pen past the last one, rounded up, plus the left and right margins; zero
/// where that is negative.
pub open spec fn block_width(glyphs: Seq<PlacedGlyph>, margin: ImageMargin) -> int {
    let extent = glyphs.last().x + glyphs.last().advance - glyphs.first().x;
    let width = pixels_up(extent) + margin.3 + margin.1;
    if width < 0 {
        0
    } else {
        width
    }
}

/// The height of a text block in pixels: the metric box of one line, rounded
/// up, plus the top and bottom margins; zero where that is negative.
///
/// The height is that of one line whatever the glyphs cover: marks that reach
/// beyond it are clipped.
pub open spec fn block_height(font: ScaledFont, margin: ImageMargin) -> int {
    let height = pixels_up(font.height as int) + margin.0 + margin.2;
    if height < 0 {
        0
    } else {
        height
    }
}

/// Why a text block cannot be drawn, or `None` where it can.
pub open spec fn block_error(
    font: ScaledFont,
    max_width: u32,
    margin: ImageMargin,
    text: Seq<char>,
) -> Option<RenderError> {
    let glyphs = block_glyphs(font, max_width, margin, text);
    if text.len() > MAX_TEXT_CHARS {
        Some(RenderError::TooLarge)
    } else if glyphs.len() == 0 {
        Some(RenderError::EmptyText)
    } else if block_width(glyphs, margin) > u32::MAX || block_height(font, margin) > u32::MAX
        || !allocatable(block_width(glyphs, margin), block_height(font, margin)) {
        Some(RenderError::TooLarge)
    } else {
        None
    }
}

/// The coverage that an outline drawn with its top left corner at
/// `(left, top)` gives the pixel `(x, y)`, or `None` where the outline does
/// not reach it.
pub open spec fn outline_at(coverage: Grid, left: int, top: int, x: int, y: int) -> Option<u8> {
    if coverage.contains(x - left, y - top) {
        Some(coverage.at(x - left, y - top))
    } else {
        None
    }
}

/// The coverage that the glyph `glyph` gives the pixel `(x, y)`, or `None`
/// where its mark does not reach it, or it has no mark. The mark lies at the
/// offset its outline names from the pixel that holds the glyph's position.
pub open spec fn coverage_at(font: ScaledFont, glyph: PlacedGlyph, x: int, y: int) -> Option<u8> {
    match font.outline_of(glyph.ch) {
        Some(outline) => outline_at(
            outline.coverage@,
            pixel_of(glyph.x) + outline.left,
            pixel_of(glyph.y) + outline.top,
            x,
            y,
        ),
        None => None,
    }
}

/// The pixel `below` once an outline has given it `coverage`.
pub open spec fn covered(below: Seq<u8>, colour: Seq<u8>, coverage: Option<u8>) -> Seq<u8> {
    match coverage {
        Some(c) => painted(below, colour, c),
        None => below,
    }
}

/// The pixel `(x, y)` of a transparent image once `glyphs` have been painted
/// on it in order, each in `colour`.
pub open spec fn painted_at(
    font: ScaledFont,
    colour: Seq<u8>,
    glyphs: Seq<PlacedGlyph>,
    x: int,
    y: int,
) -> Seq<u8>
    decreases glyphs.len(),
{
    if glyphs.len() == 0 {
        transparent()
    } else {
        covered(
            painted_at(font, colour, glyphs.drop_last(), x, y),
            colour,
            coverage_at(font, glyphs.last(), x, y),
        )
    }
}

/// The text block of `text`: its size, and every pixel as the glyphs paint it.
pub open spec fn block_raster(
    font: ScaledFont,
    colour: Seq<u8>,
    max_width: u32,
    margin: ImageMargin,
    text: Seq<char>,
) -> Raster {
    let glyphs = block_glyphs(font, max_width, margin, text);
    Raster {
        width: block_width(glyphs, margin) as nat,
        height: block_height(font, margin) as nat,
        pixels: Map::new(
            |p: (int, int)| true,
            |p: (int, int)| painted_at(font, colour, glyphs, p.0, p.1),
        ),
    }
}

/// What drawing `text` as a text block gives: the block where it can be
/// drawn, and else the reason why it cannot.
pub open spec fn block_outcome(
    font: ScaledFont,
    colour: Seq<u8>,
    max_width: u32,
    margin: ImageMargin,
    text: Seq<char>,
) -> Result<Raster, RenderError> {
    match block_error(font, max_width, margin, text) {
        Some(e) => Err(e),
        None => Ok(block_raster(font, colour, max_width, margin, text)),
    }
}

/// `pixels_up` of a length.
fn ceil_pixels(length: i128) -> (pixels: i128)
    requires
        -0x2_0000_0000_0000_0000 <= length <= 0x2_0000_0000_0000_0000,
    ensures
        pixels == pixels_up(length as int),
        -0x2_0000_0000_0000_0000 <= pixels <= 0x2_0000_0000_0000_0000,
{
    if length >= 0 {
        (length + 63) / 64
    } else {
        -((-length) / 64)
    }
}

/// `pixel_of` of a position.
fn floor_pixel(position: i64) -> (pixel: i64)
    ensures
        pixel == pixel_of(position as int),
        -0x200_0000_0000_0000 <= pixel <= 0x200_0000_0000_0000,
{
    if position >= 0 {
        position / 64
    } else {
        let up: i128 = (-(position as i128) + 63) / 64;
        (-up) as i64
    }
}

/// Paints an outline in `colour` onto `image`, the outline's top left corner
/// at `(left, top)`. Every pixel of the outline's box that lies within the
/// image is painted with its coverage; what lies outside is clipped.
pub fn paint_outline(
    image: &mut RgbaImage,
    outline: &Outline,
    left: i64,
    top: i64,
    colour: [u8; 3],
)
    ensures
        final(image)@.width == old(image)@.width,
        final(image)@.height == old(image)@.height,
        forall|x: int, y: int|
            old(image)@.contains(x, y) ==> #[trigger] final(image)@.at(x, y) == covered(
                old(image)@.at(x, y),
                colour@,
                outline_at(outline.coverage@, left as int, top as int, x, y),
            ),
{
    let width: u32 = outline.coverage.width();
    let height: u32 = outline.coverage.height();
    let image_width: u32 = buffer_width(image);
    let image_height: u32 = buffer_height(image);
    let ghost start = image@;
    let ghost grid = outline.coverage@;
    let mut row: u32 = 0;
    while row < height
        invariant
            row <= height,
            width == grid.width,
            height == grid.height,
            grid == outline.coverage@,
            image_width == start.width,
            image_height == start.height,
            image@.width == start.width,
            image@.height == start.height,
            forall|x: int, y: int|
                start.contains(x, y) ==> #[trigger] image@.at(x, y) == (if before(
                    x - left,
                    y - top,
                    0,
                    row as int,
                ) {
                    covered(
                        start.at(x, y),
                        colour@,
                        outline_at(grid, left as int, top as int, x, y),
                    )
                } else {
                    start.at(x, y)
                }),
        decreases height - row,
    {
        let y: i128 = top as i128 + row as i128;
        let mut col: u32 = 0;
        while col < width
            invariant
                row < height,
                col <= width,
                width == grid.width,
                height == grid.height,
                grid == outline.coverage@,
                image_width == start.width,
                image_height == start.height,
                image@.width == start.width,
                image@.height == start.height,
                y == top + row,
                forall|x: int, y: int|
                    start.contains(x, y) ==> #[trigger] image@.at(x, y) == (if before(
                        x - left,
                        y - top,
                        col as int,
                        row as int,
                    ) {
                        covered(
                            start.at(x, y),
                            colour@,
                            outline_at(grid, left as int, top as int, x, y),
                        )
                    } else {
                        start.at(x, y)
                    }),
            decreases width - col,
        {
            let x: i128 = left as i128 + col as i128;
            if 0 <= x && x < image_width as i128 && 0 <= y && y < image_height as i128 {
                let coverage: u8 = outline.coverage.sample(col, row);
                let existing = read_pixel(image, x as u32, y as u32);
                let ghost prior = image@;
                write_pixel(image, x as u32, y as u32, paint(existing, colour, coverage));
                assert forall|px: int, py: int| start.contains(px, py) implies #[trigger] image@.at(
                    px,
                    py,
                ) == (if before(px - left, py - top, col + 1, row as int) {
                    covered(
                        start.at(px, py),
                        colour@,
                        outline_at(grid, left as int, top as int, px, py),
                    )
                } else {
                    start.at(px, py)
                }) by {
                    assert(prior.at(px, py) == (if before(
                        px - left,
                        py - top,
                        col as int,
                        row as int,
                    ) {
                        covered(
                            start.at(px, py),
                            colour@,
                            outline_at(grid, left as int, top as int, px, py),
                        )
                    } else {
                        start.at(px, py)
                    }));
                }
            }
            col = col + 1;
        }
        row = row + 1;
    }
}

/// The size in pixels of the block that holds `glyphs`, or `None` where a
/// side does not fit in `u32`.
fn block_size(font: &ScaledFont, glyphs: &Vec<Glyph>, margin: ImageMargin) -> (size: Option<
    (u32, u32),
>)
    requires
        glyphs@.len() > 0,
    ensures
        size is Some <==> block_width(glyph_models(glyphs@), margin) <= u32::MAX && block_height(
            *font,
            margin,
        ) <= u32::MAX,
        size matches Some((w, h)) ==> w == block_width(glyph_models(glyphs@), margin) && h
            == block_height(*font, margin),
{
    let first = glyphs[0];
    let last = glyphs[glyphs.len() - 1];
    proof {
        let models = glyph_models(glyphs@);
        assert(models.first() == first@);
        assert(models.last() == last@);
    }
    let extent: i128 = last.position.x as i128 + last.advance as i128 - first.position.x as i128;
    let wide: i128 = ceil_pixels(extent) + margin.3 as i128 + margin.1 as i128;
    let high: i128 = ceil_pixels(font.height as i128) + margin.0 as i128 + margin.2 as i128;
    let width: i128 = if wide < 0 {
        0
    } else {
        wide
    };
    let height: i128 = if high < 0 {
        0
    } else {
        high
    };
    if width <= u32::MAX as i128 && height <= u32::MAX as i128 {
        Some((width as u32, height as u32))
    } else {
        None
    }
}

/// Draws `text` in `scaled_font` and `color` as a text block: a transparent
/// image as high as one line and as wide as the laid-out glyphs, each plus the
/// margins, with the coverage of every glyph painted on it.
///
/// The text is laid out from the top left margin in the width that the left
/// and right margins leave of `max_width`. A glyph without a mark leaves only
/// its advance; so does a character that the font does not have.
///
/// Fails with `EmptyText` where the text places no glyph, and with `TooLarge`
/// where the text is longer than a layout can hold or the block cannot be
/// allocated.
pub fn draw_glyphs(
    text: &str,
    scaled_font: &ScaledFont,
    color: [u8; 3],
    max_width: u32,
    margin: ImageMargin,
) -> (result: Result<RgbaImage, RenderError>)
    ensures
        renders(result, block_outcome(*scaled_font, color@, max_width, margin, text@)),
{
    if text.unicode_len() > MAX_TEXT_CHARS {
        return Err(RenderError::TooLarge);
    }
    let origin = Point { x: margin.3 as i64 * 64, y: margin.0 as i64 * 64 };
    let line_width: i64 = (max_width as i64 - margin.3 as i64 - margin.1 as i64) * 64;
    let mut glyphs: Vec<Glyph> = Vec::new();
    assert(glyph_models(glyphs@) =~= Seq::<PlacedGlyph>::empty());
    layout_paragraph(scaled_font, origin, line_width, text, &mut glyphs);
    let ghost models = block_glyphs(*scaled_font, max_width, margin, text@);
    assert(glyph_models(glyphs@) =~= models);
    if glyphs.len() == 0 {
        return Err(RenderError::EmptyText);
    }
    let (width, height) = match block_size(scaled_font, &glyphs, margin) {
        Some(size) => size,
        None => {
            return Err(RenderError::TooLarge);
        },
    };
    if !fits_in_memory(width, height) {
        return Err(RenderError::TooLarge);
    }
    let mut image = zeroed(width, height);
    let mut i: usize = 0;
    while i < glyphs.len()
        invariant
            i <= glyphs.len(),
            glyph_models(glyphs@) == models,
            image@.width == width,
            image@.height == height,
            forall|x: int, y: int|
                image@.contains(x, y) ==> #[trigger] image@.at(x, y) == painted_at(
                    *scaled_font,
                    color@,
                    models.take(i as int),
                    x,
                    y,
                ),
        decreases glyphs.len() - i,
    {
        let glyph = glyphs[i];
        let ghost prior = image@;
        proof {
            assert(models.take(i + 1).drop_last() =~= models.take(i as int));
            assert(models.take(i + 1).last() == glyph@);
        }
        match scaled_font.glyph(glyph.ch) {
            Some(entry) => {
                match &entry.outline {
                    Some(outline) => {
                        let left: i64 = floor_pixel(glyph.position.x) + outline.left as i64;
                        let top: i64 = floor_pixel(glyph.position.y) + outline.top as i64;
                        paint_outline(&mut image, outline, left, top, color);
                    },
                    None => {},
                }
            },
            None => {},
        }
        assert forall|x: int, y: int| image@.contains(x, y) implies #[trigger] image@.at(x, y)
            == painted_at(*scaled_font, color@, models.take(i + 1), x, y) by {
            assert(prior.at(x, y) == painted_at(
                *scaled_font,
                color@,
                models.take(i as int),
                x,
                y,
            ));
        }
        i = i + 1;
    }
    assert(models.take(i as int) =~= models);
    Ok(image)
}

} // verus!
