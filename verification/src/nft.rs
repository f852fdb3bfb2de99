//! The certificate: a header of title and tag, a body that holds the QR
//! symbol, and a footer of hash, description, public key and timestamp,
//! stacked on an opaque white background.

use vstd::prelude::*;
use crate::bitmap::{Bitmap, Grid};
use crate::buffer::{
    allocatable, buffer_height, buffer_width, fits_in_memory, read_pixel, transparent,
    write_pixel, zeroed, Raster, RgbaImage,
};
use crate::canvas::{
    before, blend_onto, lemma_stack_congruent, over, rasters, renders, same_image, same_stack,
    stack_outcome, try_stack_images,
};
use crate::error::RenderError;
use crate::font::ScaledFont;
use crate::pixel::{lemma_opaque_source, merge_rgba};
use crate::qr::{qr_bitmap, qr_symbol};
use crate::text::{block_outcome, draw_glyphs, ImageMargin};

verus! {

/// Columns left free on each side of the QR symbol.
pub const BODY_PADDING_X: u32 = 40;

/// Rows left free above and below the QR symbol.
pub const BODY_PADDING_Y: u32 = 20;

/// The opaque grey pixel of a luma sample.
pub open spec fn grey(luma: u8) -> Seq<u8> {
    seq![luma, luma, luma, 255u8]
}

/// Whether the body that holds `symbol` can be made.
pub open spec fn body_fits(symbol: Grid) -> bool {
    &&& symbol.width + 2 * BODY_PADDING_X <= u32::MAX
    &&& symbol.height + 2 * BODY_PADDING_Y <= u32::MAX
    &&& allocatable(symbol.width + 2 * BODY_PADDING_X, symbol.height + 2 * BODY_PADDING_Y)
}

/// The body that holds `symbol`: the symbol as opaque grey, inset by the
/// padding on a transparent canvas.
pub open spec fn body_raster(symbol: Grid) -> Raster {
    Raster {
        width: (symbol.width + 2 * BODY_PADDING_X) as nat,
        height: (symbol.height + 2 * BODY_PADDING_Y) as nat,
        pixels: Map::new(
            |p: (int, int)| true,
            |p: (int, int)|
                if symbol.contains(p.0 - BODY_PADDING_X, p.1 - BODY_PADDING_Y) {
                    grey(symbol.at(p.0 - BODY_PADDING_X, p.1 - BODY_PADDING_Y))
                } else {
                    transparent()
                },
        ),
    }
}

/// What the body for `payload` comes to.
pub open spec fn body_outcome(payload: Seq<char>) -> Result<Raster, RenderError> {
    match qr_symbol(payload) {
        None => Err(RenderError::QrEncoding),
        Some(symbol) => if body_fits(symbol) {
            Ok(body_raster(symbol))
        } else {
            Err(RenderError::TooLarge)
        },
    }
}

/// The body that holds `symbol`: each luma sample becomes an opaque grey
/// pixel, blended onto a transparent canvas that leaves the padding free on
/// every side.
pub fn body_from_symbol(symbol: &Bitmap) -> (body: RgbaImage)
    requires
        body_fits(symbol@),
    ensures
        same_image(body@, body_raster(symbol@)),
{
    let width: u32 = symbol.width();
    let height: u32 = symbol.height();
    let mut body = zeroed(width + 2 * BODY_PADDING_X, height + 2 * BODY_PADDING_Y);
    let ghost grid = symbol@;
    let ghost size = body@;
    let mut row: u32 = 0;
    while row < height
        invariant
            row <= height,
            grid == symbol@,
            width == grid.width,
            height == grid.height,
            body@.width == size.width == width + 2 * BODY_PADDING_X <= u32::MAX,
            body@.height == size.height == height + 2 * BODY_PADDING_Y <= u32::MAX,
            forall|x: int, y: int|
                size.contains(x, y) ==> #[trigger] body@.at(x, y) == (if grid.contains(
                    x - BODY_PADDING_X,
                    y - BODY_PADDING_Y,
                ) && before(x - BODY_PADDING_X, y - BODY_PADDING_Y, 0, row as int) {
                    grey(grid.at(x - BODY_PADDING_X, y - BODY_PADDING_Y))
                } else {
                    transparent()
                }),
        decreases height - row,
    {
        let mut col: u32 = 0;
        while col < width
            invariant
                row < height,
                col <= width,
                grid == symbol@,
                width == grid.width,
                height == grid.height,
                body@.width == size.width == width + 2 * BODY_PADDING_X <= u32::MAX,
                body@.height == size.height == height + 2 * BODY_PADDING_Y <= u32::MAX,
                forall|x: int, y: int|
                    size.contains(x, y) ==> #[trigger] body@.at(x, y) == (if grid.contains(
                        x - BODY_PADDING_X,
                        y - BODY_PADDING_Y,
                    ) && before(x - BODY_PADDING_X, y - BODY_PADDING_Y, col as int, row as int) {
                        grey(grid.at(x - BODY_PADDING_X, y - BODY_PADDING_Y))
                    } else {
                        transparent()
                    }),
            decreases width - col,
        {
            let luma: u8 = symbol.sample(col, row);
            let source: [u8; 4] = [luma, luma, luma, 255];
            let x: u32 = BODY_PADDING_X + col;
            let y: u32 = BODY_PADDING_Y + row;
            let target = read_pixel(&body, x, y);
            let ghost prior = body@;
            proof {
                assert(source@ =~= grey(luma));
                assert(prior.at(x as int, y as int) == transparent());
                lemma_opaque_source(source@, transparent());
            }
            write_pixel(&mut body, x, y, merge_rgba(source, target));
            assert forall|px: int, py: int| size.contains(px, py) implies #[trigger] body@.at(px, py)
                == (if grid.contains(px - BODY_PADDING_X, py - BODY_PADDING_Y) && before(
                px - BODY_PADDING_X,
                py - BODY_PADDING_Y,
                col + 1,
                row as int,
            ) {
                grey(grid.at(px - BODY_PADDING_X, py - BODY_PADDING_Y))
            } else {
                transparent()
            }) by {
                assert(prior.at(px, py) == (if grid.contains(
                    px - BODY_PADDING_X,
                    py - BODY_PADDING_Y,
                ) && before(px - BODY_PADDING_X, py - BODY_PADDING_Y, col as int, row as int) {
                    grey(grid.at(px - BODY_PADDING_X, py - BODY_PADDING_Y))
                } else {
                    transparent()
                }));
            }
            col = col + 1;
        }
        row = row + 1;
    }
    body
}

/// The body of the certificate: the QR symbol of `qrcode_text`, inset by the
/// padding.
///
/// Fails with `QrEncoding` where the text cannot be encoded as a QR symbol,
/// and with `TooLarge` where the body cannot be allocated.
pub fn generate_body(qrcode_text: &str) -> (result: Result<RgbaImage, RenderError>)
    ensures
        renders(result, body_outcome(qrcode_text@)),
{
    let symbol = match qr_bitmap(qrcode_text) {
        Ok(symbol) => symbol,
        Err(e) => {
            return Err(e);
        },
    };
    let width: u32 = symbol.width();
    let height: u32 = symbol.height();
    if width > u32::MAX - 2 * BODY_PADDING_X || height > u32::MAX - 2 * BODY_PADDING_Y {
        return Err(RenderError::TooLarge);
    }
    if !fits_in_memory(width + 2 * BODY_PADDING_X, height + 2 * BODY_PADDING_Y) {
        return Err(RenderError::TooLarge);
    }
    Ok(body_from_symbol(&symbol))
}

/// The fonts of the certificate, one for each text field, each at the size
/// its field is set in.
pub struct Fonts {
    pub title: ScaledFont,
    pub tag: ScaledFont,
    pub description: ScaledFont,
    pub timestamp: ScaledFont,
    pub public_key: ScaledFont,
    pub hash: ScaledFont,
}

/// Size of the title's and the tag's font in pixels.
pub const TITLE_FONT_SIZE: u32 = 30;

/// Size of the description's font in pixels.
pub const DESCRIPTION_FONT_SIZE: u32 = 24;

/// Size of the timestamp's and the public key's font in pixels.
pub const SMALL_FONT_SIZE: u32 = 12;

/// Size of the hash's font in pixels.
pub const HASH_FONT_SIZE: u32 = 10;

/// The colour of every text field: black.
pub open spec fn ink() -> Seq<u8> {
    seq![0u8, 0u8, 0u8]
}

/// The margins of the title and of the tag.
pub open spec fn title_margin() -> ImageMargin {
    ImageMargin(20, 20, 0, 20)
}

/// The margins of the description.
pub open spec fn description_margin() -> ImageMargin {
    ImageMargin(20, 40, 20, 40)
}

/// The margins of the timestamp.
pub open spec fn timestamp_margin() -> ImageMargin {
    ImageMargin(0, 20, 10, 20)
}

/// The margins of the public key.
pub open spec fn public_key_margin() -> ImageMargin {
    ImageMargin(0, 20, 0, 20)
}

/// The margins of the hash.
pub open spec fn hash_margin() -> ImageMargin {
    ImageMargin(2, 20, 10, 20)
}

/// Draws a text field in black with the given margins.
fn draw_field(text: &str, font: &ScaledFont, width: u32, margin: ImageMargin) -> (result: Result<
    RgbaImage,
    RenderError,
>)
    ensures
        renders(result, block_outcome(*font, ink(), width, margin, text@)),
{
    let black: [u8; 3] = [0, 0, 0];
    assert(black@ =~= ink());
    draw_glyphs(text, font, black, width, margin)
}

/// The title's text block.
pub fn draw_title(title: &str, width: u32, font: &ScaledFont) -> (result: Result<
    RgbaImage,
    RenderError,
>)
    ensures
        renders(result, block_outcome(*font, ink(), width, title_margin(), title@)),
{
    draw_field(title, font, width, ImageMargin(20, 20, 0, 20))
}

/// The tag's text block.
pub fn draw_tag(tag: &str, width: u32, font: &ScaledFont) -> (result: Result<
    RgbaImage,
    RenderError,
>)
    ensures
        renders(result, block_outcome(*font, ink(), width, title_margin(), tag@)),
{
    draw_field(tag, font, width, ImageMargin(20, 20, 0, 20))
}

/// The description's text block.
pub fn draw_description(description: &str, width: u32, font: &ScaledFont) -> (result: Result<
    RgbaImage,
    RenderError,
>)
    ensures
        renders(result, block_outcome(*font, ink(), width, description_margin(), description@)),
{
    draw_field(description, font, width, ImageMargin(20, 40, 20, 40))
}

/// The timestamp's text block. The timestamp comes as text.
pub fn draw_timestamp(timestamp: &str, width: u32, font: &ScaledFont) -> (result: Result<
    RgbaImage,
    RenderError,
>)
    ensures
        renders(result, block_outcome(*font, ink(), width, timestamp_margin(), timestamp@)),
{
    draw_field(timestamp, font, width, ImageMargin(0, 20, 10, 20))
}

/// The public key's text block.
pub fn draw_public_key(public_key: &str, width: u32, font: &ScaledFont) -> (result: Result<
    RgbaImage,
    RenderError,
>)
    ensures
        renders(result, block_outcome(*font, ink(), width, public_key_margin(), public_key@)),
{
    draw_field(public_key, font, width, ImageMargin(0, 20, 0, 20))
}

/// The hash's text block.
pub fn draw_hash(hash: &str, width: u32, font: &ScaledFont) -> (result: Result<
    RgbaImage,
    RenderError,
>)
    ensures
        renders(result, block_outcome(*font, ink(), width, hash_margin(), hash@)),
{
    draw_field(hash, font, width, ImageMargin(2, 20, 10, 20))
}

/// The width that the title is laid out in: seven tenths of the header's
/// width. The tag has the rest.
pub open spec fn title_share(width: u32) -> u32 {
    (width * 7 / 10) as u32
}

/// The height of a header: that of the higher of its two blocks.
pub open spec fn header_height(title: Raster, tag: Raster) -> nat {
    if title.height >= tag.height {
        title.height
    } else {
        tag.height
    }
}

/// The header of the given width made of a title block and a tag block: the
/// title at the left edge, the tag at the right edge, both at the top, on a
/// transparent canvas as high as the higher of the two. `TooWide` where a
/// block is wider than the header, `TooLarge` where the header cannot be
/// allocated.
pub open spec fn header_layout(title: Raster, tag: Raster, width: int) -> Result<
    Raster,
    RenderError,
> {
    if title.width > width || tag.width > width {
        Err(RenderError::TooWide)
    } else if !allocatable(width, header_height(title, tag) as int) {
        Err(RenderError::TooLarge)
    } else {
        Ok(
            Raster {
                width: width as nat,
                height: header_height(title, tag),
                pixels: Map::new(
                    |p: (int, int)| true,
                    |p: (int, int)|
                        over(
                            over(transparent(), title, 0, 0, p.0, p.1),
                            tag,
                            width - tag.width,
                            0,
                            p.0,
                            p.1,
                        ),
                ),
            },
        )
    }
}

/// What rendering a header comes to: the first failure among the title's
/// block, the tag's block and their layout, or the header.
pub open spec fn header_outcome(fonts: Fonts, title: Seq<char>, tag: Seq<char>, width: u32) -> Result<
    Raster,
    RenderError,
> {
    match block_outcome(fonts.title, ink(), title_share(width), title_margin(), title) {
        Err(e) => Err(e),
        Ok(title_block) => match block_outcome(
            fonts.tag,
            ink(),
            (width - title_share(width)) as u32,
            title_margin(),
            tag,
        ) {
            Err(e) => Err(e),
            Ok(tag_block) => header_layout(title_block, tag_block, width as int),
        },
    }
}

/// Headers of blocks with the same size and pixels come to the same.
pub proof fn lemma_header_layout_congruent(
    title: Raster,
    tag: Raster,
    title_model: Raster,
    tag_model: Raster,
    width: int,
)
    requires
        same_image(title, title_model),
        same_image(tag, tag_model),
    ensures
        header_layout(title, tag, width) is Ok <==> header_layout(title_model, tag_model, width) is Ok,
        header_layout(title, tag, width) is Err ==> header_layout(title, tag, width)
            == header_layout(title_model, tag_model, width),
        header_layout(title, tag, width) matches Ok(header) ==> same_image(
            header,
            header_layout(title_model, tag_model, width)->Ok_0,
        ),
{
}

/// Places a title block and a tag block side by side in a header of the given
/// width.
pub fn compose_header(title_block: &RgbaImage, tag_block: &RgbaImage, width: u32) -> (result: Result<
    RgbaImage,
    RenderError,
>)
    ensures
        renders(result, header_layout(title_block@, tag_block@, width as int)),
{
    let title_width: u32 = buffer_width(title_block);
    let tag_width: u32 = buffer_width(tag_block);
    let title_height: u32 = buffer_height(title_block);
    let tag_height: u32 = buffer_height(tag_block);
    if title_width > width || tag_width > width {
        return Err(RenderError::TooWide);
    }
    let height: u32 = if title_height >= tag_height {
        title_height
    } else {
        tag_height
    };
    if !fits_in_memory(width, height) {
        return Err(RenderError::TooLarge);
    }
    let mut header = zeroed(width, height);
    blend_onto(&mut header, title_block, 0, 0);
    blend_onto(&mut header, tag_block, width - tag_width, 0);
    Ok(header)
}

/// The header of the certificate: the title at the left and the tag at the
/// right of a row of the given width.
pub fn generate_header(title: &str, tag: &str, width: u32, fonts: &Fonts) -> (result: Result<
    RgbaImage,
    RenderError,
>)
    ensures
        renders(result, header_outcome(*fonts, title@, tag@, width)),
{
    assert(0 <= (width as int) * 7 / 10 <= width);
    let title_width: u32 = ((width as u64) * 7 / 10) as u32;
    let tag_width: u32 = width - title_width;
    let image_title = match draw_title(title, title_width, &fonts.title) {
        Ok(image) => image,
        Err(e) => {
            return Err(e);
        },
    };
    let image_tag = match draw_tag(tag, tag_width, &fonts.tag) {
        Ok(image) => image,
        Err(e) => {
            return Err(e);
        },
    };
    proof {
        lemma_header_layout_congruent(
            image_title@,
            image_tag@,
            block_outcome(fonts.title, ink(), title_width, title_margin(), title@)->Ok_0,
            block_outcome(fonts.tag, ink(), tag_width, title_margin(), tag@)->Ok_0,
            width as int,
        );
    }
    compose_header(&image_title, &image_tag, width)
}

/// The footer of the given width made of four blocks, stacked from the top
/// in the order hash, description, public key, timestamp, on a transparent
/// canvas as high as the four together: the hash centred, the description and
/// the public key at the left edge, the timestamp at the right edge. `TooWide`
/// where a block is wider than the footer, `TooLarge` where the footer cannot
/// be described or allocated.
pub open spec fn footer_layout(
    hash: Raster,
    description: Raster,
    public_key: Raster,
    timestamp: Raster,
    width: int,
) -> Result<Raster, RenderError> {
    let height = hash.height + description.height + public_key.height + timestamp.height;
    if hash.width > width || description.width > width || public_key.width > width
        || timestamp.width > width {
        Err(RenderError::TooWide)
    } else if height > u32::MAX || !allocatable(width, height as int) {
        Err(RenderError::TooLarge)
    } else {
        Ok(
            Raster {
                width: width as nat,
                height,
                pixels: Map::new(
                    |p: (int, int)| true,
                    |p: (int, int)|
                        over(
                            over(
                                over(
                                    over(
                                        transparent(),
                                        hash,
                                        (width - hash.width) / 2,
                                        0,
                                        p.0,
                                        p.1,
                                    ),
                                    description,
                                    0,
                                    hash.height as int,
                                    p.0,
                                    p.1,
                                ),
                                public_key,
                                0,
                                (hash.height + description.height) as int,
                                p.0,
                                p.1,
                            ),
                            timestamp,
                            width - timestamp.width,
                            (hash.height + description.height + public_key.height) as int,
                            p.0,
                            p.1,
                        ),
                ),
            },
        )
    }
}

/// What rendering a footer comes to: the first failure among the blocks of
/// the public key, the description, the timestamp and the hash, drawn in that
/// order, and their layout; or the footer.
pub open spec fn footer_outcome(
    fonts: Fonts,
    hash: Seq<char>,
    public_key: Seq<char>,
    description: Seq<char>,
    timestamp: Seq<char>,
    width: u32,
) -> Result<Raster, RenderError> {
    match block_outcome(fonts.public_key, ink(), width, public_key_margin(), public_key) {
        Err(e) => Err(e),
        Ok(key_block) => match block_outcome(
            fonts.description,
            ink(),
            width,
            description_margin(),
            description,
        ) {
            Err(e) => Err(e),
            Ok(description_block) => match block_outcome(
                fonts.timestamp,
                ink(),
                width,
                timestamp_margin(),
                timestamp,
            ) {
                Err(e) => Err(e),
                Ok(timestamp_block) => match block_outcome(
                    fonts.hash,
                    ink(),
                    width,
                    hash_margin(),
                    hash,
                ) {
                    Err(e) => Err(e),
                    Ok(hash_block) => footer_layout(
                        hash_block,
                        description_block,
                        key_block,
                        timestamp_block,
                        width as int,
                    ),
                },
            },
        },
    }
}

/// Footers of blocks with the same size and pixels come to the same.
pub proof fn lemma_footer_layout_congruent(
    blocks: Seq<Raster>,
    models: Seq<Raster>,
    width: int,
)
    requires
        blocks.len() == 4,
        same_stack(blocks, models),
    ensures
        footer_layout(blocks[0], blocks[1], blocks[2], blocks[3], width) is Ok <==> footer_layout(
            models[0],
            models[1],
            models[2],
            models[3],
            width,
        ) is Ok,
        footer_layout(blocks[0], blocks[1], blocks[2], blocks[3], width) is Err ==> footer_layout(
            blocks[0],
            blocks[1],
            blocks[2],
            blocks[3],
            width,
        ) == footer_layout(models[0], models[1], models[2], models[3], width),
        footer_layout(blocks[0], blocks[1], blocks[2], blocks[3], width) matches Ok(footer)
            ==> same_image(
            footer,
            footer_layout(models[0], models[1], models[2], models[3], width)->Ok_0,
        ),
{
    assert(same_image(blocks[0], models[0]));
    assert(same_image(blocks[1], models[1]));
    assert(same_image(blocks[2], models[2]));
    assert(same_image(blocks[3], models[3]));
}

/// Stacks a hash block, a description block, a public key block and a
/// timestamp block in a footer of the given width.
pub fn compose_footer(
    hash_block: &RgbaImage,
    description_block: &RgbaImage,
    public_key_block: &RgbaImage,
    timestamp_block: &RgbaImage,
    width: u32,
) -> (result: Result<RgbaImage, RenderError>)
    ensures
        renders(
            result,
            footer_layout(
                hash_block@,
                description_block@,
                public_key_block@,
                timestamp_block@,
                width as int,
            ),
        ),
{
    let hash_width: u32 = buffer_width(hash_block);
    let timestamp_width: u32 = buffer_width(timestamp_block);
    if hash_width > width || buffer_width(description_block) > width || buffer_width(
        public_key_block,
    ) > width || timestamp_width > width {
        return Err(RenderError::TooWide);
    }
    let hash_height: u32 = buffer_height(hash_block);
    let description_height: u32 = buffer_height(description_block);
    let public_key_height: u32 = buffer_height(public_key_block);
    let total: u64 = hash_height as u64 + description_height as u64 + public_key_height as u64
        + buffer_height(timestamp_block) as u64;
    if total > u32::MAX as u64 {
        return Err(RenderError::TooLarge);
    }
    let height: u32 = total as u32;
    if !fits_in_memory(width, height) {
        return Err(RenderError::TooLarge);
    }
    let mut footer = zeroed(width, height);
    let mut y_offset: u32 = 0;
    blend_onto(&mut footer, hash_block, (width - hash_width) / 2, y_offset);
    y_offset = y_offset + hash_height;
    blend_onto(&mut footer, description_block, 0, y_offset);
    y_offset = y_offset + description_height;
    blend_onto(&mut footer, public_key_block, 0, y_offset);
    y_offset = y_offset + public_key_height;
    blend_onto(&mut footer, timestamp_block, width - timestamp_width, y_offset);
    Ok(footer)
}

/// The footer of the certificate: hash, description, public key and
/// timestamp, one below the other in a column of the given width.
pub fn generate_footer(
    hash: &str,
    public_key: &str,
    description: &str,
    timestamp: &str,
    width: u32,
    fonts: &Fonts,
) -> (result: Result<RgbaImage, RenderError>)
    ensures
        renders(result, footer_outcome(*fonts, hash@, public_key@, description@, timestamp@, width)),
{
    let image_public_key = match draw_public_key(public_key, width, &fonts.public_key) {
        Ok(image) => image,
        Err(e) => {
            return Err(e);
        },
    };
    let image_description = match draw_description(description, width, &fonts.description) {
        Ok(image) => image,
        Err(e) => {
            return Err(e);
        },
    };
    let image_timestamp = match draw_timestamp(timestamp, width, &fonts.timestamp) {
        Ok(image) => image,
        Err(e) => {
            return Err(e);
        },
    };
    let image_hash = match draw_hash(hash, width, &fonts.hash) {
        Ok(image) => image,
        Err(e) => {
            return Err(e);
        },
    };
    proof {
        lemma_footer_layout_congruent(
            seq![image_hash@, image_description@, image_public_key@, image_timestamp@],
            seq![
                block_outcome(fonts.hash, ink(), width, hash_margin(), hash@)->Ok_0,
                block_outcome(
                    fonts.description,
                    ink(),
                    width,
                    description_margin(),
                    description@,
                )->Ok_0,
                block_outcome(
                    fonts.public_key,
                    ink(),
                    width,
                    public_key_margin(),
                    public_key@,
                )->Ok_0,
                block_outcome(fonts.timestamp, ink(), width, timestamp_margin(), timestamp@)->Ok_0,
            ],
            width as int,
        );
    }
    compose_footer(&image_hash, &image_description, &image_public_key, &image_timestamp, width)
}

/// The texts of a certificate.
pub struct Content {
    /// The name of what is certified, set as the title.
    pub title: String,
    pub tag: String,
    pub hash: String,
    pub public_key: String,
    pub description: String,
    /// The time of issue, as it is to be printed.
    pub timestamp: String,
    /// What the QR symbol encodes.
    pub payload: String,
}

/// The opaque white pixel.
pub open spec fn white() -> Seq<u8> {
    seq![255u8, 255u8, 255u8, 255u8]
}

/// What rendering a certificate comes to: the first failure among the body,
/// the header and the footer, made in that order, and their stacking; or the
/// three stacked from the top as header, body, footer on opaque white. The
/// header and the footer are as wide as the body.
pub open spec fn certificate_outcome(content: Content, fonts: Fonts) -> Result<
    Raster,
    RenderError,
> {
    match body_outcome(content.payload@) {
        Err(e) => Err(e),
        Ok(body) => match header_outcome(
            fonts,
            content.title@,
            content.tag@,
            body.width as u32,
        ) {
            Err(e) => Err(e),
            Ok(header) => match footer_outcome(
                fonts,
                content.hash@,
                content.public_key@,
                content.description@,
                content.timestamp@,
                body.width as u32,
            ) {
                Err(e) => Err(e),
                Ok(footer) => stack_outcome(seq![header, body, footer], white()),
            },
        },
    }
}

/// Renders the certificate of `content` in `fonts`.
pub fn generate_certificate(content: &Content, fonts: &Fonts) -> (result: Result<
    RgbaImage,
    RenderError,
>)
    ensures
        renders(result, certificate_outcome(*content, *fonts)),
{
    let body = match generate_body(content.payload.as_str()) {
        Ok(image) => image,
        Err(e) => {
            return Err(e);
        },
    };
    let width: u32 = buffer_width(&body);
    let header = match generate_header(
        content.title.as_str(),
        content.tag.as_str(),
        width,
        fonts,
    ) {
        Ok(image) => image,
        Err(e) => {
            return Err(e);
        },
    };
    let footer = match generate_footer(
        content.hash.as_str(),
        content.public_key.as_str(),
        content.description.as_str(),
        content.timestamp.as_str(),
        width,
        fonts,
    ) {
        Ok(image) => image,
        Err(e) => {
            return Err(e);
        },
    };
    let ghost models = seq![
        header_outcome(*fonts, content.title@, content.tag@, width)->Ok_0,
        body_outcome(content.payload@)->Ok_0,
        footer_outcome(
            *fonts,
            content.hash@,
            content.public_key@,
            content.description@,
            content.timestamp@,
            width,
        )->Ok_0,
    ];
    let ghost images = seq![header@, body@, footer@];
    let mut stack: Vec<RgbaImage> = Vec::new();
    stack.push(header);
    stack.push(body);
    stack.push(footer);
    let background: [u8; 4] = [255, 255, 255, 255];
    proof {
        assert(background@ =~= white());
        assert(rasters(stack@) =~= images);
        assert(same_stack(images, models));
        lemma_stack_congruent(images, models, white());
    }
    try_stack_images(stack, background)
}

} // verus!
