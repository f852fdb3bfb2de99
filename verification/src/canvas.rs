//! Composition of images: blending one image onto another at an offset, and
//! stacking a sequence of images vertically onto a background colour.
//!
//! Every pixel written here goes through the source-over blend of
//! [`crate::pixel::merge_rgba`].

use vstd::prelude::*;
use crate::buffer::{
    allocatable, buffer_height, buffer_width, fits_in_memory, read_pixel, write_pixel, zeroed,
    Raster, RgbaImage,
};
use crate::error::RenderError;
use crate::pixel::{merge_rgba, merged};

verus! {

/// Whether two images have the same size and the same pixels.
pub open spec fn same_image(a: Raster, b: Raster) -> bool {
    &&& a.width == b.width
    &&& a.height == b.height
    &&& forall|x: int, y: int| a.contains(x, y) ==> a.at(x, y) == b.at(x, y)
}

/// Whether `result` is the given outcome of a render: an image with the size
/// and the pixels of the outcome's, or the outcome's error.
pub open spec fn renders(
    result: Result<RgbaImage, RenderError>,
    outcome: Result<Raster, RenderError>,
) -> bool {
    match (result, outcome) {
        (Ok(image), Ok(raster)) => same_image(image@, raster),
        (Err(e), Err(expected)) => e == expected,
        _ => false,
    }
}

/// The pixel `below` at `(x, y)` once `layer` has been blended over it with
/// its top left corner at `(x_offset, y_offset)`: where `layer` covers
/// `(x, y)`, the layer's pixel merged onto `below`; elsewhere `below`
/// unchanged.
pub open spec fn over(below: Seq<u8>, layer: Raster, x_offset: int, y_offset: int, x: int, y: int) -> Seq<
    u8,
> {
    if layer.contains(x - x_offset, y - y_offset) {
        merged(layer.at(x - x_offset, y - y_offset), below)
    } else {
        below
    }
}

/// The pixel at `(x, y)` of `canvas` once `source` has been blended onto it
/// with its top left corner at `(x_offset, y_offset)`.
pub open spec fn blended_at(
    canvas: Raster,
    source: Raster,
    x_offset: int,
    y_offset: int,
    x: int,
    y: int,
) -> Seq<u8> {
    over(canvas.at(x, y), source, x_offset, y_offset, x, y)
}

/// Whether the source pixel `(sx, sy)` comes before `(col, row)` in row-major
/// order.
pub open spec fn before(sx: int, sy: int, col: int, row: int) -> bool {
    sy < row || (sy == row && sx < col)
}

/// The pixel at `(x, y)` of `canvas` while `source` is being blended onto it:
/// the source pixels before `(col, row)` have been merged, the others not yet.
pub open spec fn partly_blended_at(
    canvas: Raster,
    source: Raster,
    x_offset: int,
    y_offset: int,
    col: int,
    row: int,
    x: int,
    y: int,
) -> Seq<u8> {
    if before(x - x_offset, y - y_offset, col, row) {
        blended_at(canvas, source, x_offset, y_offset, x, y)
    } else {
        canvas.at(x, y)
    }
}

/// Blends every pixel of `source` onto `canvas`, the top left corner of
/// `source` at `(x_offset, y_offset)` of `canvas`.
///
/// `source` must lie within `canvas`.
pub fn blend_onto(canvas: &mut RgbaImage, source: &RgbaImage, x_offset: u32, y_offset: u32)
    requires
        x_offset + source@.width <= old(canvas)@.width,
        y_offset + source@.height <= old(canvas)@.height,
    ensures
        final(canvas)@.width == old(canvas)@.width,
        final(canvas)@.height == old(canvas)@.height,
        forall|x: int, y: int|
            old(canvas)@.contains(x, y) ==> #[trigger] final(canvas)@.at(x, y) == blended_at(
                old(canvas)@,
                source@,
                x_offset as int,
                y_offset as int,
                x,
                y,
            ),
{
    let width: u32 = buffer_width(source);
    let height: u32 = buffer_height(source);
    let ghost start = canvas@;
    let canvas_width: u32 = buffer_width(canvas);
    let canvas_height: u32 = buffer_height(canvas);
    let mut row: u32 = 0;
    while row < height
        invariant
            row <= height,
            width == source@.width,
            height == source@.height,
            x_offset + width <= start.width == canvas_width,
            y_offset + height <= start.height == canvas_height,
            canvas@.width == start.width,
            canvas@.height == start.height,
            forall|x: int, y: int|
                start.contains(x, y) ==> #[trigger] canvas@.at(x, y) == partly_blended_at(
                    start,
                    source@,
                    x_offset as int,
                    y_offset as int,
                    0,
                    row as int,
                    x,
                    y,
                ),
        decreases height - row,
    {
        let mut col: u32 = 0;
        while col < width
            invariant
                row < height,
                col <= width,
                width == source@.width,
                height == source@.height,
                x_offset + width <= start.width == canvas_width,
                y_offset + height <= start.height == canvas_height,
                canvas@.width == start.width,
                canvas@.height == start.height,
                forall|x: int, y: int|
                    start.contains(x, y) ==> #[trigger] canvas@.at(x, y) == partly_blended_at(
                        start,
                        source@,
                        x_offset as int,
                        y_offset as int,
                        col as int,
                        row as int,
                        x,
                        y,
                    ),
            decreases width - col,
        {
            let above = read_pixel(source, col, row);
            let below = read_pixel(canvas, x_offset + col, y_offset + row);
            let ghost prior = canvas@;
            write_pixel(canvas, x_offset + col, y_offset + row, merge_rgba(above, below));
            assert forall|x: int, y: int| start.contains(x, y) implies #[trigger] canvas@.at(x, y)
                == partly_blended_at(
                start,
                source@,
                x_offset as int,
                y_offset as int,
                col + 1,
                row as int,
                x,
                y,
            ) by {
                assert(prior.at(x, y) == partly_blended_at(
                    start,
                    source@,
                    x_offset as int,
                    y_offset as int,
                    col as int,
                    row as int,
                    x,
                    y,
                ));
            }
            col = col + 1;
        }
        row = row + 1;
    }
}

/// Sets every pixel of `canvas` to `colour`.
pub fn fill(canvas: &mut RgbaImage, colour: [u8; 4])
    ensures
        final(canvas)@.width == old(canvas)@.width,
        final(canvas)@.height == old(canvas)@.height,
        forall|x: int, y: int|
            old(canvas)@.contains(x, y) ==> #[trigger] final(canvas)@.at(x, y) == colour@,
{
    let width: u32 = buffer_width(canvas);
    let height: u32 = buffer_height(canvas);
    let ghost start = canvas@;
    let mut row: u32 = 0;
    while row < height
        invariant
            row <= height,
            width == start.width,
            height == start.height,
            canvas@.width == start.width,
            canvas@.height == start.height,
            forall|x: int, y: int|
                start.contains(x, y) && before(x, y, 0, row as int) ==> #[trigger] canvas@.at(x, y)
                    == colour@,
        decreases height - row,
    {
        let mut col: u32 = 0;
        while col < width
            invariant
                row < height,
                col <= width,
                width == start.width,
                height == start.height,
                canvas@.width == start.width,
                canvas@.height == start.height,
                forall|x: int, y: int|
                    start.contains(x, y) && before(x, y, col as int, row as int)
                        ==> #[trigger] canvas@.at(x, y) == colour@,
            decreases width - col,
        {
            let ghost prior = canvas@;
            write_pixel(canvas, col, row, colour);
            assert forall|x: int, y: int|
                start.contains(x, y) && before(x, y, col + 1, row as int) implies #[trigger] canvas@.at(
                x,
                y,
            ) == colour@ by {
                if !(x == col && y == row) {
                    assert(prior.at(x, y) == colour@);
                }
            }
            col = col + 1;
        }
        row = row + 1;
    }
}

/// The models of a sequence of images.
pub open spec fn rasters(images: Seq<RgbaImage>) -> Seq<Raster> {
    images.map_values(|image: RgbaImage| image@)
}

/// The width of the canvas that holds `stack`: the greatest width among its
/// images.
pub open spec fn max_width(stack: Seq<Raster>) -> nat
    decreases stack.len(),
{
    if stack.len() == 0 {
        0
    } else {
        let rest = max_width(stack.drop_last());
        if stack.last().width > rest {
            stack.last().width
        } else {
            rest
        }
    }
}

/// The height of the canvas that holds `stack`: the sum of the heights of its
/// images.
pub open spec fn total_height(stack: Seq<Raster>) -> nat
    decreases stack.len(),
{
    if stack.len() == 0 {
        0
    } else {
        total_height(stack.drop_last()) + stack.last().height
    }
}

/// The pixel at `(x, y)` of the canvas that stacks the images of `stack` from
/// top to bottom on `background`: each image starts at the row where the one
/// before it ended, and is merged onto the background; what no image covers
/// is background.
pub open spec fn stacked_at(stack: Seq<Raster>, background: Seq<u8>, x: int, y: int) -> Seq<u8>
    decreases stack.len(),
{
    if stack.len() == 0 {
        background
    } else {
        let lowest = stack.last();
        let top = total_height(stack.drop_last());
        if lowest.contains(x, y - top) {
            merged(lowest.at(x, y - top), background)
        } else {
            stacked_at(stack.drop_last(), background, x, y)
        }
    }
}

/// Whether the canvas that holds `stack` can be made: its height fits in
/// `u32` and its buffer can be allocated.
pub open spec fn stack_fits(stack: Seq<Raster>) -> bool {
    &&& total_height(stack) <= u32::MAX
    &&& allocatable(max_width(stack) as int, total_height(stack) as int)
}

/// What stacking `stack` on `background` comes to: the canvas, or `TooLarge`
/// where it cannot be made.
pub open spec fn stack_outcome(stack: Seq<Raster>, background: Seq<u8>) -> Result<
    Raster,
    RenderError,
> {
    if stack_fits(stack) {
        Ok(
            Raster {
                width: max_width(stack),
                height: total_height(stack),
                pixels: Map::new(
                    |p: (int, int)| true,
                    |p: (int, int)| stacked_at(stack, background, p.0, p.1),
                ),
            },
        )
    } else {
        Err(RenderError::TooLarge)
    }
}

/// Whether two stacks hold as many images, each with the same size and
/// pixels as the one in its place in the other.
pub open spec fn same_stack(a: Seq<Raster>, b: Seq<Raster>) -> bool {
    &&& a.len() == b.len()
    &&& forall|i: int| 0 <= i < a.len() ==> same_image(#[trigger] a[i], b[i])
}

/// Stacks of images with the same sizes and pixels need the same room and
/// give every pixel the same value.
pub proof fn lemma_stack_congruent(a: Seq<Raster>, b: Seq<Raster>, background: Seq<u8>)
    requires
        same_stack(a, b),
    ensures
        max_width(a) == max_width(b),
        total_height(a) == total_height(b),
        stack_fits(a) == stack_fits(b),
        forall|x: int, y: int|
            #[trigger] stacked_at(a, background, x, y) == stacked_at(b, background, x, y),
    decreases a.len(),
{
    if a.len() > 0 {
        assert(same_image(a[a.len() - 1], b[a.len() - 1]));
        assert(same_stack(a.drop_last(), b.drop_last())) by {
            assert forall|i: int| 0 <= i < a.drop_last().len() implies same_image(
                #[trigger] a.drop_last()[i],
                b.drop_last()[i],
            ) by {
                assert(same_image(a[i], b[i]));
            }
        }
        lemma_stack_congruent(a.drop_last(), b.drop_last(), background);
        assert forall|x: int, y: int| #[trigger]
            stacked_at(a, background, x, y) == stacked_at(b, background, x, y) by {
            assert(stacked_at(a.drop_last(), background, x, y) == stacked_at(
                b.drop_last(),
                background,
                x,
                y,
            ));
        }
    }
}

/// The first `n` images of a stack need no more room than the whole stack.
pub proof fn lemma_prefix_sizes(stack: Seq<Raster>, n: int)
    requires
        0 <= n <= stack.len(),
    ensures
        max_width(stack.take(n)) <= max_width(stack),
        total_height(stack.take(n)) <= total_height(stack),
    decreases stack.len(),
{
    if n == stack.len() {
        assert(stack.take(n) =~= stack);
    } else {
        assert(stack.drop_last().take(n) =~= stack.take(n));
        lemma_prefix_sizes(stack.drop_last(), n);
    }
}

/// Below the last image of a stack there is only background.
pub proof fn lemma_below_stack_is_background(
    stack: Seq<Raster>,
    background: Seq<u8>,
    x: int,
    y: int,
)
    requires
        y >= total_height(stack),
    ensures
        stacked_at(stack, background, x, y) == background,
    decreases stack.len(),
{
    if stack.len() > 0 {
        lemma_below_stack_is_background(stack.drop_last(), background, x, y);
    }
}

/// The greater of two lengths.
pub open spec fn greater(a: nat, b: nat) -> nat {
    if a >= b {
        a
    } else {
        b
    }
}

/// A stack of two images is as wide as the wider of the two and as high as
/// both together. It can be made where that height fits in `u32` and a canvas
/// of that size can be allocated, and the canvas made of it has that size,
/// whatever the background.
pub proof fn lemma_stack_of_two(upper: Raster, lower: Raster, background: Seq<u8>)
    ensures
        max_width(seq![upper, lower]) == greater(upper.width, lower.width),
        total_height(seq![upper, lower]) == upper.height + lower.height,
        stack_outcome(seq![upper, lower], background) is Ok <==> upper.height + lower.height
            <= u32::MAX && allocatable(
            greater(upper.width, lower.width) as int,
            (upper.height + lower.height) as int,
        ),
        stack_outcome(seq![upper, lower], background) matches Ok(canvas) ==> canvas.width
            == greater(upper.width, lower.width) && canvas.height == upper.height + lower.height,
{
    let both = seq![upper, lower];
    let first = seq![upper];
    assert(both.drop_last() =~= first);
    assert(first.drop_last() =~= Seq::<Raster>::empty());
    assert(both.last() == lower);
    assert(first.last() == upper);
    assert(max_width(first.drop_last()) == 0 && total_height(first.drop_last()) == 0);
    assert(max_width(first) == upper.width && total_height(first) == upper.height);
}

/// The size of the canvas that holds `stack`, or `None` where that canvas
/// cannot be made.
pub fn stack_size(stack: &Vec<RgbaImage>) -> (size: Option<(u32, u32)>)
    ensures
        size is Some <==> stack_fits(rasters(stack@)),
        size matches Some((w, h)) ==> w == max_width(rasters(stack@)) && h == total_height(
            rasters(stack@),
        ),
{
    let ghost models = rasters(stack@);
    let mut width: u32 = 0;
    let mut height: u32 = 0;
    let mut i: usize = 0;
    while i < stack.len()
        invariant
            i <= stack.len(),
            models == rasters(stack@),
            width == max_width(models.take(i as int)),
            height == total_height(models.take(i as int)),
        decreases stack.len() - i,
    {
        let w: u32 = buffer_width(&stack[i]);
        let h: u32 = buffer_height(&stack[i]);
        proof {
            assert(models.take(i + 1).drop_last() =~= models.take(i as int));
            assert(models.take(i + 1).last() == stack@[i as int]@);
            lemma_prefix_sizes(models, i + 1);
        }
        if h > u32::MAX - height {
            return None;
        }
        if w > width {
            width = w;
        }
        height = height + h;
        i = i + 1;
    }
    assert(models.take(i as int) =~= models);
    if fits_in_memory(width, height) {
        Some((width, height))
    } else {
        None
    }
}

/// Stacks the images of `stack` from top to bottom into one canvas of the
/// colour `background_color`.
///
/// The canvas is as wide as the widest image and as high as all of them
/// together. Each image is blended onto the background with its left edge at
/// the left edge of the canvas; the columns that a narrower image leaves free
/// keep the background colour.
pub fn stack_images(stack: Vec<RgbaImage>, background_color: [u8; 4]) -> (canvas: RgbaImage)
    requires
        stack_fits(rasters(stack@)),
    ensures
        canvas@.width == max_width(rasters(stack@)),
        canvas@.height == total_height(rasters(stack@)),
        forall|x: int, y: int|
            canvas@.contains(x, y) ==> #[trigger] canvas@.at(x, y) == stacked_at(
                rasters(stack@),
                background_color@,
                x,
                y,
            ),
{
    let ghost models = rasters(stack@);
    let size = stack_size(&stack);
    let (canvas_width, canvas_height) = size.unwrap();
    let mut canvas = zeroed(canvas_width, canvas_height);
    fill(&mut canvas, background_color);
    let mut y_offset: u32 = 0;
    let mut i: usize = 0;
    while i < stack.len()
        invariant
            i <= stack.len(),
            models == rasters(stack@),
            canvas@.width == canvas_width == max_width(models),
            canvas@.height == canvas_height == total_height(models),
            y_offset == total_height(models.take(i as int)),
            forall|x: int, y: int|
                canvas@.contains(x, y) ==> #[trigger] canvas@.at(x, y) == stacked_at(
                    models.take(i as int),
                    background_color@,
                    x,
                    y,
                ),
        decreases stack.len() - i,
    {
        let image = &stack[i];
        let height: u32 = buffer_height(image);
        let ghost prior = canvas@;
        proof {
            assert(models.take(i + 1).drop_last() =~= models.take(i as int));
            assert(models.take(i + 1).last() == image@);
            lemma_prefix_sizes(models, i + 1);
        }
        blend_onto(&mut canvas, image, 0, y_offset);
        assert forall|x: int, y: int| canvas@.contains(x, y) implies #[trigger] canvas@.at(x, y)
            == stacked_at(models.take(i + 1), background_color@, x, y) by {
            assert(prior.at(x, y) == stacked_at(models.take(i as int), background_color@, x, y));
            if image@.contains(x, y - y_offset) {
                lemma_below_stack_is_background(models.take(i as int), background_color@, x, y);
            }
        }
        y_offset = y_offset + height;
        i = i + 1;
    }
    assert(models.take(i as int) =~= models);
    canvas
}

/// Stacks the images of `stack` as [`stack_images`] does, or fails with
/// `TooLarge` where the canvas that holds them cannot be made.
pub fn try_stack_images(stack: Vec<RgbaImage>, background_color: [u8; 4]) -> (result: Result<
    RgbaImage,
    RenderError,
>)
    ensures
        renders(result, stack_outcome(rasters(stack@), background_color@)),
{
    if stack_size(&stack).is_some() {
        Ok(stack_images(stack, background_color))
    } else {
        Err(RenderError::TooLarge)
    }
}

} // verus!
