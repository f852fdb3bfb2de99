//! The RGBA image buffer: a `width` by `height` grid of pixels, row-major,
//! with its origin at the top left.
//!
//! The pixels are held by the `image` crate. What this library relies on of
//! that crate is stated on the private functions at the end of this file;
//! every public operation is verified against those statements.

use vstd::prelude::*;

verus! {

/// An image buffer of 8-bit RGBA pixels.
///
/// The buffer is an `image::RgbaImage`, whose inside the verifier does not
/// see: it knows an image by [`image_width`], [`image_height`] and
/// [`image_pixels`] alone.
#[verifier::external_body]
pub struct RgbaImage {
    buffer: image::RgbaImage,
}

/// The number of pixel columns of `img`.
pub uninterp spec fn image_width(img: RgbaImage) -> nat;

/// The number of pixel rows of `img`.
pub uninterp spec fn image_height(img: RgbaImage) -> nat;

/// The pixels of `img`: the four channels at each `(x, y)` with
/// `x < image_width(img)` and `y < image_height(img)`.
pub uninterp spec fn image_pixels(img: RgbaImage) -> Map<(int, int), Seq<u8>>;

/// The mathematical model of an image buffer.
pub struct Raster {
    pub width: nat,
    pub height: nat,
    pub pixels: Map<(int, int), Seq<u8>>,
}

impl Raster {
    /// Whether `(x, y)` names a pixel of the image.
    pub open spec fn contains(self, x: int, y: int) -> bool {
        0 <= x < self.width && 0 <= y < self.height
    }

    /// The pixel at `(x, y)`.
    pub open spec fn at(self, x: int, y: int) -> Seq<u8> {
        self.pixels[(x, y)]
    }
}

impl View for RgbaImage {
    type V = Raster;

    open spec fn view(&self) -> Raster {
        Raster {
            width: image_width(*self),
            height: image_height(*self),
            pixels: image_pixels(*self),
        }
    }
}

/// The fully transparent black pixel.
pub open spec fn transparent() -> Seq<u8> {
    seq![0u8, 0u8, 0u8, 0u8]
}

/// Whether a buffer of `width` by `height` RGBA pixels can be allocated: the
/// bytes of one row must be countable in `usize`, also where the image has no
/// rows, and the size of the whole in bytes must not exceed `isize::MAX`.
pub open spec fn allocatable(width: int, height: int) -> bool {
    &&& 4 * width <= usize::MAX
    &&& 4 * width * height <= isize::MAX
}

impl RgbaImage {
    /// A new image of the given size with every pixel transparent black, or
    /// `None` where a buffer of that size cannot be allocated.
    pub fn new(width: u32, height: u32) -> (img: Option<RgbaImage>)
        ensures
            img is Some <==> allocatable(width as int, height as int),
            img matches Some(i) ==> {
                &&& i@.width == width
                &&& i@.height == height
                &&& forall|x: int, y: int| i@.contains(x, y) ==> i@.at(x, y) == transparent()
            },
    {
        if fits_in_memory(width, height) {
            Some(zeroed(width, height))
        } else {
            None
        }
    }

    /// The number of pixel columns.
    pub fn width(&self) -> (w: u32)
        ensures
            w == self@.width,
    {
        buffer_width(self)
    }

    /// The number of pixel rows.
    pub fn height(&self) -> (h: u32)
        ensures
            h == self@.height,
    {
        buffer_height(self)
    }

    /// The pixel at `(x, y)`, or `None` outside the image.
    pub fn get_pixel(&self, x: u32, y: u32) -> (px: Option<[u8; 4]>)
        ensures
            px is Some <==> self@.contains(x as int, y as int),
            px matches Some(p) ==> p@ == self@.at(x as int, y as int),
    {
        if x < buffer_width(self) && y < buffer_height(self) {
            Some(read_pixel(self, x, y))
        } else {
            None
        }
    }

    /// Sets the pixel at `(x, y)` and returns `true`; outside the image it
    /// changes nothing and returns `false`.
    pub fn put_pixel(&mut self, x: u32, y: u32, px: [u8; 4]) -> (done: bool)
        ensures
            done <==> old(self)@.contains(x as int, y as int),
            final(self)@.width == old(self)@.width,
            final(self)@.height == old(self)@.height,
            done ==> final(self)@.pixels == old(self)@.pixels.insert((x as int, y as int), px@),
            !done ==> final(self)@.pixels == old(self)@.pixels,
    {
        if x < buffer_width(self) && y < buffer_height(self) {
            write_pixel(self, x, y, px);
            true
        } else {
            false
        }
    }
}

/// Whether a buffer of `width` by `height` RGBA pixels can be allocated.
pub fn fits_in_memory(width: u32, height: u32) -> (fits: bool)
    ensures
        fits == allocatable(width as int, height as int),
{
    assert(0 <= (width as int) * (height as int) <= 0xffff_ffff * 0xffff_ffff)
        by (nonlinear_arith)
        requires
            0 <= width <= 0xffff_ffff,
            0 <= height <= 0xffff_ffff,
    ;
    assert(4 * (width as int) * (height as int) == 4 * ((width as int) * (height as int)))
        by (nonlinear_arith);
    let row: u64 = 4 * (width as u64);
    let area: u64 = (width as u64) * (height as u64);
    let limit: u64 = (isize::MAX as u64) / 4;
    row <= usize::MAX as u64 && area <= limit
}

/// `image::DynamicImage::new_rgba8` followed by `to_rgba8`: a buffer of the
/// given size whose every channel is zero. The crate counts the bytes in
/// `usize`, four times the width first and the height after, and panics where
/// either product overflows or the whole is more than a vector can hold;
/// `requires` leaves those sizes out.
#[verifier::external_body]
pub(crate) fn zeroed(width: u32, height: u32) -> (img: RgbaImage)
    requires
        allocatable(width as int, height as int),
    ensures
        image_width(img) == width,
        image_height(img) == height,
        forall|x: int, y: int|
            0 <= x < width && 0 <= y < height ==> #[trigger] image_pixels(img)[(x, y)]
                == transparent(),
{
    RgbaImage { buffer: image::DynamicImage::new_rgba8(width, height).to_rgba8() }
}

/// `image::ImageBuffer::width`: the width the buffer was made with.
#[verifier::external_body]
pub(crate) fn buffer_width(img: &RgbaImage) -> (w: u32)
    ensures
        w == image_width(*img),
{
    img.buffer.width()
}

/// `image::ImageBuffer::height`: the height the buffer was made with.
#[verifier::external_body]
pub(crate) fn buffer_height(img: &RgbaImage) -> (h: u32)
    ensures
        h == image_height(*img),
{
    img.buffer.height()
}

/// `image::ImageBuffer::get_pixel`: the four channels stored at `(x, y)`. The
/// crate panics outside the image, which `requires` leaves out.
#[verifier::external_body]
pub(crate) fn read_pixel(img: &RgbaImage, x: u32, y: u32) -> (px: [u8; 4])
    requires
        x < image_width(*img),
        y < image_height(*img),
    ensures
        px@ == image_pixels(*img)[(x as int, y as int)],
{
    img.buffer.get_pixel(x, y).0
}

/// `image::ImageBuffer::put_pixel`: stores the four channels at `(x, y)` and
/// leaves the size and every other pixel as they were. The crate panics outside
/// the image, which `requires` leaves out.
#[verifier::external_body]
pub(crate) fn write_pixel(img: &mut RgbaImage, x: u32, y: u32, px: [u8; 4])
    requires
        x < image_width(*old(img)),
        y < image_height(*old(img)),
    ensures
        image_width(*final(img)) == image_width(*old(img)),
        image_height(*final(img)) == image_height(*old(img)),
        image_pixels(*final(img)) == image_pixels(*old(img)).insert((x as int, y as int), px@),
{
    img.buffer.put_pixel(x, y, image::Rgba(px));
}

} // verus!
