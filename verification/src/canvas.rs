//! The pixel grid that frames are drawn on. The grid is an `image::RgbImage`;
//! this module states what the library relies on for the few operations it
//! uses, and offers verified access to the result.

use vstd::prelude::*;

verus! {

/// A grid of RGB pixels with a fixed width and height, kept in an
/// `image::RgbImage`.
#[verifier::external_body]
pub struct FrameBuffer {
    inner: image::RgbImage,
}

/// The colour of each pixel of a frame buffer, by column and row.
pub uninterp spec fn image_pixels(img: FrameBuffer) -> Map<(int, int), [u8; 3]>;

/// The width and height that a frame buffer was made with.
pub uninterp spec fn image_size(img: FrameBuffer) -> (nat, nat);

/// The coordinates of a grid of `width` columns and `height` rows.
pub open spec fn grid(width: nat, height: nat) -> Set<(int, int)> {
    Set::new(|p: (int, int)| 0 <= p.0 < width && 0 <= p.1 < height)
}

/// Calls `image::ImageBuffer::new`, which allocates a zeroed buffer of three
/// bytes per pixel and panics when that many bytes cannot be a `Vec`. The
/// result has the dimensions asked for and every pixel black.
#[verifier::external_body]
pub(crate) fn new_image(width: u32, height: u32) -> (img: FrameBuffer)
    requires
        3 * width * height <= isize::MAX,
    ensures
        image_size(img) == (width as nat, height as nat),
        image_pixels(img).dom() == grid(width as nat, height as nat),
        forall|p: (int, int)| #[trigger]
            grid(width as nat, height as nat).contains(p) ==> image_pixels(img)[p]@ == seq![
                0u8,
                0u8,
                0u8,
            ],
{
    FrameBuffer { inner: image::RgbImage::new(width, height) }
}

/// Calls `image::ImageBuffer::put_pixel`, which panics outside the image
/// and otherwise overwrites the one pixel at column `x`, row `y`.
#[verifier::external_body]
pub(crate) fn put_pixel(img: &mut FrameBuffer, x: u32, y: u32, color: [u8; 3])
    requires
        x < image_size(*old(img)).0,
        y < image_size(*old(img)).1,
    ensures
        image_size(*final(img)) == image_size(*old(img)),
        image_pixels(*final(img)) == image_pixels(*old(img)).insert((x as int, y as int), color),
{
    img.inner.put_pixel(x, y, image::Rgb(color));
}

/// Calls `image::imageops::crop` and `SubImage::to_image` on its result.
/// For a window that lies inside the image, the copy has the window's
/// dimensions and holds the pixels of the image under the window, the
/// window's corner at its origin. The image itself is left as it was.
#[verifier::external_body]
pub(crate) fn crop_image(img: &mut FrameBuffer, x: u32, y: u32, width: u32, height: u32) -> (out:
    FrameBuffer)
    requires
        x + width <= image_size(*old(img)).0,
        y + height <= image_size(*old(img)).1,
    ensures
        image_size(*final(img)) == image_size(*old(img)),
        image_pixels(*final(img)) == image_pixels(*old(img)),
        image_size(out) == (width as nat, height as nat),
        image_pixels(out).dom() == grid(width as nat, height as nat),
        forall|p: (int, int)| #[trigger]
            grid(width as nat, height as nat).contains(p) ==> image_pixels(out)[p] == image_pixels(
                *old(img),
            )[(p.0 + x, p.1 + y)],
{
    FrameBuffer { inner: image::imageops::crop(&mut img.inner, x, y, width, height).to_image() }
}

/// Calls `image::ImageBuffer::dimensions`: the width and the height.
#[verifier::external_body]
pub(crate) fn image_dimensions(img: &FrameBuffer) -> (size: (u32, u32))
    ensures
        image_size(*img) == (size.0 as nat, size.1 as nat),
{
    img.inner.dimensions()
}

/// Calls `image::ImageBuffer::get_pixel`, which panics outside the image
/// and otherwise gives the pixel at column `x`, row `y`.
#[verifier::external_body]
pub(crate) fn get_pixel(img: &FrameBuffer, x: u32, y: u32) -> (color: [u8; 3])
    requires
        x < image_size(*img).0,
        y < image_size(*img).1,
    ensures
        color == image_pixels(*img)[(x as int, y as int)],
{
    img.inner.get_pixel(x, y).0
}

/// Copies what `image::ImageBuffer::as_raw` lends: the bytes of the image,
/// row after row from the top, each row from the left, red, green and blue
/// of each pixel in turn.
#[verifier::external_body]
pub(crate) fn raw_bytes(img: &FrameBuffer) -> (bytes: Vec<u8>)
    ensures
        is_rgb_bytes(*img, bytes@),
{
    img.inner.as_raw().clone()
}

/// Where channel `c` of the pixel at column `x`, row `y` stands among the
/// bytes of an image `width` pixels wide.
pub open spec fn byte_index(width: int, x: int, y: int, c: int) -> int {
    3 * (y * width + x) + c
}

/// Whether `bytes` are the bytes of `frame`, row after row, three to a pixel.
pub open spec fn is_rgb_bytes(frame: FrameBuffer, bytes: Seq<u8>) -> bool {
    &&& bytes.len() == 3 * image_size(frame).0 * image_size(frame).1
    &&& forall|x: int, y: int, c: int|
        0 <= x < image_size(frame).0 && 0 <= y < image_size(frame).1 && 0 <= c < 3
            ==> #[trigger] bytes[byte_index(image_size(frame).0 as int, x, y, c)]
            == image_pixels(frame)[(x, y)]@[c]
}

impl FrameBuffer {
    /// The number of columns.
    pub fn width(&self) -> (w: u32)
        ensures
            w == image_size(*self).0,
    {
        image_dimensions(self).0
    }

    /// The number of rows.
    pub fn height(&self) -> (h: u32)
        ensures
            h == image_size(*self).1,
    {
        image_dimensions(self).1
    }

    /// The colour at column `x`, row `y`, or `None` outside the grid.
    pub fn pixel(&self, x: u32, y: u32) -> (color: Option<[u8; 3]>)
        ensures
            color is Some <==> x < image_size(*self).0 && y < image_size(*self).1,
            color is Some ==> color->Some_0 == image_pixels(*self)[(x as int, y as int)],
    {
        let (w, h) = image_dimensions(self);
        if x < w && y < h {
            Some(get_pixel(self, x, y))
        } else {
            None
        }
    }

    /// The bytes of the frame, row after row, three to a pixel.
    pub fn to_rgb_bytes(&self) -> (bytes: Vec<u8>)
        ensures
            is_rgb_bytes(*self, bytes@),
    {
        raw_bytes(self)
    }
}

} // verus!
