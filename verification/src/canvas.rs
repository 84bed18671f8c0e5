//! The pixel canvas: an RGBA image of the `image` crate, and the painting of
//! squares on it.

use image::GenericImage;
use vstd::prelude::*;

verus! {

/// A pixel value: red, green, blue and opacity.
#[derive(Clone, Copy, Debug, PartialEq, Eq, Structural)]
pub struct Color {
    pub r: u8,
    pub g: u8,
    pub b: u8,
    pub a: u8,
}

/// The pixel of a canvas that nothing was painted on.
pub open spec fn transparent() -> Color {
    Color { r: 0, g: 0, b: 0, a: 0 }
}

/// `image::DynamicImage`, an image in one of several pixel layouts. Nothing of
/// its inside is read here but through the functions below.
#[verifier::external_type_specification]
#[verifier::external_body]
pub struct ExDynamicImage(image::DynamicImage);

/// Number of pixel columns of an image.
pub uninterp spec fn image_width(img: image::DynamicImage) -> nat;

/// Number of pixel rows of an image.
pub uninterp spec fn image_height(img: image::DynamicImage) -> nat;

/// Whether an image stores its pixels as four 8-bit channels in the order
/// red, green, blue, alpha.
pub uninterp spec fn image_is_rgba8(img: image::DynamicImage) -> bool;

/// The pixels of an image by column and row, for every position inside it.
pub uninterp spec fn image_pixels(img: image::DynamicImage) -> Map<(int, int), Color>;

/// Whether `(x, y)` lies in the square of the given side whose upper left
/// corner is `(left, top)`.
pub open spec fn in_square(x: int, y: int, left: int, top: int, side: int) -> bool {
    left <= x < left + side && top <= y < top + side
}

/// A canvas that can be painted on: it stores RGBA pixels, and holds a pixel
/// for exactly the positions inside its width and height, which are those of
/// a `u32`.
pub open spec fn paintable(img: image::DynamicImage) -> bool {
    &&& image_is_rgba8(img)
    &&& image_width(img) <= u32::MAX
    &&& image_height(img) <= u32::MAX
    &&& forall|x: int, y: int|
        image_pixels(img).dom().contains((x, y)) <==> (0 <= x < image_width(img) && 0 <= y
            < image_height(img))
}

/// Whether a pixel buffer of the given size can be allocated: four bytes for
/// each pixel, no more than `isize::MAX` in all.
pub open spec fn allocatable(width: nat, height: nat) -> bool {
    4 * width * height <= isize::MAX
}

/// `image::DynamicImage::new_rgba8`: a new RGBA image of the given size, every
/// pixel of it zero in all four channels. The outside function panics where
/// the buffer's length in bytes overflows, which `requires` leaves out.
#[verifier::external_body]
pub(crate) fn new_rgba8(width: u32, height: u32) -> (img: image::DynamicImage)
    requires
        allocatable(width as nat, height as nat),
    ensures
        paintable(img),
        image_width(img) == width,
        image_height(img) == height,
        forall|x: int, y: int|
            0 <= x < width && 0 <= y < height ==> #[trigger] image_pixels(img)[(x, y)]
                == transparent(),
{
    image::DynamicImage::new_rgba8(width, height)
}

/// `image::GenericImage::put_pixel` on a `DynamicImage` that stores RGBA
/// pixels: the pixel at `(x, y)` becomes `color`, and nothing else changes.
/// The outside function panics on a position outside the image, which
/// `requires` leaves out.
#[verifier::external_body]
pub(crate) fn put_pixel(img: &mut image::DynamicImage, x: u32, y: u32, color: Color)
    requires
        image_is_rgba8(*old(img)),
        x < image_width(*old(img)),
        y < image_height(*old(img)),
    ensures
        image_is_rgba8(*final(img)),
        image_width(*final(img)) == image_width(*old(img)),
        image_height(*final(img)) == image_height(*old(img)),
        image_pixels(*final(img)) == image_pixels(*old(img)).insert((x as int, y as int), color),
{
    img.put_pixel(x, y, image::Rgba([color.r, color.g, color.b, color.a]));
}

/// What a canvas holds after the square of side `side` at `(x, y)` was
/// painted in `color` on `before`.
pub open spec fn with_square(
    before: Map<(int, int), Color>,
    x: int,
    y: int,
    side: int,
    color: Color,
) -> Map<(int, int), Color> {
    Map::new(
        |p: (int, int)| before.dom().contains(p),
        |p: (int, int)|
            if in_square(p.0, p.1, x, y, side) {
                color
            } else {
                before[p]
            },
    )
}

/// Sets every pixel of the square `[x, x + s) x [y, y + s)` to `c`, whatever
/// it held before, and leaves every other pixel as it was.
pub fn fill_square(img: &mut image::DynamicImage, x: u32, y: u32, s: u32, c: Color)
    requires
        paintable(*old(img)),
        x + s <= image_width(*old(img)),
        y + s <= image_height(*old(img)),
    ensures
        paintable(*final(img)),
        image_width(*final(img)) == image_width(*old(img)),
        image_height(*final(img)) == image_height(*old(img)),
        image_pixels(*final(img)) == with_square(
            image_pixels(*old(img)),
            x as int,
            y as int,
            s as int,
            c,
        ),
{
    let ghost before = image_pixels(*img);
    let ghost width = image_width(*img);
    let ghost height = image_height(*img);
    let mut py: u32 = y;
    while py < y + s
        invariant
            y <= py <= y + s,
            x + s <= width <= u32::MAX,
            y + s <= height <= u32::MAX,
            image_is_rgba8(*img),
            image_width(*img) == width,
            image_height(*img) == height,
            image_pixels(*img).dom() == before.dom(),
            forall|qx: int, qy: int|
                before.dom().contains((qx, qy)) <==> (0 <= qx < width && 0 <= qy < height),
            forall|qx: int, qy: int|
                before.dom().contains((qx, qy)) ==> #[trigger] image_pixels(*img)[(qx, qy)] == (
                if x <= qx < x + s && y <= qy < py {
                    c
                } else {
                    before[(qx, qy)]
                }),
        decreases y + s - py,
    {
        let mut px: u32 = x;
        while px < x + s
            invariant
                y <= py < y + s,
                x <= px <= x + s,
                x + s <= width <= u32::MAX,
                y + s <= height <= u32::MAX,
                image_is_rgba8(*img),
                image_width(*img) == width,
                image_height(*img) == height,
                image_pixels(*img).dom() == before.dom(),
                forall|qx: int, qy: int|
                    before.dom().contains((qx, qy)) <==> (0 <= qx < width && 0 <= qy < height),
                forall|qx: int, qy: int|
                    before.dom().contains((qx, qy)) ==> #[trigger] image_pixels(*img)[(qx, qy)]
                        == (if (x <= qx < x + s && y <= qy < py) || (x <= qx < px && qy == py) {
                        c
                    } else {
                        before[(qx, qy)]
                    }),
            decreases x + s - px,
        {
            put_pixel(img, px, py, c);
            assert(image_pixels(*img).dom() =~= before.dom());
            px = px + 1;
        }
        py = py + 1;
    }
    assert(image_pixels(*img) =~= with_square(before, x as int, y as int, s as int, c));
}

} // verus!
