//! Writing a finished canvas in an image container, by the encoders of the
//! `image` crate.

use crate::canvas::{image_height, image_is_rgba8, image_pixels, image_width, Color};
use crate::params::Format;
use crate::rejection::Rejection;
use vstd::prelude::*;

verus! {

/// `image::ImageError`, what an encoder fails with. Nothing of its inside is
/// read here.
#[verifier::external_type_specification]
#[verifier::external_body]
pub struct ExImageError(image::ImageError);

/// The file that the encoder of `format` writes for an RGBA image of the
/// given size and pixels, or `None` where it writes none.
pub uninterp spec fn encoded_image(
    width: nat,
    height: nat,
    pixels: Map<(int, int), Color>,
    format: Format,
) -> Option<Seq<u8>>;

/// Bytes that a BMP file holds before its pixels: the file header and the
/// version 4 bitmap header.
pub const BMP_HEADER_BYTES: u32 = 122;

/// The sizes that an encoder can be handed. Every encoder needs an image that
/// is not empty. The BMP encoder counts the bytes of a row and of the whole
/// file in 32 bits.
pub open spec fn encodable(width: nat, height: nat, format: Format) -> bool {
    &&& width >= 1
    &&& height >= 1
    &&& format == Format::Bmp ==> 4 * width * height + BMP_HEADER_BYTES <= u32::MAX
}

/// `image::DynamicImage::write_to` into a byte vector, with the
/// `image::ImageFormat` that `format` stands for. What it writes depends on
/// the image's size and pixels and on the format alone; it fails where the
/// encoder does. The PNG and ICO encoders panic on an image without columns,
/// the BMP encoder where its byte counts overflow: `requires` leaves both out.
#[verifier::external_body]
fn write_image(img: &image::DynamicImage, format: Format) -> (r: Result<Vec<u8>, image::ImageError>)
    requires
        image_is_rgba8(*img),
        encodable(image_width(*img), image_height(*img), format),
    ensures
        match r {
            Ok(bytes) => encoded_image(
                image_width(*img),
                image_height(*img),
                image_pixels(*img),
                format,
            ) == Some(bytes@),
            Err(_) => encoded_image(
                image_width(*img),
                image_height(*img),
                image_pixels(*img),
                format,
            ) is None,
        },
{
    let mut bytes: Vec<u8> = Vec::new();
    let kind = match format {
        Format::Png => image::ImageFormat::Png,
        Format::Bmp => image::ImageFormat::Bmp,
        Format::Jpeg => image::ImageFormat::Jpeg,
        Format::Ico => image::ImageFormat::Ico,
    };
    match img.write_to(&mut bytes, kind) {
        Ok(()) => Ok(bytes),
        Err(e) => Err(e),
    }
}

/// What `encode` returns for an image of the given size and pixels.
pub open spec fn encode_spec(
    width: nat,
    height: nat,
    pixels: Map<(int, int), Color>,
    format: Format,
) -> Result<Seq<u8>, Rejection> {
    match encoded_image(width, height, pixels, format) {
        Some(bytes) => Ok(bytes),
        None => Err(Rejection::EncodingFailure),
    }
}

/// What `encode` returns, given what the encoder returned.
pub open spec fn encode_outcome(written: Result<Vec<u8>, image::ImageError>) -> Result<
    Seq<u8>,
    Rejection,
> {
    match written {
        Ok(bytes) => Ok(bytes@),
        Err(_) => Err(Rejection::EncodingFailure),
    }
}

/// Turns the encoder's answer into the library's: the bytes as they are, and
/// any failure of the encoder into `EncodingFailure`. No other container is
/// tried in place of the one that failed.
pub fn encoding_result(written: Result<Vec<u8>, image::ImageError>) -> (r: Result<
    Vec<u8>,
    Rejection,
>)
    ensures
        match r {
            Ok(bytes) => encode_outcome(written) == Ok::<Seq<u8>, Rejection>(bytes@),
            Err(rejection) => encode_outcome(written) == Err::<Seq<u8>, Rejection>(rejection),
        },
{
    match written {
        Ok(bytes) => Ok(bytes),
        Err(_) => Err(Rejection::EncodingFailure),
    }
}

/// Writes the canvas in the container `format`.
pub fn encode(img: &image::DynamicImage, format: Format) -> (r: Result<Vec<u8>, Rejection>)
    requires
        image_is_rgba8(*img),
        encodable(image_width(*img), image_height(*img), format),
    ensures
        match r {
            Ok(bytes) => encode_spec(
                image_width(*img),
                image_height(*img),
                image_pixels(*img),
                format,
            ) == Ok::<Seq<u8>, Rejection>(bytes@),
            Err(rejection) => encode_spec(
                image_width(*img),
                image_height(*img),
                image_pixels(*img),
                format,
            ) == Err::<Seq<u8>, Rejection>(rejection),
        },
{
    encoding_result(write_image(img, format))
}

} // verus!
