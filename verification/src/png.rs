//! PNG encoding of decoded pixel buffers.
//!
//! The pixel extraction is verified in [`crate::dib`]; the lossless
//! compression itself is done by the `image` crate behind trusted
//! wrappers, whose deterministic results are named by uninterpreted
//! spec functions.

use vstd::prelude::*;

use crate::dib::{
    decode_dib_pixels, decoded_image_spec, dib_bit_count, dib_decodable, dib_height, dib_width,
};

verus! {

/// The PNG encoding of a red-green-blue pixel buffer with the given
/// dimensions, as the `image` crate produces it.
pub uninterp spec fn png_rgb_of(width: u32, height: u32, pixels: Seq<u8>) -> Seq<u8>;

/// The PNG encoding of a red-green-blue-alpha pixel buffer with the given
/// dimensions, as the `image` crate produces it.
pub uninterp spec fn png_rgba_of(width: u32, height: u32, pixels: Seq<u8>) -> Seq<u8>;

/// Relies on `image::ImageBuffer::from_raw`, which accepts a container of
/// exactly `width * height * 3` bytes, and on `image::DynamicImage::write_to`
/// with the PNG format, whose output depends on the dimensions and the
/// pixel bytes alone. With a buffer of exactly the right length and an
/// in-memory writer, the encoder's only failure causes are a zero width
/// and a zero height, so nonzero dimensions owe success.
#[verifier::external_body]
fn encode_png_rgb(width: u32, height: u32, pixels: Vec<u8>) -> (r: Option<Vec<u8>>)
    requires
        pixels@.len() == width as int * height as int * 3,
    ensures
        r matches Some(v) ==> v@ == png_rgb_of(width, height, pixels@),
        width > 0 && height > 0 ==> r is Some,
{
    let buffer: image::RgbImage = image::ImageBuffer::from_raw(width, height, pixels)?;
    let img = image::DynamicImage::ImageRgb8(buffer);
    let mut out = std::io::Cursor::new(Vec::new());
    match img.write_to(&mut out, image::ImageFormat::Png) {
        Ok(()) => Some(out.into_inner()),
        Err(_) => None,
    }
}

/// Relies on `image::ImageBuffer::from_raw`, which accepts a container of
/// exactly `width * height * 4` bytes, and on `image::DynamicImage::write_to`
/// with the PNG format, whose output depends on the dimensions and the
/// pixel bytes alone. With a buffer of exactly the right length and an
/// in-memory writer, the encoder's only failure causes are a zero width
/// and a zero height, so nonzero dimensions owe success.
#[verifier::external_body]
fn encode_png_rgba(width: u32, height: u32, pixels: Vec<u8>) -> (r: Option<Vec<u8>>)
    requires
        pixels@.len() == width as int * height as int * 4,
    ensures
        r matches Some(v) ==> v@ == png_rgba_of(width, height, pixels@),
        width > 0 && height > 0 ==> r is Some,
{
    let buffer: image::RgbaImage = image::ImageBuffer::from_raw(width, height, pixels)?;
    let img = image::DynamicImage::ImageRgba8(buffer);
    let mut out = std::io::Cursor::new(Vec::new());
    match img.write_to(&mut out, image::ImageFormat::Png) {
        Ok(()) => Some(out.into_inner()),
        Err(_) => None,
    }
}

/// The PNG encoding a decodable DIB buffer converts to.
pub open spec fn png_of_dib(s: Seq<u8>) -> Seq<u8> {
    if dib_bit_count(s) == 32 {
        png_rgba_of(dib_width(s) as u32, dib_height(s) as u32, decoded_image_spec(s))
    } else {
        png_rgb_of(dib_width(s) as u32, dib_height(s) as u32, decoded_image_spec(s))
    }
}

/// Decodes a raw DIB buffer and compresses the extracted pixel grid into
/// a PNG byte buffer. Succeeds exactly on the decodable buffers: an
/// unsupported or corrupt input is rejected, and a decodable one always
/// yields its encoding, the dimensions being nonzero.
pub fn convert_dib_to_png(dib_data: &Vec<u8>) -> (r: Option<Vec<u8>>)
    ensures
        r is Some <==> dib_decodable(dib_data@),
        r matches Some(v) ==> v@ == png_of_dib(dib_data@),
{
    let decoded = match decode_dib_pixels(dib_data) {
        Some(d) => d,
        None => {
            return None;
        },
    };

    if decoded.has_alpha {
        encode_png_rgba(decoded.width, decoded.height, decoded.pixels)
    } else {
        encode_png_rgb(decoded.width, decoded.height, decoded.pixels)
    }
}

} // verus!
