use vstd::prelude::*;
use crate::raster::{Image, image_of_rgb};

verus! {

#[verifier::external_type_specification]
#[verifier::external_body]
pub struct ExImageError(image::ImageError);

/// What decoding `bytes` gives, as width, height and packed 8-bit RGB
/// samples; `None` when the bytes cannot be decoded.
pub uninterp spec fn decoded_rgb8(bytes: Seq<u8>) -> Option<(u32, u32, Seq<u8>)>;

/// Relies on `image::load_from_memory`, which guesses the format from the
/// content and decodes, and on `DynamicImage::to_rgb8`, which converts the
/// result to 8-bit RGB. An `ImageBuffer` always holds at least
/// `width * height` pixels of three samples (`ImageBuffer::from_raw`
/// refuses a shorter container), and `into_raw` hands that buffer out.
#[verifier::external_body]
fn decode_rgb8(bytes: &Vec<u8>) -> (r: Result<(u32, u32, Vec<u8>), image::ImageError>)
    ensures
        r matches Ok(t) ==> decoded_rgb8(bytes@) == Some((t.0, t.1, t.2@))
            && t.2@.len() >= 3 * (t.0 as int * t.1 as int),
        r is Err ==> decoded_rgb8(bytes@) is None,
{
    let rgb = image::load_from_memory(bytes.as_slice())?.to_rgb8();
    Ok((rgb.width(), rgb.height(), rgb.into_raw()))
}

/// Relies on the `Display` impl of `image::ImageError` for the message shown
/// to the user.
#[verifier::external_body]
fn error_message(e: &image::ImageError) -> (r: String) {
    format!("{}", e)
}

/// Failure to decode an image, with the decoder's message.
pub struct DecodeError {
    pub message: String,
}

/// Decodes an encoded image (PNG, JPEG, GIF or BMP, told apart by content)
/// into 8-bit RGB pixels.
pub fn decode_image(bytes: &Vec<u8>) -> (r: Result<Image, DecodeError>)
    ensures
        r is Ok <==> decoded_rgb8(bytes@) is Some,
        r matches Ok(img) ==> decoded_rgb8(bytes@) matches Some(t)
            && image_of_rgb(img, t.0, t.1, t.2),
{
    match decode_rgb8(bytes) {
        Ok(t) => {
            let (width, height, raw) = t;
            match Image::from_rgb_bytes(width, height, &raw) {
                Some(img) => Ok(img),
                // never taken: the decoder's buffer holds width * height triples
                None => Err(DecodeError { message: String::new() }),
            }
        },
        Err(e) => Err(DecodeError { message: error_message(&e) }),
    }
}

} // verus!
