use vstd::prelude::*;

verus! {

#[verifier::external_type_specification]
#[verifier::external_body]
pub struct ExImageError(image::ImageError);

/// Why a capture's image could not be turned into pixels.
#[derive(Clone, Copy, Debug, PartialEq, Eq, Structural)]
pub enum DecodeError {
    /// The file could not be read.
    Unreadable,
    /// The bytes are not an image in a supported format, are corrupt, or
    /// describe an image without pixels.
    Malformed,
}

/// A decoded image: 8-bit RGBA with unmultiplied alpha, row by row.
pub struct PixelBuffer {
    pub width: u32,
    pub height: u32,
    pub rgba: Vec<u8>,
}

/// What the image library decodes from `bytes`, converted to 8-bit RGBA:
/// width, height and samples, or `None` when it cannot decode them.
pub uninterp spec fn rgba8_decoding(bytes: Seq<u8>) -> Option<(u32, u32, Seq<u8>)>;

/// Relies on `image::load_from_memory`, which guesses the format from the
/// bytes and decodes them, and on `DynamicImage::to_rgba8`, whose buffer holds
/// four samples for each of `width * height` pixels.
#[verifier::external_body]
fn decode_rgba8(bytes: &[u8]) -> (r: Result<(u32, u32, Vec<u8>), image::ImageError>)
    ensures
        match r {
            Ok(d) => rgba8_decoding(bytes@) == Some((d.0, d.1, d.2@)) && d.2@.len() == 4 * d.0 * d.1,
            Err(_) => rgba8_decoding(bytes@) is None,
        },
{
    match image::load_from_memory(bytes) {
        Ok(img) => {
            let buf = img.to_rgba8();
            Ok((buf.width(), buf.height(), buf.into_raw()))
        },
        Err(e) => Err(e),
    }
}

/// A decoding result is usable when it has at least one pixel and four
/// samples for each pixel.
pub open spec fn is_usable_decoding(width: u32, height: u32, samples: Seq<u8>) -> bool {
    width >= 1 && height >= 1 && samples.len() == 4 * width * height
}

proof fn lemma_samples_fit(width: u32, height: u32)
    ensures
        4 * (width as int) * (height as int) <= 4 * 0xffff_ffff * 0xffff_ffff,
{
    let w = width as int;
    let h = height as int;
    assert(4 * w * h <= 4 * 0xffff_ffff * 0xffff_ffff) by (nonlinear_arith)
        requires
            0 <= w <= 0xffff_ffff,
            0 <= h <= 0xffff_ffff,
    ;
}

/// Turns what the decoder produced into a pixel buffer.
///
/// `None` (nothing decoded) and an image without pixels are `Malformed`.
pub fn pixels_from_decoded(decoded: Option<(u32, u32, Vec<u8>)>) -> (r: Result<PixelBuffer, DecodeError>)
    ensures
        match decoded {
            Some(d) => if is_usable_decoding(d.0, d.1, d.2@) {
                r matches Ok(p) && p.width == d.0 && p.height == d.1 && p.rgba@ == d.2@
            } else {
                r == Err::<PixelBuffer, DecodeError>(DecodeError::Malformed)
            },
            None => r == Err::<PixelBuffer, DecodeError>(DecodeError::Malformed),
        },
{
    match decoded {
        Some((width, height, rgba)) => {
            proof {
                lemma_samples_fit(width, height);
            }
            if width >= 1 && height >= 1 && rgba.len() as u128 == 4 * (width as u128) * (height as u128) {
                Ok(PixelBuffer { width, height, rgba })
            } else {
                Err(DecodeError::Malformed)
            }
        },
        None => Err(DecodeError::Malformed),
    }
}

/// Decodes the contents of an image file (PNG or JPEG) into 8-bit RGBA.
pub fn decode_image(bytes: &[u8]) -> (r: Result<PixelBuffer, DecodeError>)
    ensures
        match rgba8_decoding(bytes@) {
            Some(d) => if is_usable_decoding(d.0, d.1, d.2) {
                r matches Ok(p) && p.width == d.0 && p.height == d.1 && p.rgba@ == d.2
            } else {
                r == Err::<PixelBuffer, DecodeError>(DecodeError::Malformed)
            },
            None => r == Err::<PixelBuffer, DecodeError>(DecodeError::Malformed),
        },
{
    match decode_rgba8(bytes) {
        Ok(d) => pixels_from_decoded(Some(d)),
        Err(_) => pixels_from_decoded(None),
    }
}

} // verus!
