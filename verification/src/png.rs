//! PNG encoding of the pixel buffer.
//!
//! The buffer produced by the render pass is encoded as a single-channel
//! 8-bit grayscale PNG, in memory.  The encoding itself is done by the
//! `image` crate behind a trusted wrapper; this module checks the
//! dimensions against the buffer before the call and maps the outside
//! error type to the library's own.
use vstd::prelude::*;

verus! {

/// The error type of the `image` crate, carried through opaquely.
#[verifier::external_type_specification]
#[verifier::external_body]
pub struct ExImageError(image::ImageError);

/// The PNG stream that encoding a given grayscale buffer with the given
/// dimensions produces.  The encoder is deterministic, so the bytes are a
/// function of the buffer and the dimensions alone; nothing more is
/// assumed about them.
pub uninterp spec fn png_bytes_of(pixels: Seq<u8>, width: u32, height: u32) -> Seq<u8>;

/// Relies on `image::codecs::png::PngEncoder::encode` with `ColorType::L8`:
/// writing to an in-memory `Vec` cannot fail, and the encoder succeeds
/// whenever both dimensions are nonzero and the buffer holds exactly
/// `width * height` bytes (its only other error paths are a zero dimension
/// and a buffer-size mismatch).
#[verifier::external_body]
fn png_encode_gray(pixels: &Vec<u8>, width: u32, height: u32) -> (r: Result<
    Vec<u8>,
    image::ImageError,
>)
    ensures
        r matches Ok(bytes) ==> bytes@ == png_bytes_of(pixels@, width, height),
        pixels@.len() == width * height && width >= 1 && height >= 1 ==> r is Ok,
{
    let mut out: Vec<u8> = Vec::new();
    let encoder = image::codecs::png::PngEncoder::new(&mut out);
    match encoder.encode(pixels.as_slice(), width, height, image::ColorType::L8) {
        Ok(()) => Ok(out),
        Err(e) => Err(e),
    }
}

/// Why a buffer could not be encoded.
#[derive(Clone, Copy, Debug, PartialEq, Eq, Structural)]
pub enum EncodeError {
    /// A dimension is zero, too large for the encoder, or does not match
    /// the buffer's length.
    BadDimensions,
}

/// A length equals `w * h` exactly when dividing it by `w` yields `h` with
/// no remainder: the executable form of the buffer-size check.
proof fn lemma_len_is_product(len: int, w: int, h: int)
    requires
        1 <= w,
        0 <= h,
        0 <= len,
    ensures
        (len == w * h) <==> (len / w == h && len % w == 0),
{
    vstd::arithmetic::div_mod::lemma_fundamental_div_mod(len, w);
    if len == w * h {
        vstd::arithmetic::mul::lemma_mul_is_commutative(w, h);
        vstd::arithmetic::div_mod::lemma_div_by_multiple(h, w);
        vstd::arithmetic::div_mod::lemma_mod_multiples_basic(h, w);
    }
}

/// The inputs on which encoding succeeds: nonzero dimensions that fit the
/// encoder's 32-bit fields, and a buffer of exactly `width * height` bytes.
pub open spec fn encodable(len: nat, width: usize, height: usize) -> bool {
    &&& 1 <= width <= u32::MAX
    &&& 1 <= height <= u32::MAX
    &&& len == width * height
}

/// Encodes the pixel buffer as an 8-bit grayscale PNG stream, in memory.
/// Succeeds exactly on encodable inputs, and then returns the PNG bytes of
/// the buffer; writing the stream to a file is the caller's concern.
pub fn encode_image(pixels: &Vec<u8>, bounds: (usize, usize)) -> (r: Result<Vec<u8>, EncodeError>)
    ensures
        r is Ok <==> encodable(pixels@.len(), bounds.0, bounds.1),
        r matches Ok(bytes) ==> bytes@ == png_bytes_of(pixels@, bounds.0 as u32, bounds.1 as u32),
        r matches Err(e) ==> e == EncodeError::BadDimensions,
{
    if bounds.0 < 1 || bounds.1 < 1 {
        return Err(EncodeError::BadDimensions);
    }
    if bounds.0 > u32::MAX as usize || bounds.1 > u32::MAX as usize {
        return Err(EncodeError::BadDimensions);
    }
    proof {
        lemma_len_is_product(pixels@.len() as int, bounds.0 as int, bounds.1 as int);
    }
    if pixels.len() / bounds.0 != bounds.1 || pixels.len() % bounds.0 != 0 {
        return Err(EncodeError::BadDimensions);
    }
    match png_encode_gray(pixels, bounds.0 as u32, bounds.1 as u32) {
        Ok(bytes) => Ok(bytes),
        Err(_) => Err(EncodeError::BadDimensions),
    }
}

} // verus!
