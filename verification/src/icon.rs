//! The window icon: decoding an image file into RGBA pixels.
use vstd::prelude::*;

verus! {

/// A decoded image: RGBA pixels, width and height.
pub struct IconPixels {
    pub rgba: Vec<u8>,
    pub width: u32,
    pub height: u32,
}

/// Decodes an image file with `image::load_from_memory` and converts it to
/// RGBA with `into_rgba8`, `dimensions` and `into_raw`; a decoding error
/// gives `None`. The contract claims only that the pixel buffer holds at
/// least four bytes for each of `width * height` pixels (every image buffer
/// of the crate is checked to fit its size; a decoder may hand over a
/// longer one). It leaves unsaid which pixels come out, and whether given
/// bytes decode at all: `image` picks the format and the decoder through
/// hooks that any code in the process can register, so equal bytes need not
/// decode alike.
#[verifier::external_body]
fn decode_image(bytes: &[u8]) -> (r: Option<IconPixels>)
    ensures
        r matches Some(p) ==> p.rgba@.len() >= 4 * p.width * p.height,
{
    match image::load_from_memory(bytes) {
        Ok(img) => {
            let rgba = img.into_rgba8();
            let (width, height) = rgba.dimensions();
            Some(IconPixels { rgba: rgba.into_raw(), width, height })
        },
        Err(_) => None,
    }
}

/// Decoded pixels cut to the size of the image: the first four RGBA bytes
/// for each of `width * height` pixels, with the same width and height.
pub fn fit_icon(p: IconPixels) -> (r: IconPixels)
    requires
        p.rgba@.len() >= 4 * p.width * p.height,
    ensures
        r.width == p.width,
        r.height == p.height,
        r.rgba@ == p.rgba@.take(4 * p.width * p.height),
{
    let IconPixels { mut rgba, width, height } = p;
    let w = width as u128;
    let h = height as u128;
    assert(4 * w * h <= 4 * 0xffff_ffffu128 * 0xffff_ffffu128) by (nonlinear_arith)
        requires
            w <= 0xffff_ffff,
            h <= 0xffff_ffff,
    ;
    let need = 4 * w * h;
    assert(need <= rgba@.len());
    let n = need as usize;
    rgba.truncate(n);
    IconPixels { rgba, width, height }
}

/// The icon made of a decoder's answer: every decoded image, of whatever
/// size, gives its pixels fitted to its width and height (see
/// [`fit_icon`]); no image gives no icon.
pub fn icon_from_decoded(decoded: Option<IconPixels>) -> (r: Option<IconPixels>)
    requires
        decoded matches Some(p) ==> p.rgba@.len() >= 4 * p.width * p.height,
    ensures
        decoded is None <==> r is None,
        decoded matches Some(p) ==> (r matches Some(q) && q.width == p.width && q.height
            == p.height && q.rgba@ == p.rgba@.take(4 * p.width * p.height)),
{
    match decoded {
        Some(p) => Some(fit_icon(p)),
        None => None,
    }
}

/// The pixels of the window icon decoded from the bytes of its image file
/// and fitted to the image's size (see [`fit_icon`]), or `None` when they
/// do not decode. Which pixels the decoder gives, and whether given bytes
/// decode, is left to the `image` crate.
pub fn load_icon(icon_bytes: &[u8]) -> (r: Option<IconPixels>)
    ensures
        r matches Some(p) ==> p.rgba@.len() == 4 * p.width * p.height,
{
    icon_from_decoded(decode_image(icon_bytes))
}

} // verus!
