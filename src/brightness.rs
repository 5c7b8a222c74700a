use vstd::prelude::*;

use crate::error::Error;
use crate::schedule::BRIGHTNESS_SCALE;

verus! {

/// What the `image` crate decodes from `bytes`: width, height and the pixels
/// as 8-bit RGBA, row by row; `None` where the bytes are no image it can read.
pub uninterp spec fn decoded_rgba(bytes: Seq<u8>) -> Option<(u32, u32, Seq<u8>)>;

/// Relies on `image::load_from_memory` to decode, and on
/// `DynamicImage::to_rgba8`, which converts each pixel to 8-bit RGBA as
/// `GenericImageView::pixels` does, into a buffer of exactly four bytes per
/// pixel.
#[verifier::external_body]
fn decode_rgba(bytes: &[u8]) -> (r: Option<(u32, u32, Vec<u8>)>)
    ensures
        r is None <==> decoded_rgba(bytes@) is None,
        r matches Some((w, h, px)) ==> decoded_rgba(bytes@) == Some((w, h, px@)) && px@.len()
            == 4 * (w as int) * (h as int),
{
    match image::load_from_memory(bytes) {
        Ok(img) => {
            let rgba = img.to_rgba8();
            Some((rgba.width(), rgba.height(), rgba.into_raw()))
        },
        Err(_) => None,
    }
}

/// Sum of the red, green and blue channels of the first `n` pixels of an RGBA
/// buffer; alpha is left out.
pub open spec fn rgb_sum(px: Seq<u8>, n: int) -> int
    decreases n,
{
    if n <= 0 {
        0
    } else {
        rgb_sum(px, n - 1) + px[4 * (n - 1)] + px[4 * (n - 1) + 1] + px[4 * (n - 1) + 2]
    }
}

/// Brightness of an RGBA image of `n > 0` pixels: the mean of its red, green
/// and blue intensities over `3 * 255 * n`, in millionths, rounded down.
pub open spec fn brightness_of(px: Seq<u8>, n: int) -> int {
    rgb_sum(px, n) * (BRIGHTNESS_SCALE as int) / (765 * n)
}

/// Brightness of a decoded image, if it has any pixel.
pub open spec fn image_brightness(bytes: Seq<u8>) -> Result<u32, Error> {
    match decoded_rgba(bytes) {
        Some((w, h, px)) => if (w as int) * (h as int) > 0 {
            Ok(brightness_of(px, (w as int) * (h as int)) as u32)
        } else {
            Err(Error::UnableToOpenFileAsImage)
        },
        None => Err(Error::UnableToOpenFileAsImage),
    }
}

proof fn lemma_rgb_sum_bound(px: Seq<u8>, n: int)
    requires
        0 <= n,
        4 * n <= px.len(),
    ensures
        0 <= rgb_sum(px, n) <= 765 * n,
    decreases n,
{
    if n > 0 {
        lemma_rgb_sum_bound(px, n - 1);
    }
}

/// A brightness lies in `[0, BRIGHTNESS_SCALE]`.
pub proof fn lemma_brightness_in_range(px: Seq<u8>, n: int)
    requires
        0 < n,
        4 * n <= px.len(),
    ensures
        0 <= brightness_of(px, n) <= BRIGHTNESS_SCALE,
{
    lemma_rgb_sum_bound(px, n);
    let s = rgb_sum(px, n);
    let d = 765 * n;
    assert(s * 1_000_000 <= d * 1_000_000) by (nonlinear_arith)
        requires
            s <= d,
    ;
    assert(0 <= s * 1_000_000 / d <= 1_000_000) by (nonlinear_arith)
        requires
            0 <= s * 1_000_000 <= d * 1_000_000,
            d > 0,
    ;
}

/// The analyzer has no randomness: equal file contents give equal results.
pub proof fn lemma_brightness_reproducible(a: Seq<u8>, b: Seq<u8>)
    requires
        a == b,
    ensures
        image_brightness(a) == image_brightness(b),
{
}

/// Brightness of the `width` by `height` image whose RGBA pixels are `rgba`.
/// An image without pixels has none.
pub fn rgba_brightness(width: u32, height: u32, rgba: &Vec<u8>) -> (r: Option<u32>)
    requires
        rgba@.len() == 4 * (width as int) * (height as int),
    ensures
        (width as int) * (height as int) == 0 <==> r is None,
        r matches Some(b) ==> b as int == brightness_of(rgba@, (width as int) * (height as int))
            && b <= BRIGHTNESS_SCALE,
{
    let n: usize = rgba.len() / 4;
    let ghost pixels: int = (width as int) * (height as int);
    assert(n as int == pixels && rgba@.len() == 4 * n) by (nonlinear_arith)
        requires
            rgba@.len() == 4 * (width as int) * (height as int),
            pixels == (width as int) * (height as int),
            n == rgba@.len() / 4,
    ;
    if n == 0 {
        return None;
    }
    let mut sum: u128 = 0;
    let mut i: usize = 0;
    while i < n
        invariant
            n as int == (width as int) * (height as int),
            rgba@.len() == 4 * n,
            i <= n,
            sum as int == rgb_sum(rgba@, i as int),
            sum <= 765 * i,
            4 * n <= usize::MAX,
        decreases n - i,
    {
        proof {
            lemma_rgb_sum_bound(rgba@, i as int);
        }
        let base: usize = 4 * i;
        sum = sum + rgba[base] as u128 + rgba[base + 1] as u128 + rgba[base + 2] as u128;
        i = i + 1;
    }
    proof {
        lemma_brightness_in_range(rgba@, n as int);
    }
    let denom: u128 = 765 * (n as u128);
    assert(sum * 1_000_000 <= 765 * 0x1_0000_0000_0000_0000 * 1_000_000) by (nonlinear_arith)
        requires
            sum <= 765 * n,
            n < 0x1_0000_0000_0000_0000,
    ;
    let b: u128 = sum * (BRIGHTNESS_SCALE as u128) / denom;
    Some(b as u32)
}

/// Brightness Analyzer: decodes `contents` as an image and reduces it to the
/// mean of its red, green and blue intensities. Bytes that do not decode, or
/// decode to an image without pixels, give `UnableToOpenFileAsImage`.
pub fn calc_image_brightness(contents: &[u8]) -> (r: Result<u32, Error>)
    ensures
        r == image_brightness(contents@),
        r matches Ok(b) ==> b <= BRIGHTNESS_SCALE,
{
    match decode_rgba(contents) {
        None => Err(Error::UnableToOpenFileAsImage),
        Some((width, height, rgba)) => {
            match rgba_brightness(width, height, &rgba) {
                Some(b) => Ok(b),
                None => Err(Error::UnableToOpenFileAsImage),
            }
        },
    }
}

} // verus!
