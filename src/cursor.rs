use vstd::prelude::*;

use crate::geometry::Point;

verus! {

/// The image that `image` decodes from an encoded file: width, height and RGBA8 pixel
/// bytes, or `None` where the bytes do not decode.
pub uninterp spec fn decoded_rgba(bytes: Seq<u8>) -> Option<(u32, u32, Seq<u8>)>;

/// Relies on `image::load_from_memory` followed by `DynamicImage::to_rgba8`: the format is
/// guessed from the bytes, the image decoded and converted to 8-bit RGBA; the result
/// depends on the bytes alone.
#[verifier::external_body]
fn decode_rgba(bytes: &[u8]) -> (r: Option<(u32, u32, Vec<u8>)>)
    ensures
        match r {
            Some((w, h, px)) => decoded_rgba(bytes@) == Some((w, h, px@)),
            None => decoded_rgba(bytes@) is None,
        },
{
    match image::load_from_memory(bytes) {
        Ok(img) => {
            let rgba = img.to_rgba8();
            let (w, h) = rgba.dimensions();
            Some((w, h, rgba.into_raw()))
        },
        Err(_) => None,
    }
}

/// Byte `i` of `s` with the first and third byte of every complete 4-byte pixel
/// exchanged (RGBA to BGRA); a trailing partial pixel stays as it is.
pub open spec fn swapped_byte(s: Seq<u8>, i: int) -> u8 {
    if i < s.len() - s.len() % 4 {
        if i % 4 == 0 {
            s[i + 2]
        } else if i % 4 == 2 {
            s[i - 2]
        } else {
            s[i]
        }
    } else {
        s[i]
    }
}

/// `s` with red and blue exchanged in every complete pixel.
pub open spec fn red_blue_swapped(s: Seq<u8>) -> Seq<u8> {
    Seq::new(s.len(), |i: int| swapped_byte(s, i))
}

/// Turns RGBA pixel bytes into the presentation format's BGRA order, in place.
pub fn swap_red_blue(pixels: &mut Vec<u8>)
    ensures
        final(pixels)@ == red_blue_swapped(old(pixels)@),
{
    let ghost orig = pixels@;
    let n = pixels.len();
    let whole = n - n % 4;
    let mut i: usize = 0;
    while i < whole
        invariant
            n == orig.len(),
            whole == n - n % 4,
            pixels@.len() == n,
            i % 4 == 0,
            i <= whole,
            forall|k: int| 0 <= k < i ==> #[trigger] pixels@[k] == swapped_byte(orig, k),
            forall|k: int| i <= k < n ==> #[trigger] pixels@[k] == orig[k],
        decreases whole - i,
    {
        let red = pixels[i];
        let blue = pixels[i + 2];
        pixels.set(i, blue);
        pixels.set(i + 2, red);
        i = i + 4;
    }
    assert(pixels@ =~= red_blue_swapped(orig));
}

/// A cursor image ready to present: BGRA pixels and the hotspot at its centre.
pub struct CursorImage {
    pub width: u32,
    pub height: u32,
    pub pixels: Vec<u8>,
    pub hotspot: Point,
}

/// Builds the cursor from decoded RGBA pixels: red and blue exchanged, the hotspot at
/// `(width / 2, height / 2)`.
pub fn prepare_cursor(width: u32, height: u32, rgba: Vec<u8>) -> (c: CursorImage)
    ensures
        c.width == width,
        c.height == height,
        c.pixels@ == red_blue_swapped(rgba@),
        c.hotspot == (Point { x: (width / 2) as i32, y: (height / 2) as i32 }),
{
    let mut pixels = rgba;
    swap_red_blue(&mut pixels);
    CursorImage {
        width,
        height,
        pixels,
        hotspot: Point { x: (width / 2) as i32, y: (height / 2) as i32 },
    }
}

/// Decodes an encoded cursor image and prepares it for presentation; `None` where the
/// bytes do not decode.
pub fn load_cursor(encoded: &[u8]) -> (r: Option<CursorImage>)
    ensures
        match decoded_rgba(encoded@) {
            None => r is None,
            Some((w, h, px)) => r matches Some(c) && c.width == w && c.height == h && c.pixels@
                == red_blue_swapped(px) && c.hotspot == (Point {
                x: (w / 2) as i32,
                y: (h / 2) as i32,
            }),
        },
{
    match decode_rgba(encoded) {
        Some((w, h, px)) => Some(prepare_cursor(w, h, px)),
        None => None,
    }
}

} // verus!
