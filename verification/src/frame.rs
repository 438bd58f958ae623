//! Handing a rendered image to a display surface.

use vstd::prelude::*;
use crate::color::Col3;
use crate::color::Col4;

verus! {

/// The byte at index `j` of a frame that shows `image`, four bytes to the
/// pixel in the image's order, every pixel at full opacity.
pub open spec fn shown(image: Seq<Col3>, j: int) -> u8 {
    let color = image[j / 4];
    (Col4 { r: color.r, g: color.g, b: color.b, a: 255 }).bytes()[j % 4]
}

/// How many pixels of `image` a frame of `len` bytes takes.
pub open spec fn pixels_shown(image: Seq<Col3>, len: int) -> int {
    if len / 4 < image.len() {
        len / 4
    } else {
        image.len() as int
    }
}

/// Writes `image` into `frame`, pixel by pixel, for as many pixels as both
/// hold. The bytes after them stay as they are.
pub fn write_frame(image: &Vec<Col3>, frame: &mut [u8])
    ensures
        final(frame)@.len() == old(frame)@.len(),
        forall|j: int|
            0 <= j < 4 * pixels_shown(image@, old(frame)@.len() as int)
                ==> #[trigger] final(frame)@[j] == shown(image@, j),
        forall|j: int|
            4 * pixels_shown(image@, old(frame)@.len() as int) <= j < old(frame)@.len()
                ==> #[trigger] final(frame)@[j] == old(frame)@[j],
{
    let room: usize = frame.len() / 4;
    let pixels: usize = if room < image.len() {
        room
    } else {
        image.len()
    };
    let mut i: usize = 0;
    while i < pixels
        invariant
            0 <= i <= pixels,
            pixels == pixels_shown(image@, old(frame)@.len() as int),
            frame@.len() == old(frame)@.len(),
            4 * pixels <= frame@.len() <= usize::MAX,
            forall|j: int| 0 <= j < 4 * i ==> #[trigger] frame@[j] == shown(image@, j),
            forall|j: int| 4 * i <= j < frame@.len() ==> #[trigger] frame@[j] == old(frame)@[j],
        decreases pixels - i,
    {
        let rgba = Col4::opaque(image[i]);
        frame[4 * i] = rgba.r;
        frame[4 * i + 1] = rgba.g;
        frame[4 * i + 2] = rgba.b;
        frame[4 * i + 3] = rgba.a;
        i = i + 1;
    }
}

} // verus!
