use vstd::prelude::*;

verus! {

/// Weight of the red channel in a luma value, in 256ths.
pub const RED_WEIGHT: u32 = 77;

/// Weight of the green channel in a luma value, in 256ths.
pub const GREEN_WEIGHT: u32 = 150;

/// Weight of the blue channel in a luma value, in 256ths.
pub const BLUE_WEIGHT: u32 = 29;

/// Bytes that one pixel takes in a frame: red, green, blue, alpha.
pub const CHANNELS: usize = 4;

/// The grey value of a colour: the weighted sum of its channels, divided by 256 and rounded down.
pub open spec fn luma_of(r: u8, g: u8, b: u8) -> int {
    (r as int * 77 + g as int * 150 + b as int * 29) / 256
}

/// The grey value of pixel `i` of an RGBA frame.
pub open spec fn pixel_luma(frame: Seq<u8>, i: int) -> int {
    luma_of(frame[4 * i], frame[4 * i + 1], frame[4 * i + 2])
}

/// The distance between two grey values.
pub open spec fn gap(a: int, b: int) -> int {
    if a >= b {
        a - b
    } else {
        b - a
    }
}

/// How far the grey value of pixel `i` moved between two frames.
pub open spec fn pixel_diff(current: Seq<u8>, previous: Seq<u8>, i: int) -> int {
    gap(pixel_luma(current, i), pixel_luma(previous, i))
}

/// A grey value never leaves the range of a byte.
pub proof fn lemma_luma_is_byte(r: u8, g: u8, b: u8)
    ensures
        0 <= luma_of(r, g, b) <= 255,
{
}

/// Computes the grey value of a colour.
pub fn luma(r: u8, g: u8, b: u8) -> (out: u8)
    ensures
        out as int == luma_of(r, g, b),
{
    let sum: u32 = (r as u32) * RED_WEIGHT + (g as u32) * GREEN_WEIGHT + (b as u32) * BLUE_WEIGHT;
    assert(sum >> 8 == sum / 256) by (bit_vector);
    (sum >> 8) as u8
}

/// Computes how far the grey value of pixel `i` moved between two frames.
pub fn luma_difference(current: &[u8], previous: &[u8], i: usize) -> (out: u8)
    requires
        4 * i + 3 < current.len(),
        4 * i + 3 < previous.len(),
    ensures
        out as int == pixel_diff(current@, previous@, i as int),
{
    let base: usize = i * CHANNELS;
    let now: u8 = luma(current[base], current[base + 1], current[base + 2]);
    let before: u8 = luma(previous[base], previous[base + 1], previous[base + 2]);
    if now >= before {
        now - before
    } else {
        before - now
    }
}

} // verus!
