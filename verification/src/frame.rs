use vstd::prelude::*;

verus! {

/// The alpha value of every pixel that the detector writes: fully opaque.
pub const OPAQUE: u8 = 255;

/// The frame of `len` bytes that shows nothing: every colour channel at zero, every alpha byte
/// opaque.
pub open spec fn black(len: int) -> Seq<u8> {
    Seq::new(
        len as nat,
        |i: int|
            if i % 4 == 3 {
                255u8
            } else {
                0u8
            },
    )
}

/// Whether pixel `i` of `frame` shows the grey value `grey`, opaque.
pub open spec fn shows_grey(frame: Seq<u8>, i: int, grey: u8) -> bool {
    &&& frame[4 * i] == grey
    &&& frame[4 * i + 1] == grey
    &&& frame[4 * i + 2] == grey
    &&& frame[4 * i + 3] == 255
}

/// Every pixel of a black frame shows the grey value zero.
pub proof fn lemma_black_shows_zero(len: int, i: int)
    requires
        0 <= i,
        4 * i + 3 < len,
    ensures
        shows_grey(black(len), i, 0),
{
}

/// Blacks out a frame, whatever it held.
pub fn paint_black(frame: &mut [u8])
    ensures
        final(frame)@ == black(old(frame)@.len() as int),
{
    let len: usize = frame.len();
    let mut i: usize = 0;
    while i < len
        invariant
            i <= len,
            frame@.len() == len,
            forall|k: int| 0 <= k < i ==> frame@[k] == black(len as int)[k],
        decreases len - i,
    {
        frame[i] = if i % 4 == 3 {
            OPAQUE
        } else {
            0
        };
        i += 1;
    }
    assert(frame@ =~= black(len as int));
}

/// Writes the grey value `grey` to pixel `i` of a frame, opaque, and leaves the other pixels as
/// they were.
pub fn paint_grey(frame: &mut [u8], i: usize, grey: u8)
    requires
        4 * i + 3 < old(frame).len(),
    ensures
        final(frame)@.len() == old(frame)@.len(),
        shows_grey(final(frame)@, i as int, grey),
        forall|k: int|
            0 <= k < old(frame)@.len() && !(4 * i <= k < 4 * i + 4) ==> final(frame)@[k] == old(
                frame,
            )@[k],
{
    let base: usize = 4 * i;
    frame[base] = grey;
    frame[base + 1] = grey;
    frame[base + 2] = grey;
    frame[base + 3] = OPAQUE;
}

} // verus!
