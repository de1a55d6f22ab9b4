use vstd::prelude::*;
use crate::frame::shows_grey;
use crate::geometry::{cell, in_grid, lemma_cell_in_range, lemma_place_is_pixel, QualityTier};
use crate::luma::{luma_of, pixel_diff, pixel_luma};
use crate::options::{direction_tag, kind_of, radial_tag, spiral_tag, wave_tag, Motion, MoveKind};
use crate::state::{blended_by, first_frame_taken, later_frame_taken, DetectorState};
use crate::warp::{placed_by, remapped_by, sample, shifted, Freedom};

verus! {

/// The grey value of a colour fits a byte, and so does the distance between two of them.
pub proof fn lemma_pixel_diff_is_byte(current: Seq<u8>, previous: Seq<u8>, i: int)
    ensures
        0 <= pixel_luma(current, i) <= 255,
        0 <= pixel_diff(current, previous, i) <= 255,
{
    assert(0 <= luma_of(current[4 * i], current[4 * i + 1], current[4 * i + 2]) <= 255);
    assert(0 <= luma_of(previous[4 * i], previous[4 * i + 1], previous[4 * i + 2]) <= 255);
}

/// The first frame that a detector takes is shown black, every pixel of it and whatever the
/// frame holds; the detector is primed by it, and its trail is not touched.
pub proof fn lemma_first_frame_is_black<T>(
    before: DetectorState<T>,
    after: DetectorState<T>,
    current: Seq<u8>,
    shown: Seq<u8>,
    other_after: DetectorState<T>,
    other_current: Seq<u8>,
    other_shown: Seq<u8>,
)
    requires
        before.valid(),
        first_frame_taken(before, after, current, shown),
        first_frame_taken(before, other_after, other_current, other_shown),
    ensures
        shown == other_shown,
        shown.len() == 4 * before.pixels(),
        forall|i: int| 0 <= i < before.pixels() ==> #[trigger] shows_grey(shown, i, 0),
        after.primed,
        after.levels == before.levels,
{
}

/// After a pan, each pixel holds the level that lay the pan's length behind it, and the zero
/// level where that place lies outside the grid.
pub proof fn lemma_shifted_pixel<T>(
    levels: Seq<T>,
    width: int,
    height: int,
    zero: T,
    move_x: int,
    move_y: int,
    x: int,
    y: int,
)
    requires
        in_grid(width, height, x, y),
    ensures
        shifted(levels, width, height, zero, move_x, move_y).len() == width * height,
        shifted(levels, width, height, zero, move_x, move_y)[cell(width, x, y)] == sample(
            levels,
            width,
            height,
            zero,
            x - move_x,
            y - move_y,
        ),
{
    lemma_cell_in_range(width, height, x, y);
}

/// A pan by no pixels leaves every level where it is.
pub proof fn lemma_zero_shift_is_identity<T>(levels: Seq<T>, width: int, height: int, zero: T)
    requires
        0 < width,
        0 < height,
        levels.len() == width * height,
    ensures
        shifted(levels, width, height, zero, 0, 0) == levels,
{
    let out = shifted(levels, width, height, zero, 0, 0);
    assert forall|i: int| 0 <= i < levels.len() implies out[i] == levels[i] by {
        lemma_place_is_pixel(width, height, i);
    }
    assert(out =~= levels);
}

/// A move in which no pixel is given a source leaves every level where it is.
pub proof fn lemma_sourceless_remap_is_identity<
    T,
    S: Fn(u32, u32, QualityTier) -> Option<(i32, i32)>,
>(source: S, levels: Seq<T>, width: int, height: int, zero: T, freedom: Freedom, out: Seq<T>)
    requires
        0 < width <= u32::MAX,
        0 < height <= u32::MAX,
        levels.len() == width * height,
        forall|x: u32, y: u32, tier: QualityTier, from: Option<(i32, i32)>|
            x < width && y < height && #[trigger] source.ensures((x, y, tier), from)
                ==> from is None,
        remapped_by(source, levels, width, height, zero, freedom, out),
    ensures
        out == levels,
{
    assert forall|i: int| 0 <= i < levels.len() implies out[i] == levels[i] by {
        lemma_place_is_pixel(width, height, i);
        let x = i % width;
        let y = i / width;
        assert(placed_by(source, levels, width, height, zero, freedom, out, x as u32, y as u32));
    }
    assert(out =~= levels);
}

/// A frame whose tag is absent, or names none of the known moves, is taken with the trail left
/// where it is: the moved copy is the trail itself, as after a pan by no pixels, and the phase
/// of the wave stays.
pub proof fn lemma_unknown_tag_keeps_trail<
    T,
    S: Fn(u32, u32, QualityTier) -> Option<(i32, i32)>,
    B: Fn(usize, u8, T) -> (T, u8),
>(
    tag: Option<Seq<u8>>,
    before: DetectorState<T>,
    after: DetectorState<T>,
    current: Seq<u8>,
    shown: Seq<u8>,
    motion: Motion<T>,
    source: S,
    blend: B,
)
    requires
        tag matches Some(t) ==> t != direction_tag() && t != radial_tag() && t != spiral_tag() && t
            != wave_tag(),
        motion.kind_spec() == kind_of(tag),
        before.valid(),
        later_frame_taken(before, after, current, shown, motion, source, blend),
    ensures
        kind_of(tag) == MoveKind::Still,
        after.warped == before.levels,
        after.warped == shifted(before.levels, before.width, before.height, before.zero, 0, 0),
        after.phase == before.phase,
{
    lemma_zero_shift_is_identity(before.levels, before.width, before.height, before.zero);
}

/// A frame that repeats the cached one shows no movement. Taken with the trail left where it
/// is, it leaves in every pixel what the blend makes of the pixel's old level and the
/// difference zero: the trail only decays.
pub proof fn lemma_still_scene_only_decays<
    T,
    S: Fn(u32, u32, QualityTier) -> Option<(i32, i32)>,
    B: Fn(usize, u8, T) -> (T, u8),
>(
    before: DetectorState<T>,
    after: DetectorState<T>,
    shown: Seq<u8>,
    source: S,
    blend: B,
)
    requires
        before.valid(),
        later_frame_taken(before, after, before.cached, shown, Motion::Still, source, blend),
    ensures
        forall|i: int| 0 <= i < before.pixels() ==> pixel_diff(before.cached, before.cached, i) == 0,
        forall|i: usize|
            i < before.pixels() ==> #[trigger] blend.ensures(
                (i, 0u8, before.levels[i as int]),
                (after.levels[i as int], shown[4 * i]),
            ),
        forall|i: int| 0 <= i < before.pixels() ==> #[trigger] shows_grey(shown, i, shown[4 * i]),
{
    assert forall|i: usize| i < before.pixels() implies #[trigger] blend.ensures(
        (i, 0u8, before.levels[i as int]),
        (after.levels[i as int], shown[4 * i]),
    ) by {
        assert(blended_by(
            blend,
            i,
            pixel_diff(before.cached, before.cached, i as int),
            after.warped[i as int],
            after.levels[i as int],
            shown,
        ));
    }
    assert forall|i: int| 0 <= i < before.pixels() implies #[trigger] shows_grey(
        shown,
        i,
        shown[4 * i],
    ) by {
        assert(blended_by(
            blend,
            i as usize,
            pixel_diff(before.cached, before.cached, i),
            after.warped[i],
            after.levels[i],
            shown,
        ));
    }
}

} // verus!
