use vstd::prelude::*;
use crate::frame::{black, shows_grey};
use crate::geometry::{tier_table, QualityTier};
use crate::luma::pixel_diff;
use crate::options::Motion;
use crate::warp::{blank, remapped_by, shifted, Freedom};

verus! {

/// What a detector holds, as plain mathematics.
pub struct DetectorState<T> {
    /// Pixels in a row.
    pub width: int,
    /// Rows.
    pub height: int,
    /// The level of a pixel in which nothing moved.
    pub zero: T,
    /// The trail: one level for each pixel, row by row.
    pub levels: Seq<T>,
    /// The trail as the last move left it, before a frame is blended in.
    pub warped: Seq<T>,
    /// The frame seen last.
    pub cached: Seq<u8>,
    /// Whether a frame has been seen.
    pub primed: bool,
    /// The phase of the wave.
    pub phase: T,
    /// The tier of each pixel, row by row.
    pub tiers: Seq<QualityTier>,
}

impl<T> DetectorState<T> {
    /// The number of pixels in the grid.
    pub open spec fn pixels(self) -> int {
        self.width * self.height
    }

    /// What holds of every detector: the grid is not empty, a frame of it can be addressed,
    /// the trail and its moved copy cover the grid, every pixel's tier is on record, and the
    /// cached frame covers the grid once there is one.
    pub open spec fn valid(self) -> bool {
        &&& 0 < self.width <= u32::MAX
        &&& 0 < self.height <= u32::MAX
        &&& 4 * self.pixels() <= usize::MAX
        &&& self.levels.len() == self.pixels()
        &&& self.warped.len() == self.pixels()
        &&& self.tiers == tier_table(self.width, self.height)
        &&& self.primed ==> self.cached.len() == 4 * self.pixels()
    }
}

/// The state of a detector that has seen no frame: an empty trail, nothing cached, the wave at
/// its start.
pub open spec fn fresh<T>(width: int, height: int, zero: T) -> DetectorState<T> {
    DetectorState {
        width,
        height,
        zero,
        levels: blank(zero, width * height),
        warped: blank(zero, width * height),
        cached: Seq::empty(),
        primed: false,
        phase: zero,
        tiers: tier_table(width, height),
    }
}

/// What a move leaves in the moved copy `out` of the trail `levels`.
pub open spec fn moved_by<T, S: Fn(u32, u32, QualityTier) -> Option<(i32, i32)>>(
    motion: Motion<T>,
    source: S,
    levels: Seq<T>,
    width: int,
    height: int,
    zero: T,
    out: Seq<T>,
) -> bool {
    match motion {
        Motion::Still => out == levels,
        Motion::Direction { move_x, move_y } => out == shifted(
            levels,
            width,
            height,
            zero,
            move_x as int,
            move_y as int,
        ),
        Motion::Radial => remapped_by(source, levels, width, height, zero, Freedom::Both, out),
        Motion::Spiral => remapped_by(source, levels, width, height, zero, Freedom::Both, out),
        Motion::Wave { vertical, .. } => remapped_by(
            source,
            levels,
            width,
            height,
            zero,
            wave_freedom(vertical),
            out,
        ),
    }
}

/// The phase of the wave after a move: the one that a wave brings, else the one before.
pub open spec fn phase_after<T>(motion: Motion<T>, phase: T) -> T {
    match motion {
        Motion::Wave { next_phase, .. } => next_phase,
        _ => phase,
    }
}

/// Pixel `i` was blended by `blend`: from the difference `diff` and the moved level `warped`
/// it gave the level `level`, and the grey value that `frame` shows at that pixel.
pub open spec fn blended_by<T, B: Fn(usize, u8, T) -> (T, u8)>(
    blend: B,
    i: usize,
    diff: int,
    warped: T,
    level: T,
    frame: Seq<u8>,
) -> bool {
    &&& blend.ensures((i, diff as u8, warped), (level, frame[4 * i]))
    &&& shows_grey(frame, i as int, frame[4 * i])
}

/// The axis along which a wave lets a pixel's source differ from the pixel.
pub open spec fn wave_freedom(vertical: bool) -> Freedom {
    if vertical {
        Freedom::AlongColumn
    } else {
        Freedom::AlongRow
    }
}

/// What the first frame does to a detector: the frame is cached, the trail and the phase stay
/// as they are, and the frame shown is black.
pub open spec fn first_frame_taken<T>(
    before: DetectorState<T>,
    after: DetectorState<T>,
    current: Seq<u8>,
    shown: Seq<u8>,
) -> bool {
    &&& after == (DetectorState { cached: current, primed: true, ..before })
    &&& shown == black(4 * before.pixels())
}

/// What a later frame does to a detector: the trail is moved as `motion` asks, every pixel is
/// blended from its moved level and from how far its grey value moved since the cached frame,
/// the frame shown holds the grey value that the blend gave for each pixel, and the frame is
/// cached.
pub open spec fn later_frame_taken<
    T,
    S: Fn(u32, u32, QualityTier) -> Option<(i32, i32)>,
    B: Fn(usize, u8, T) -> (T, u8),
>(
    before: DetectorState<T>,
    after: DetectorState<T>,
    current: Seq<u8>,
    shown: Seq<u8>,
    motion: Motion<T>,
    source: S,
    blend: B,
) -> bool {
    &&& after == (DetectorState {
        levels: after.levels,
        warped: after.warped,
        cached: current,
        phase: phase_after(motion, before.phase),
        ..before
    })
    &&& moved_by(
        motion,
        source,
        before.levels,
        before.width,
        before.height,
        before.zero,
        after.warped,
    )
    &&& after.levels.len() == before.pixels()
    &&& shown.len() == 4 * before.pixels()
    &&& forall|i: usize|
        i < before.pixels() ==> #[trigger] blended_by(
            blend,
            i,
            pixel_diff(current, before.cached, i as int),
            after.warped[i as int],
            after.levels[i as int],
            shown,
        )
}

} // verus!
