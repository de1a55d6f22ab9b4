use vstd::prelude::*;
use vstd::slice::slice_to_vec;
use crate::error::MotionError;
use crate::frame::{paint_black, paint_grey};
use crate::geometry::{build_tier_table, QualityTier};
use crate::luma::{luma_difference, pixel_diff};
use crate::options::Motion;
use crate::state::{
    blended_by, first_frame_taken, fresh, later_frame_taken, wave_freedom, DetectorState,
};
use crate::warp::{blank, covers, filled, remap, remapped_by, shift, shifted, Freedom};

verus! {

/// Follows what moves between the frames of a stream and keeps a fading trail of it.
pub struct MotionDetector<T> {
    width: u32,
    height: u32,
    zero: T,
    persistence_buffer: Vec<T>,
    temp_buffer: Vec<T>,
    previous_frame_cache: Vec<u8>,
    is_first_frame: bool,
    phase: T,
    tiers: Vec<QualityTier>,
}

impl<T> View for MotionDetector<T> {
    type V = DetectorState<T>;

    closed spec fn view(&self) -> DetectorState<T> {
        DetectorState {
            width: self.width as int,
            height: self.height as int,
            zero: self.zero,
            levels: self.persistence_buffer@,
            warped: self.temp_buffer@,
            cached: self.previous_frame_cache@,
            primed: !self.is_first_frame,
            phase: self.phase,
            tiers: self.tiers@,
        }
    }
}

impl<T: Copy> MotionDetector<T> {
    /// Makes a detector for a grid of `width` by `height` pixels, with `zero` as the level of a
    /// pixel in which nothing moved, and works out the tier of every pixel. A grid without
    /// pixels is turned down.
    pub fn new(width: u32, height: u32, zero: T) -> (res: Result<MotionDetector<T>, MotionError>)
        requires
            4 * (width * height) <= usize::MAX,
        ensures
            res is Err <==> width == 0 || height == 0,
            res matches Err(e) ==> e == MotionError::InvalidGeometry,
            res matches Ok(d) ==> d@ == fresh(width as int, height as int, zero) && d@.valid(),
    {
        if width == 0 || height == 0 {
            return Err(MotionError::InvalidGeometry);
        }
        proof {
            assert(0 < width * height) by (nonlinear_arith)
                requires
                    0 < width,
                    0 < height,
            ;
        }
        let buffer_size: usize = (width as usize) * (height as usize);
        let detector = MotionDetector {
            width,
            height,
            zero,
            persistence_buffer: filled(zero, buffer_size),
            temp_buffer: filled(zero, buffer_size),
            previous_frame_cache: Vec::new(),
            is_first_frame: true,
            phase: zero,
            tiers: build_tier_table(width, height),
        };
        assert(detector@ =~= fresh(width as int, height as int, zero));
        Ok(detector)
    }

    /// The number of pixels in a row.
    pub fn width(&self) -> (out: u32)
        ensures
            out == self@.width,
    {
        self.width
    }

    /// The number of rows.
    pub fn height(&self) -> (out: u32)
        ensures
            out == self@.height,
    {
        self.height
    }

    /// Tells whether the detector still waits for its first frame.
    pub fn is_first_frame(&self) -> (out: bool)
        ensures
            out == !self@.primed,
    {
        self.is_first_frame
    }

    /// The phase of the wave.
    pub fn phase(&self) -> (out: T)
        ensures
            out == self@.phase,
    {
        self.phase
    }

    /// Sets the phase of the wave, and nothing else.
    pub fn set_phase(&mut self, phase: T)
        ensures
            final(self)@ == (DetectorState { phase, ..old(self)@ }),
    {
        self.phase = phase;
    }

    /// The number of levels that the trail holds: one for each pixel.
    pub fn get_buffer_size(&self) -> (out: usize)
        requires
            self@.valid(),
        ensures
            out == self@.width * self@.height,
    {
        self.persistence_buffer.len()
    }

    /// Wipes the trail: every pixel goes back to the zero level. The cached frame, the phase
    /// and whether a frame has been seen stay as they are.
    pub fn reset_persistence(&mut self)
        requires
            old(self)@.valid(),
        ensures
            final(self)@ == (DetectorState {
                levels: blank(old(self)@.zero, old(self)@.pixels()),
                ..old(self)@
            }),
            final(self)@.valid(),
    {
        let count: usize = self.persistence_buffer.len();
        let mut i: usize = 0;
        while i < count
            invariant
                i <= count,
                self.persistence_buffer@.len() == count,
                self@ == (DetectorState { levels: self.persistence_buffer@, ..old(self)@ }),
                forall|k: int| 0 <= k < i ==> self.persistence_buffer@[k] == old(self)@.zero,
            decreases count - i,
        {
            self.persistence_buffer.set(i, self.zero);
            i += 1;
        }
        assert(self.persistence_buffer@ =~= blank(old(self)@.zero, old(self)@.pixels()));
    }

    /// The trail, one level for each pixel, row by row.
    pub fn persistence(&self) -> (out: &Vec<T>)
        ensures
            out@ == self@.levels,
    {
        &self.persistence_buffer
    }

    /// The trail as the last move left it.
    pub fn warped(&self) -> (out: &Vec<T>)
        ensures
            out@ == self@.warped,
    {
        &self.temp_buffer
    }

    /// The tier of each pixel, row by row.
    pub fn tiers(&self) -> (out: &Vec<QualityTier>)
        ensures
            out@ == self@.tiers,
    {
        &self.tiers
    }

    /// The frame seen last; empty before the first one.
    pub fn previous_frame(&self) -> (out: &Vec<u8>)
        ensures
            out@ == self@.cached,
    {
        &self.previous_frame_cache
    }

    /// Leaves the trail where it is: the moved copy is the trail itself.
    pub fn hold_still(&mut self)
        requires
            old(self)@.valid(),
        ensures
            final(self)@ == (DetectorState { warped: old(self)@.levels, ..old(self)@ }),
            final(self)@.valid(),
    {
        self.temp_buffer = slice_to_vec(self.persistence_buffer.as_slice());
    }

    /// Pans the trail by `(move_x, move_y)` pixels. What comes into view holds the zero level.
    pub fn move_in_direction(&mut self, move_x: i32, move_y: i32)
        requires
            old(self)@.valid(),
        ensures
            final(self)@ == (DetectorState {
                warped: shifted(
                    old(self)@.levels,
                    old(self)@.width,
                    old(self)@.height,
                    old(self)@.zero,
                    move_x as int,
                    move_y as int,
                ),
                ..old(self)@
            }),
            final(self)@.valid(),
    {
        self.temp_buffer = shift(
            &self.persistence_buffer,
            self.width,
            self.height,
            self.zero,
            move_x,
            move_y,
        );
    }

    /// Moves the trail towards the centre or away from it: each pixel takes the level found at
    /// the source that `source` gives for it, keeps its own where `source` gives none, and
    /// holds the zero level where the source lies outside the grid.
    pub fn move_radially<S: Fn(u32, u32, QualityTier) -> Option<(i32, i32)>>(&mut self, source: S)
        requires
            old(self)@.valid(),
            covers(source, old(self)@.width, old(self)@.height),
        ensures
            remapped_by(
                source,
                old(self)@.levels,
                old(self)@.width,
                old(self)@.height,
                old(self)@.zero,
                Freedom::Both,
                final(self)@.warped,
            ),
            final(self)@ == (DetectorState { warped: final(self)@.warped, ..old(self)@ }),
            final(self)@.valid(),
    {
        self.temp_buffer = remap(
            &self.persistence_buffer,
            &self.tiers,
            self.width,
            self.height,
            self.zero,
            Freedom::Both,
            source,
        );
    }

    /// Turns the trail about the centre while it runs: each pixel takes the level found at the
    /// source that `source` gives for it, keeps its own where `source` gives none, and holds
    /// the zero level where the source lies outside the grid.
    pub fn move_spiral<S: Fn(u32, u32, QualityTier) -> Option<(i32, i32)>>(&mut self, source: S)
        requires
            old(self)@.valid(),
            covers(source, old(self)@.width, old(self)@.height),
        ensures
            remapped_by(
                source,
                old(self)@.levels,
                old(self)@.width,
                old(self)@.height,
                old(self)@.zero,
                Freedom::Both,
                final(self)@.warped,
            ),
            final(self)@ == (DetectorState { warped: final(self)@.warped, ..old(self)@ }),
            final(self)@.valid(),
    {
        self.temp_buffer = remap(
            &self.persistence_buffer,
            &self.tiers,
            self.width,
            self.height,
            self.zero,
            Freedom::Both,
            source,
        );
    }

    /// Shears the trail by a wave and sets the wave's phase to `next_phase`. Each pixel slides
    /// along its column where `vertical` holds, along its row where it does not: of the source
    /// that `source` gives for it only the coordinate along that axis counts.
    pub fn move_wave<S: Fn(u32, u32, QualityTier) -> Option<(i32, i32)>>(
        &mut self,
        vertical: bool,
        next_phase: T,
        source: S,
    )
        requires
            old(self)@.valid(),
            covers(source, old(self)@.width, old(self)@.height),
        ensures
            remapped_by(
                source,
                old(self)@.levels,
                old(self)@.width,
                old(self)@.height,
                old(self)@.zero,
                wave_freedom(vertical),
                final(self)@.warped,
            ),
            final(self)@ == (DetectorState {
                warped: final(self)@.warped,
                phase: next_phase,
                ..old(self)@
            }),
            final(self)@.valid(),
    {
        self.phase = next_phase;
        let freedom = if vertical {
            Freedom::AlongColumn
        } else {
            Freedom::AlongRow
        };
        self.temp_buffer = remap(
            &self.persistence_buffer,
            &self.tiers,
            self.width,
            self.height,
            self.zero,
            freedom,
            source,
        );
    }

    /// Takes one frame in and writes one frame out.
    ///
    /// Both frames must hold four bytes for each pixel of the grid; where one does not, the
    /// call is turned down and nothing is touched. The first frame that a detector sees is
    /// only cached, and the frame written is black. For every later frame the trail is first
    /// moved as `motion` asks, with `source` giving each pixel's source where the move needs
    /// one. Then each pixel is blended: `blend` gets the pixel's index, how far its grey value
    /// moved since the frame seen last, and its moved level, and gives the pixel's new level
    /// and the grey value to show. At the end the frame is cached for the next call.
    pub fn process_motion_with_cache<S, B>(
        &mut self,
        current_data: &[u8],
        output_data: &mut [u8],
        motion: Motion<T>,
        source: S,
        blend: B,
    ) -> (res: Result<(), MotionError>) where
        S: Fn(u32, u32, QualityTier) -> Option<(i32, i32)>,
        B: Fn(usize, u8, T) -> (T, u8),

        requires
            old(self)@.valid(),
            covers(source, old(self)@.width, old(self)@.height),
            forall|i: usize, diff: u8, level: T|
                i < old(self)@.pixels() ==> #[trigger] blend.requires((i, diff, level)),
        ensures
            final(self)@.valid(),
            res is Err <==> current_data@.len() != 4 * old(self)@.pixels() || old(
                output_data,
            )@.len() != 4 * old(self)@.pixels(),
            res matches Err(e) ==> e == MotionError::BufferSizeMismatch && final(self)@ == old(
                self,
            )@ && final(output_data)@ == old(output_data)@,
            res is Ok && !old(self)@.primed ==> first_frame_taken(
                old(self)@,
                final(self)@,
                current_data@,
                final(output_data)@,
            ),
            res is Ok && old(self)@.primed ==> later_frame_taken(
                old(self)@,
                final(self)@,
                current_data@,
                final(output_data)@,
                motion,
                source,
                blend,
            ),
    {
        let count: usize = self.persistence_buffer.len();
        if current_data.len() != 4 * count || output_data.len() != 4 * count {
            return Err(MotionError::BufferSizeMismatch);
        }
        if self.is_first_frame {
            self.previous_frame_cache = slice_to_vec(current_data);
            self.is_first_frame = false;
            paint_black(output_data);
            return Ok(());
        }
        match motion {
            Motion::Still => self.hold_still(),
            Motion::Direction { move_x, move_y } => self.move_in_direction(move_x, move_y),
            Motion::Radial => self.move_radially(source),
            Motion::Spiral => self.move_spiral(source),
            Motion::Wave { vertical, next_phase } => self.move_wave(vertical, next_phase, source),
        }
        let ghost before = self@;
        let mut i: usize = 0;
        while i < count
            invariant
                i <= count,
                count == before.pixels(),
                before.valid(),
                before.primed,
                current_data@.len() == 4 * count,
                output_data@.len() == 4 * count,
                self@ == (DetectorState { levels: self@.levels, ..before }),
                self@.levels.len() == count,
                forall|i: usize, diff: u8, level: T|
                    i < before.pixels() ==> #[trigger] blend.requires((i, diff, level)),
                forall|k: usize|
                    k < i ==> #[trigger] blended_by(
                        blend,
                        k,
                        pixel_diff(current_data@, before.cached, k as int),
                        before.warped[k as int],
                        self@.levels[k as int],
                        output_data@,
                    ),
            decreases count - i,
        {
            let diff: u8 = luma_difference(current_data, self.previous_frame_cache.as_slice(), i);
            let (level, grey) = blend(i, diff, self.temp_buffer[i]);
            let ghost painted = output_data@;
            let ghost trail = self@.levels;
            self.persistence_buffer.set(i, level);
            paint_grey(output_data, i, grey);
            proof {
                assert forall|k: usize| k < i implies #[trigger] blended_by(
                    blend,
                    k,
                    pixel_diff(current_data@, before.cached, k as int),
                    before.warped[k as int],
                    self@.levels[k as int],
                    output_data@,
                ) by {
                    assert(blended_by(
                        blend,
                        k,
                        pixel_diff(current_data@, before.cached, k as int),
                        before.warped[k as int],
                        trail[k as int],
                        painted,
                    ));
                }
            }
            i += 1;
        }
        self.previous_frame_cache = slice_to_vec(current_data);
        Ok(())
    }
}

} // verus!
