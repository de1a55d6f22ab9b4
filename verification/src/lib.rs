//! A motion detector for streams of RGBA frames that keeps a fading trail of what moved.
//!
//! Each frame is compared with the one before it, pixel by pixel, by the grey values of the
//! two. What moved is blended into a trail that holds one level for each pixel; before that
//! the trail itself can be moved: panned, run towards the centre or away from it, turned in a
//! spiral, or sheared by a wave.
//!
//! The library owns the grid, the frames, the trail and the order of the work, and works in
//! whole numbers throughout. The levels of the trail are of a type that the caller picks, and
//! the arithmetic on them reaches the detector as two functions: one that gives the place a
//! pixel's level comes from when the trail is moved, one that blends a pixel.

pub mod detector;
pub mod error;
pub mod frame;
pub mod geometry;
pub mod laws;
pub mod luma;
pub mod options;
pub mod state;
pub mod warp;
