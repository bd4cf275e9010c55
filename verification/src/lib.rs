//! Verified core of a small media player: the decisions and the pixel and
//! sample arithmetic that sit between the decoder, the audio device and the
//! window.
use vstd::prelude::*;

pub mod args;
pub mod audio;
pub mod control;
pub mod decode;
pub mod decoder;
pub mod endian;
pub mod frame;
pub mod player;
pub mod transform;
pub mod video;

verus! {

/// Widest video frame the player accepts, in pixels.
pub const WIDTH_LIMIT: usize = 15360;

/// Tallest video frame the player accepts, in pixels.
pub const HEIGHT_LIMIT: usize = 8640;

/// Highest frame rate the player accepts.
pub const FPS_LIMIT: usize = 1000;

} // verus!
