//! Cutting time windows out of a subtitle track.
//!
//! A track is an ordered list of timed cues. A window keeps the material that
//! lies between an offset and the window's end, and moves it so that the
//! window's start becomes time zero. Cues that straddle an edge of the window
//! are clipped to it; cues outside it are left out.

pub mod codec;
pub mod cue;
pub mod extract;
pub mod pipeline;
pub mod range;
pub mod time;
pub mod trim;
pub mod window;
