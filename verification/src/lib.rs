//! Frame/audio synchronisation for terminal video playback.
//!
//! A playback pass shows a sequence of compressed frames at a fixed
//! interval while a reference clock counts the intervals that have gone by.
//! The render loop follows the clock: every few frames it snaps its cursor to
//! the position that the clock has published.
//!
//! - [`archive`] and [`names`] sort the entries of an archive into audio,
//!   metadata and frames.
//! - [`interval`] chooses the frame interval and paces the loop.
//! - [`session`] holds what is played and starts each pass.
//! - [`clock`] and [`position`] are the reference clock and the position that
//!   it shares.
//! - [`render`] is the render loop, and [`decode`] the decompression of its
//!   frames.
//! - [`pass`] states what holds of a whole pass.
//!
//! The library neither sleeps nor writes to the terminal: its caller lets
//! the intervals go by, performs the writes, and runs the clock beside the
//! loop.

pub mod archive;
pub mod clock;
pub mod decode;
pub mod error;
pub mod interval;
pub mod names;
pub mod pass;
pub mod position;
pub mod render;
pub mod session;
