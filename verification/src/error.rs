//! What can stop a playback session.

use vstd::prelude::*;

verus! {

/// A failure that ends playback.
#[derive(Debug, PartialEq, Eq)]
pub enum PlaybackError {
    /// No frame interval could be determined, so playback cannot start.
    UnresolvedInterval,
    /// A frame could not be decompressed. The pass ends there: the frame is
    /// neither retried nor skipped.
    Decode {
        /// The index of the frame.
        frame: usize,
        /// What the decoder reported.
        message: String,
    },
}

} // verus!
