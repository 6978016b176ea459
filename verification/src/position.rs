//! The position that the reference clock shares with the render loop.

use std::sync::atomic::AtomicUsize;
use std::sync::atomic::Ordering;
use vstd::prelude::*;

verus! {

/// How many intervals of the current pass have gone by, as the reference
/// clock last published it.
///
/// One side writes and the other reads, and neither waits for the other:
/// while a pass runs, its clock is the only writer and its render loop the
/// only reader. A reader may see a value that is a little old; it is used to
/// catch up, not to decide anything that must be exact, so all that is
/// promised of a read is that it gives a position of the pass: one from
/// zero to the frame count.
pub struct SharedPosition {
    ticks: AtomicUsize,
    frame_count: usize,
}

impl SharedPosition {
    /// How many frames a pass has: no position is read beyond it.
    pub closed spec fn limit(&self) -> usize {
        self.frame_count
    }

    /// A position at the start of a pass, for passes over `frame_count`
    /// frames.
    pub fn new(frame_count: usize) -> (r: Self)
        ensures
            r.limit() == frame_count,
    {
        SharedPosition { ticks: AtomicUsize::new(0), frame_count }
    }

    /// Makes `position` visible to the reader.
    pub fn publish(&self, position: usize) {
        self.ticks.store(position, Ordering::Relaxed);
    }

    /// Goes back to the start of a pass.
    pub fn reset(&self) {
        self.ticks.store(0, Ordering::Relaxed);
    }

    /// The position that was last seen published. A position past the last
    /// frame is read as the frame count: the pass is over either way.
    pub fn read(&self) -> (r: usize)
        ensures
            r <= self.limit(),
    {
        let position = self.ticks.load(Ordering::Relaxed);
        if position > self.frame_count {
            self.frame_count
        } else {
            position
        }
    }
}

} // verus!
