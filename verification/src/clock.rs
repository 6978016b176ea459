//! The reference clock: a counter of the frame intervals that have gone by in
//! the current pass.

use crate::position::SharedPosition;
use vstd::prelude::*;

verus! {

/// What a reference clock is at one moment.
pub struct ClockState {
    /// How many ticks have been counted in this pass.
    pub position: nat,
    /// How many frames the pass has: the clock stops there.
    pub frame_count: nat,
}

impl ClockState {
    /// The position never passes the frame count.
    pub open spec fn wf(self) -> bool {
        self.position <= self.frame_count
    }

    /// The clock at the start of a pass over `frame_count` frames.
    pub open spec fn starting(frame_count: nat) -> ClockState {
        ClockState { position: 0, frame_count }
    }

    /// Every tick of the pass has been counted.
    pub open spec fn finished(self) -> bool {
        self.position >= self.frame_count
    }

    /// The clock after one more interval. A finished clock stays as it is.
    pub open spec fn ticked(self) -> ClockState {
        if self.finished() {
            self
        } else {
            ClockState { position: self.position + 1, frame_count: self.frame_count }
        }
    }

    /// The position that a tick publishes, if it publishes one.
    pub open spec fn published_by_tick(self) -> Option<nat> {
        if self.finished() {
            None
        } else {
            Some(self.position + 1)
        }
    }

    /// The clock after `count` more intervals.
    pub open spec fn after_ticks(self, count: nat) -> ClockState
        decreases count,
    {
        if count == 0 {
            self
        } else {
            self.after_ticks((count - 1) as nat).ticked()
        }
    }
}

/// The ticker of one pass. It counts up to the frame count, one interval at a
/// time, and publishes each new position.
pub struct ReferenceClock {
    position: usize,
    frame_count: usize,
}

impl View for ReferenceClock {
    type V = ClockState;

    closed spec fn view(&self) -> ClockState {
        ClockState { position: self.position as nat, frame_count: self.frame_count as nat }
    }
}

impl ReferenceClock {
    #[verifier::type_invariant]
    spec fn within_pass(self) -> bool {
        self.position <= self.frame_count
    }

    /// A clock at the start of a pass over `frame_count` frames.
    pub fn new(frame_count: usize) -> (r: Self)
        ensures
            r@ == ClockState::starting(frame_count as nat),
    {
        ReferenceClock { position: 0, frame_count }
    }

    /// How many ticks have been counted.
    pub fn position(&self) -> (r: usize)
        ensures
            r == self@.position,
            self@.wf(),
    {
        proof {
            use_type_invariant(self);
        }
        self.position
    }

    /// How many frames the pass has.
    pub fn frame_count(&self) -> (r: usize)
        ensures
            r == self@.frame_count,
    {
        self.frame_count
    }

    /// Whether every tick of the pass has been counted.
    pub fn is_finished(&self) -> (r: bool)
        ensures
            r == self@.finished(),
            r == (self@.position == self@.frame_count),
    {
        proof {
            use_type_invariant(self);
        }
        self.position >= self.frame_count
    }

    /// Counts one interval and publishes the new position to `shared`. The
    /// caller lets one frame interval go by before each call. A finished
    /// clock counts and publishes nothing.
    pub fn tick(&mut self, shared: &SharedPosition) -> (published: Option<usize>)
        ensures
            final(self)@ == old(self)@.ticked(),
            final(self)@.wf(),
            match published {
                Some(position) => old(self)@.published_by_tick() == Some(position as nat),
                None => old(self)@.published_by_tick() is None,
            },
    {
        proof {
            use_type_invariant(&*self);
        }
        if self.position < self.frame_count {
            self.position = self.position + 1;
            shared.publish(self.position);
            Some(self.position)
        } else {
            None
        }
    }
}

/// A clock that starts a pass over `frame_count` frames and ticks `count`
/// times has counted `count` intervals, or all of them if `count` is more:
/// it is finished after exactly `frame_count` ticks, and its position is then
/// the frame count and stays there.
pub proof fn ticks_count_up_to_frame_count(frame_count: nat, count: nat)
    ensures
        ClockState::starting(frame_count).after_ticks(count).wf(),
        ClockState::starting(frame_count).after_ticks(count).frame_count == frame_count,
        count <= frame_count ==> ClockState::starting(frame_count).after_ticks(count).position
            == count,
        count >= frame_count ==> ClockState::starting(frame_count).after_ticks(count).position
            == frame_count,
        ClockState::starting(frame_count).after_ticks(count).finished() <==> count >= frame_count,
    decreases count,
{
    if count > 0 {
        ticks_count_up_to_frame_count(frame_count, (count - 1) as nat);
    }
}

/// Each tick of an unfinished clock publishes the position that follows the
/// last one, so the positions of a pass are published in order, each once.
pub proof fn tick_publishes_next_position(frame_count: nat, count: nat)
    requires
        count < frame_count,
    ensures
        ClockState::starting(frame_count).after_ticks(count).published_by_tick() == Some(
            count + 1,
        ),
{
    ticks_count_up_to_frame_count(frame_count, count);
}

} // verus!
