//! The frame interval: how it is chosen, and how long the render loop rests
//! after a frame.

use vstd::prelude::*;

verus! {

/// Nanoseconds in one microsecond.
pub const NANOS_PER_MICRO: u128 = 1000;

/// The outcome of choosing the frame interval for a session.
#[derive(Clone, Copy, Debug, PartialEq, Eq, Structural)]
pub enum IntervalResolution {
    /// The interval between frames, in microseconds; never zero.
    Resolved(u64),
    /// Neither source gave a usable interval.
    Unresolved,
}

/// What the metadata entry of an archive says of the recording.
#[derive(Clone, Copy, Debug, PartialEq, Eq, Structural)]
pub struct Metadata {
    /// The interval between frames, in microseconds; zero where it is not
    /// known.
    pub frametime: u64,
}

impl Default for Metadata {
    /// Metadata that says nothing, as for an entry that cannot be read.
    fn default() -> (r: Self)
        ensures
            r.frametime == 0,
    {
        Metadata { frametime: 0 }
    }
}

impl Metadata {
    /// The frame interval that the metadata gives, if it gives one.
    pub open spec fn interval(self) -> Option<u64> {
        if self.frametime == 0 {
            None
        } else {
            Some(self.frametime)
        }
    }

    /// The frame interval that the metadata gives, in microseconds, or
    /// `None` where it gives none.
    pub fn embedded_interval(&self) -> (r: Option<u64>)
        ensures
            r == self.interval(),
    {
        if self.frametime == 0 {
            None
        } else {
            Some(self.frametime)
        }
    }
}

/// The interval that the two sources give, in microseconds, or zero when they
/// give none. An explicit interval wins over the one embedded in the archive,
/// even when it is zero.
pub open spec fn chosen_micros(explicit: Option<u64>, embedded: Option<u64>) -> u64 {
    match explicit {
        Some(micros) => micros,
        None => match embedded {
            Some(micros) => micros,
            None => 0,
        },
    }
}

/// What `resolve_interval` returns.
pub open spec fn resolution_of(explicit: Option<u64>, embedded: Option<u64>) -> IntervalResolution {
    if chosen_micros(explicit, embedded) == 0 {
        IntervalResolution::Unresolved
    } else {
        IntervalResolution::Resolved(chosen_micros(explicit, embedded))
    }
}

/// Chooses the frame interval: the explicit one if there is one, else the
/// embedded one. A zero interval is never resolved.
pub fn resolve_interval(explicit: Option<u64>, embedded: Option<u64>) -> (r: IntervalResolution)
    ensures
        r == resolution_of(explicit, embedded),
        r matches IntervalResolution::Resolved(micros) ==> micros > 0,
{
    let micros: u64 = match explicit {
        Some(m) => m,
        None => match embedded {
            Some(m) => m,
            None => 0,
        },
    };
    if micros == 0 {
        IntervalResolution::Unresolved
    } else {
        IntervalResolution::Resolved(micros)
    }
}

/// An interval is resolved only where it is more than zero: with no explicit
/// interval, or a zero one, and none embedded, or a zero one, the outcome is
/// `Unresolved`, and a resolved interval is the explicit one wherever there
/// is one.
pub proof fn zero_interval_is_never_resolved(explicit: Option<u64>, embedded: Option<u64>)
    ensures
        (explicit is None || explicit == Some(0u64)) && (embedded is None || embedded == Some(0u64))
            ==> resolution_of(explicit, embedded) == IntervalResolution::Unresolved,
        resolution_of(explicit, embedded) matches IntervalResolution::Resolved(micros) ==> micros
            > 0,
        resolution_of(explicit, embedded) matches IntervalResolution::Resolved(micros) ==> (
        explicit matches Some(given) ==> micros == given),
        resolution_of(explicit, embedded) matches IntervalResolution::Resolved(micros) ==> (
        explicit is None ==> embedded == Some(micros)),
{
}

/// The frame budget in nanoseconds.
pub open spec fn budget_nanos(interval_micros: u64) -> int {
    interval_micros * NANOS_PER_MICRO
}

/// How long the render loop rests after a frame that took `elapsed_nanos`:
/// what is left of the frame budget, or nothing when the budget is used up.
pub open spec fn rest_after(interval_micros: u64, elapsed_nanos: u128) -> Option<u128> {
    if elapsed_nanos < budget_nanos(interval_micros) {
        Some((budget_nanos(interval_micros) - elapsed_nanos) as u128)
    } else {
        None
    }
}

/// The rest that follows a frame, in nanoseconds. A frame that took the whole
/// budget or more is followed by none: the loop goes on at once and does not
/// try to catch up.
pub fn remaining_delay(interval_micros: u64, elapsed_nanos: u128) -> (r: Option<u128>)
    ensures
        r == rest_after(interval_micros, elapsed_nanos),
        r matches Some(nanos) ==> 0 < nanos && nanos + elapsed_nanos == budget_nanos(interval_micros),
        r is None <==> elapsed_nanos >= budget_nanos(interval_micros),
{
    let budget: u128 = interval_micros as u128 * NANOS_PER_MICRO;
    if elapsed_nanos < budget {
        Some(budget - elapsed_nanos)
    } else {
        None
    }
}

} // verus!
