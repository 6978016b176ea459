//! A playback session: the frames and the audio of one archive, the frame
//! interval, and the passes that are made over them.

use crate::archive::LoadedArchive;
use crate::clock::ClockState;
use crate::clock::ReferenceClock;
use crate::decode::payloads;
use crate::error::PlaybackError;
use crate::interval::resolution_of;
use crate::interval::resolve_interval;
use crate::interval::IntervalResolution;
use crate::position::SharedPosition;
use crate::render::RenderLoop;
use crate::render::RenderState;
use vstd::prelude::*;

verus! {

/// What a session holds.
#[verifier::ext_equal]
pub struct SessionView {
    /// The compressed frames, in display order.
    pub frames: Seq<Seq<u8>>,
    /// The audio track.
    pub audio: Seq<u8>,
    /// The interval between frames, in microseconds.
    pub interval_micros: u64,
    /// Whether a pass is followed by another.
    pub looping: bool,
}

/// The frames and the audio of one archive, ready to be played at a known
/// interval. Nothing in it changes once it is made.
pub struct PlaybackSession {
    frames: Vec<Vec<u8>>,
    audio: Vec<u8>,
    interval_micros: u64,
    looping: bool,
}

impl View for PlaybackSession {
    type V = SessionView;

    closed spec fn view(&self) -> SessionView {
        SessionView {
            frames: payloads(self.frames@),
            audio: self.audio@,
            interval_micros: self.interval_micros,
            looping: self.looping,
        }
    }
}

impl PlaybackSession {
    #[verifier::type_invariant]
    spec fn interval_is_known(self) -> bool {
        self.interval_micros > 0
    }

    /// Makes a session of a loaded archive. The frame interval is the
    /// explicit one if there is one, else the one embedded in the archive;
    /// where that leaves none, or zero, no session is made.
    pub fn new(
        archive: LoadedArchive,
        explicit_micros: Option<u64>,
        embedded_micros: Option<u64>,
        looping: bool,
    ) -> (r: Result<Self, PlaybackError>)
        ensures
            match r {
                Ok(session) => {
                    &&& resolution_of(explicit_micros, embedded_micros)
                        == IntervalResolution::Resolved(session@.interval_micros)
                    &&& session@.interval_micros > 0
                    &&& session@.frames == archive@.frames
                    &&& session@.audio == archive@.audio
                    &&& session@.looping == looping
                },
                Err(error) => {
                    &&& resolution_of(explicit_micros, embedded_micros)
                        == IntervalResolution::Unresolved
                    &&& error matches PlaybackError::UnresolvedInterval
                },
            },
    {
        match resolve_interval(explicit_micros, embedded_micros) {
            IntervalResolution::Resolved(interval_micros) => Ok(
                PlaybackSession {
                    frames: archive.frames,
                    audio: archive.audio,
                    interval_micros,
                    looping,
                },
            ),
            IntervalResolution::Unresolved => Err(PlaybackError::UnresolvedInterval),
        }
    }

    /// The compressed frames, in display order.
    pub fn frames(&self) -> (r: &Vec<Vec<u8>>)
        ensures
            payloads(r@) == self@.frames,
    {
        &self.frames
    }

    /// How many frames a pass has.
    pub fn frame_count(&self) -> (r: usize)
        ensures
            r == self@.frames.len(),
    {
        self.frames.len()
    }

    /// The audio track, which goes to the audio sink once for each pass.
    pub fn audio(&self) -> (r: &Vec<u8>)
        ensures
            r@ == self@.audio,
    {
        &self.audio
    }

    /// The interval between frames, in microseconds.
    pub fn interval_micros(&self) -> (r: u64)
        ensures
            r == self@.interval_micros,
            r > 0,
    {
        proof {
            use_type_invariant(self);
        }
        self.interval_micros
    }

    /// Whether a pass that ends is followed by another.
    pub fn is_looping(&self) -> (r: bool)
        ensures
            r == self@.looping,
    {
        self.looping
    }

    /// Starts a pass: the shared position goes back to zero, and a render
    /// loop and a reference clock are made for the pass, both at its start.
    pub fn begin_pass<'a>(&'a self, shared: &SharedPosition) -> (r: (RenderLoop<'a>, ReferenceClock))
        ensures
            r.0@ == RenderState::starting(self@.frames),
            r.1@ == ClockState::starting(self@.frames.len()),
    {
        shared.reset();
        (RenderLoop::new(&self.frames), ReferenceClock::new(self.frames.len()))
    }
}

} // verus!
