//! The render loop: which frame is shown next, what is written for it, and
//! how the cursor follows the reference clock.

use crate::decode::decode_payload;
use crate::decode::payloads;
use crate::decode::zstd_decoded;
use crate::error::PlaybackError;
use crate::position::SharedPosition;
use vstd::prelude::*;

verus! {

/// The cursor is snapped to the reference clock whenever it is a multiple of
/// this many frames.
pub const RESYNC_PERIOD: usize = 15;

/// The bytes that clear the terminal and bring the cursor home before a
/// frame: `\r ESC [ 2 J \r ESC [ H`.
pub const CLEAR_SEQUENCE: [u8; 9] = [13, 27, 91, 50, 74, 13, 27, 91, 72];

/// The clear sequence as a sequence of bytes.
pub open spec fn clear_sequence() -> Seq<u8> {
    CLEAR_SEQUENCE@
}

/// The single write that shows a frame: the clear sequence, then the frame.
pub open spec fn frame_write(decoded: Seq<u8>) -> Seq<u8> {
    clear_sequence() + decoded
}

/// Whether the loop snaps to the clock after showing the frame at `cursor`.
pub open spec fn is_resync_point(cursor: nat) -> bool {
    cursor % (RESYNC_PERIOD as nat) == 0
}

/// Where a resync takes the cursor when the clock shows `reading`: to the
/// clock's position where that is ahead, but not past the end of the frames.
/// A clock that is not ahead leaves the cursor where it is: a resync never
/// takes it back.
pub open spec fn resync_target(cursor: nat, frame_count: nat, reading: nat) -> nat {
    if reading <= cursor {
        cursor
    } else if reading <= frame_count {
        reading
    } else {
        frame_count
    }
}

/// The cursor that follows `cursor`: the resync target at a resync point,
/// the next frame anywhere else.
pub open spec fn next_cursor(cursor: nat, frame_count: nat, reading: nat) -> nat {
    if is_resync_point(cursor) {
        resync_target(cursor, frame_count, reading)
    } else {
        cursor + 1
    }
}

/// What a render loop is at one moment of a pass.
#[verifier::ext_equal]
pub struct RenderState {
    /// The compressed frames of the session, in display order.
    pub frames: Seq<Seq<u8>>,
    /// The index of the frame to show next.
    pub cursor: nat,
    /// Whether a frame failed to decode, which ends the pass.
    pub aborted: bool,
    /// The indices of the frames written to the display so far, in order.
    pub displayed: Seq<nat>,
}

impl RenderState {
    /// The cursor never passes the end of the frames.
    pub open spec fn wf(self) -> bool {
        self.cursor <= self.frames.len()
    }

    /// The loop at the start of a pass over `frames`.
    pub open spec fn starting(frames: Seq<Seq<u8>>) -> RenderState {
        RenderState { frames, cursor: 0, aborted: false, displayed: Seq::empty() }
    }

    /// There is a frame to show.
    pub open spec fn running(self) -> bool {
        !self.aborted && self.cursor < self.frames.len()
    }

    /// The cursor has reached the end of the frames.
    pub open spec fn complete(self) -> bool {
        !self.aborted && self.cursor >= self.frames.len()
    }

    /// The loop after the frame at the cursor came out of the decoder as
    /// `decoded`: the frame counts as displayed, or the pass is aborted.
    pub open spec fn rendered(self, decoded: Result<Seq<u8>, Seq<char>>) -> RenderState {
        if !self.running() {
            self
        } else if decoded is Ok {
            RenderState { displayed: self.displayed.push(self.cursor), ..self }
        } else {
            RenderState { aborted: true, ..self }
        }
    }

    /// The loop after the position step that follows a display write, with
    /// `reading` as what the clock showed.
    pub open spec fn advanced(self, reading: nat) -> RenderState {
        if !self.running() {
            self
        } else {
            RenderState {
                cursor: next_cursor(self.cursor, self.frames.len(), reading),
                ..self
            }
        }
    }
}

/// Puts `bytes` at the end of `out`.
fn append(out: &mut Vec<u8>, bytes: &[u8])
    ensures
        final(out)@ == old(out)@ + bytes@,
{
    let mut i: usize = 0;
    while i < bytes.len()
        invariant
            i <= bytes.len(),
            out@ == old(out)@ + bytes@.take(i as int),
        decreases bytes.len() - i,
    {
        out.push(bytes[i]);
        assert(bytes@.take(i + 1) == bytes@.take(i as int).push(bytes@[i as int]));
        i = i + 1;
    }
    assert(bytes@.take(i as int) == bytes@);
}

/// The write that shows a decoded frame.
pub fn compose_write(decoded: &Vec<u8>) -> (out: Vec<u8>)
    ensures
        out@ == frame_write(decoded@),
{
    let mut out: Vec<u8> = Vec::new();
    append(&mut out, CLEAR_SEQUENCE.as_slice());
    append(&mut out, decoded.as_slice());
    out
}

/// The render loop of one pass over the frames of a session.
pub struct RenderLoop<'a> {
    frames: &'a Vec<Vec<u8>>,
    cursor: usize,
    aborted: bool,
    displayed: Ghost<Seq<nat>>,
}

impl<'a> View for RenderLoop<'a> {
    type V = RenderState;

    closed spec fn view(&self) -> RenderState {
        RenderState {
            frames: payloads(self.frames@),
            cursor: self.cursor as nat,
            aborted: self.aborted,
            displayed: self.displayed@,
        }
    }
}

impl<'a> RenderLoop<'a> {
    #[verifier::type_invariant]
    spec fn within_frames(self) -> bool {
        self.cursor <= self.frames.len()
    }

    /// A loop at the start of a pass: the cursor is on the first frame and
    /// nothing has been displayed.
    pub fn new(frames: &'a Vec<Vec<u8>>) -> (r: Self)
        ensures
            r@ == RenderState::starting(payloads(frames@)),
    {
        RenderLoop { frames, cursor: 0, aborted: false, displayed: Ghost(Seq::empty()) }
    }

    /// The index of the frame to show next.
    pub fn cursor(&self) -> (r: usize)
        ensures
            r == self@.cursor,
            self@.wf(),
    {
        proof {
            use_type_invariant(self);
        }
        self.cursor
    }

    /// How many frames the pass has.
    pub fn frame_count(&self) -> (r: usize)
        ensures
            r == self@.frames.len(),
    {
        self.frames.len()
    }

    /// Whether there is a frame to show.
    pub fn is_running(&self) -> (r: bool)
        ensures
            r == self@.running(),
    {
        !self.aborted && self.cursor < self.frames.len()
    }

    /// Whether the cursor has reached the end of the frames.
    pub fn is_complete(&self) -> (r: bool)
        ensures
            r == self@.complete(),
            r ==> self@.cursor == self@.frames.len(),
    {
        proof {
            use_type_invariant(self);
        }
        !self.aborted && self.cursor >= self.frames.len()
    }

    /// Whether a frame failed to decode and ended the pass.
    pub fn is_aborted(&self) -> (r: bool)
        ensures
            r == self@.aborted,
    {
        self.aborted
    }

    /// Takes what the decoder made of the frame at the cursor and gives the
    /// write that shows it. A frame that did not decode aborts the pass and
    /// is reported with its index. A loop that is not running has nothing to
    /// show and stays as it is.
    pub fn present(&mut self, decoded: Result<Vec<u8>, String>) -> (r: Result<
        Option<Vec<u8>>,
        PlaybackError,
    >)
        ensures
            final(self)@ == old(self)@.rendered(
                match decoded {
                    Ok(bytes) => Ok(bytes@),
                    Err(message) => Err(message@),
                },
            ),
            final(self)@.wf(),
            match r {
                Ok(Some(write)) => {
                    &&& old(self)@.running()
                    &&& decoded matches Ok(bytes)
                    &&& write@ == frame_write(bytes@)
                },
                Ok(None) => !old(self)@.running(),
                Err(error) => {
                    &&& old(self)@.running()
                    &&& decoded matches Err(reported)
                    &&& error matches PlaybackError::Decode { frame, message }
                    &&& frame == old(self)@.cursor
                    &&& message@ == reported@
                },
            },
    {
        proof {
            use_type_invariant(&*self);
        }
        if self.aborted || self.cursor >= self.frames.len() {
            return Ok(None);
        }
        match decoded {
            Ok(bytes) => {
                self.displayed = Ghost(self.displayed@.push(self.cursor as nat));
                Ok(Some(compose_write(&bytes)))
            },
            Err(message) => {
                self.aborted = true;
                Err(PlaybackError::Decode { frame: self.cursor, message })
            },
        }
    }

    /// Decodes the frame at the cursor and gives the write that shows it:
    /// the clear sequence followed by the decoded bytes, as one buffer. A
    /// frame that does not decode aborts the pass and is reported with its
    /// index. A loop that is not running decodes nothing.
    pub fn render_frame(&mut self) -> (r: Result<Option<Vec<u8>>, PlaybackError>)
        ensures
            final(self)@ == old(self)@.rendered(
                zstd_decoded(old(self)@.frames[old(self)@.cursor as int]),
            ),
            final(self)@.wf(),
            match r {
                Ok(Some(write)) => {
                    &&& old(self)@.running()
                    &&& zstd_decoded(old(self)@.frames[old(self)@.cursor as int]) matches Ok(bytes)
                    &&& write@ == frame_write(bytes)
                },
                Ok(None) => !old(self)@.running(),
                Err(error) => {
                    &&& old(self)@.running()
                    &&& zstd_decoded(old(self)@.frames[old(self)@.cursor as int]) matches Err(
                        reported,
                    )
                    &&& error matches PlaybackError::Decode { frame, message }
                    &&& frame == old(self)@.cursor
                    &&& message@ == reported
                },
            },
    {
        proof {
            use_type_invariant(&*self);
        }
        if self.aborted || self.cursor >= self.frames.len() {
            return Ok(None);
        }
        let decoded = decode_payload(&self.frames[self.cursor]);
        self.present(decoded)
    }

    /// The position step that follows a display write, with `reading` as
    /// what the clock showed: at a resync point the cursor goes to the
    /// reading where that is ahead of it, elsewhere it moves to the next
    /// frame. A loop that is not running stays as it is.
    pub fn advance_with(&mut self, reading: usize)
        ensures
            final(self)@ == old(self)@.advanced(reading as nat),
            old(self)@.cursor <= final(self)@.cursor,
            final(self)@.wf(),
    {
        proof {
            use_type_invariant(&*self);
        }
        if self.aborted || self.cursor >= self.frames.len() {
            return ;
        }
        if self.cursor % RESYNC_PERIOD == 0 {
            self.snap_to(reading);
        } else {
            self.cursor = self.cursor + 1;
        }
    }

    /// Takes the cursor of a running loop to the resync target for
    /// `reading`.
    fn snap_to(&mut self, reading: usize)
        requires
            old(self)@.running(),
        ensures
            final(self)@ == (RenderState {
                cursor: resync_target(
                    old(self)@.cursor,
                    old(self)@.frames.len(),
                    reading as nat,
                ),
                ..old(self)@
            }),
            final(self)@.wf(),
    {
        if reading > self.frames.len() {
            self.cursor = self.frames.len();
        } else if reading > self.cursor {
            self.cursor = reading;
        }
    }

    /// Snaps the cursor to the position that the clock has published. The
    /// position is whatever the clock has reached by now, so the cursor may
    /// jump ahead or stay; it never goes back, nor past the end of the
    /// frames. A loop that is not running stays as it is.
    pub fn resync(&mut self, shared: &SharedPosition)
        ensures
            !old(self)@.running() ==> final(self)@ == old(self)@,
            old(self)@.running() ==> exists|reading: nat|
                final(self)@ == (RenderState {
                    cursor: #[trigger] resync_target(
                        old(self)@.cursor,
                        old(self)@.frames.len(),
                        reading,
                    ),
                    ..old(self)@
                }),
            old(self)@.cursor <= final(self)@.cursor,
            final(self)@.wf(),
    {
        proof {
            use_type_invariant(&*self);
        }
        if self.aborted || self.cursor >= self.frames.len() {
            return ;
        }
        let reading = shared.read();
        self.snap_to(reading);
    }

    /// The position step that follows a display write: a resync with the
    /// shared position at a resync point, the next frame anywhere else.
    pub fn advance(&mut self, shared: &SharedPosition)
        ensures
            exists|reading: nat| final(self)@ == #[trigger] old(self)@.advanced(reading),
            old(self)@.cursor <= final(self)@.cursor,
            final(self)@.wf(),
    {
        proof {
            use_type_invariant(&*self);
        }
        if self.aborted || self.cursor >= self.frames.len() {
            assert(self@ == old(self)@.advanced(0));
            return ;
        }
        if self.cursor % RESYNC_PERIOD == 0 {
            self.resync(shared);
            let ghost reading = choose|reading: nat|
                self@ == (RenderState {
                    cursor: #[trigger] resync_target(
                        old(self)@.cursor,
                        old(self)@.frames.len(),
                        reading,
                    ),
                    ..old(self)@
                });
            assert(self@ == old(self)@.advanced(reading));
        } else {
            self.cursor = self.cursor + 1;
            assert(self@ == old(self)@.advanced(0));
        }
    }
}

} // verus!
