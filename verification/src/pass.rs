//! A whole pass of the render loop, iteration by iteration, and what holds
//! of it whatever the clock shows.

use crate::clock::ticks_count_up_to_frame_count;
use crate::clock::ClockState;
use crate::decode::zstd_decoded;
use crate::render::is_resync_point;
use crate::render::next_cursor;
use crate::render::resync_target;
use crate::render::RenderState;
use vstd::prelude::*;

verus! {

/// The loop after one iteration: the frame at the cursor is decoded and
/// shown, then the position step is taken with `reading` as what the clock
/// showed after the write.
pub open spec fn stepped(state: RenderState, reading: nat) -> RenderState {
    state.rendered(zstd_decoded(state.frames[state.cursor as int])).advanced(reading)
}

/// The loop after one iteration for each of `readings`, in order.
pub open spec fn after_steps(state: RenderState, readings: Seq<nat>) -> RenderState
    decreases readings.len(),
{
    if readings.len() == 0 {
        state
    } else {
        stepped(after_steps(state, readings.drop_last()), readings.last())
    }
}

/// The loop of a pass over `frames` as iteration `k` begins, when the
/// iterations before it took `readings[0]`, `readings[1]`, ...
pub open spec fn before_step(frames: Seq<Seq<u8>>, readings: Seq<nat>, k: int) -> RenderState {
    after_steps(RenderState::starting(frames), readings.take(k))
}

/// Every frame decodes.
pub open spec fn all_decodable(frames: Seq<Seq<u8>>) -> bool {
    forall|i: int| 0 <= i < frames.len() ==> zstd_decoded(#[trigger] frames[i]) is Ok
}

/// Every resync of the pass reads a position ahead of the cursor.
pub open spec fn readings_run_ahead(frames: Seq<Seq<u8>>, readings: Seq<nat>) -> bool {
    forall|k: int|
        0 <= k < readings.len() ==> {
            let state = #[trigger] before_step(frames, readings, k);
            state.running() && is_resync_point(state.cursor) ==> readings[k] > state.cursor
        }
}

/// Every resync in the first `count` iterations of the pass takes the cursor
/// to the next frame, as plain progress does.
pub open spec fn lockstep_until(frames: Seq<Seq<u8>>, readings: Seq<nat>, count: int) -> bool {
    forall|k: int|
        0 <= k < count ==> {
            let state = #[trigger] before_step(frames, readings, k);
            state.running() && is_resync_point(state.cursor) ==> resync_target(
                state.cursor,
                frames.len(),
                readings[k],
            ) == state.cursor + 1
        }
}

/// Every resync of the pass takes the cursor to the next frame, as plain
/// progress does: the clock and the loop move in lockstep.
pub open spec fn readings_in_lockstep(frames: Seq<Seq<u8>>, readings: Seq<nat>) -> bool {
    lockstep_until(frames, readings, readings.len() as int)
}

/// `count`, or the frame count where that is less.
pub open spec fn capped(count: nat, frame_count: nat) -> nat {
    if count <= frame_count {
        count
    } else {
        frame_count
    }
}

/// What the reference clock of a pass shows after `ticks` intervals.
pub open spec fn clock_shows(frame_count: nat, ticks: nat) -> nat {
    ClockState::starting(frame_count).after_ticks(ticks).position
}

/// The loop takes each reading when the clock has counted the interval of
/// the iteration: in iteration `k` the clock has ticked `k + 1` times.
pub open spec fn readings_follow_ticks(frame_count: nat, readings: Seq<nat>) -> bool {
    forall|k: int|
        0 <= k < readings.len() ==> #[trigger] readings[k] == clock_shows(
            frame_count,
            (k + 1) as nat,
        )
}

/// The clock counts one interval for each iteration of the loop: in
/// iteration `k` it has ticked `k` times, or `k + 1` times where the tick
/// that ends the iteration has come already.
pub open spec fn readings_keep_pace(frame_count: nat, readings: Seq<nat>) -> bool {
    forall|k: int|
        0 <= k < readings.len() ==> {
            ||| #[trigger] readings[k] == clock_shows(frame_count, k as nat)
            ||| readings[k] == clock_shows(frame_count, (k + 1) as nat)
        }
}

/// The indices do not fall from one to the next.
pub open spec fn never_falling(indices: Seq<nat>) -> bool {
    forall|i: int, j: int| 0 <= i <= j < indices.len() ==> indices[i] <= indices[j]
}

/// The indices grow from each one to the next.
pub open spec fn strictly_increasing(indices: Seq<nat>) -> bool {
    forall|i: int, j: int| 0 <= i < j < indices.len() ==> indices[i] < indices[j]
}

/// The indices from zero up to `count`, each once, in order.
pub open spec fn first_indices(count: nat) -> Seq<nat> {
    Seq::new(count, |i: int| i as nat)
}

/// The loop as iteration `k + 1` begins is the loop as iteration `k` began,
/// after one iteration with the reading of iteration `k`.
pub proof fn step_follows_step(frames: Seq<Seq<u8>>, readings: Seq<nat>, k: int)
    requires
        0 <= k < readings.len(),
    ensures
        before_step(frames, readings, k + 1) == stepped(
            before_step(frames, readings, k),
            readings[k],
        ),
        before_step(frames, readings, 0) == RenderState::starting(frames),
        before_step(frames, readings, readings.len() as int) == after_steps(
            RenderState::starting(frames),
            readings,
        ),
{
    assert(readings.take(k + 1).drop_last() == readings.take(k));
    assert(readings.take(k + 1).last() == readings[k]);
    assert(readings.take(0).len() == 0);
    assert(readings.take(readings.len() as int) == readings);
}

/// Whatever the clock shows and whichever frames decode, the cursor stays
/// within the frames and never goes back, the frames stay what they were,
/// and what has been displayed stays displayed.
pub proof fn pass_stays_within_frames(state: RenderState, readings: Seq<nat>)
    requires
        state.wf(),
    ensures
        after_steps(state, readings).wf(),
        after_steps(state, readings).frames == state.frames,
        state.cursor <= after_steps(state, readings).cursor,
        state.displayed.is_prefix_of(after_steps(state, readings).displayed),
    decreases readings.len(),
{
    if readings.len() > 0 {
        pass_stays_within_frames(state, readings.drop_last());
    }
}

/// Whatever the clock shows and whichever frames decode, a pass never shows
/// a frame after a later one: the indices of the frames it writes do not
/// fall, and each is the index of a frame.
pub proof fn pass_never_shows_an_earlier_frame(frames: Seq<Seq<u8>>, readings: Seq<nat>)
    ensures
        never_falling(after_steps(RenderState::starting(frames), readings).displayed),
        forall|i: int|
            0 <= i < after_steps(RenderState::starting(frames), readings).displayed.len()
                ==> after_steps(RenderState::starting(frames), readings).displayed[i]
                < frames.len(),
    decreases readings.len(),
{
    shown_frames_lie_at_or_behind_cursor(frames, readings);
    pass_stays_within_frames(RenderState::starting(frames), readings);
}

/// The displayed indices do not fall, none is past the cursor, and each is
/// the index of a frame.
proof fn shown_frames_lie_at_or_behind_cursor(frames: Seq<Seq<u8>>, readings: Seq<nat>)
    ensures
        never_falling(after_steps(RenderState::starting(frames), readings).displayed),
        forall|i: int|
            0 <= i < after_steps(RenderState::starting(frames), readings).displayed.len()
                ==> after_steps(RenderState::starting(frames), readings).displayed[i]
                <= after_steps(RenderState::starting(frames), readings).cursor,
        forall|i: int|
            0 <= i < after_steps(RenderState::starting(frames), readings).displayed.len()
                ==> after_steps(RenderState::starting(frames), readings).displayed[i]
                < frames.len(),
    decreases readings.len(),
{
    if readings.len() > 0 {
        shown_frames_lie_at_or_behind_cursor(frames, readings.drop_last());
        pass_stays_within_frames(RenderState::starting(frames), readings.drop_last());
    }
}

/// A pass in which every resync reads a position ahead of the cursor shows
/// its frames in strictly increasing order: no index is repeated. It makes
/// at most one write for each frame.
pub proof fn forward_readings_show_each_frame_once(frames: Seq<Seq<u8>>, readings: Seq<nat>)
    requires
        readings_run_ahead(frames, readings),
    ensures
        strictly_increasing(after_steps(RenderState::starting(frames), readings).displayed),
        after_steps(RenderState::starting(frames), readings).displayed.len() <= frames.len(),
{
    shown_frames_lie_behind_cursor(frames, readings, readings.len() as int);
    assert(readings.take(readings.len() as int) == readings);
    let shown = after_steps(RenderState::starting(frames), readings).displayed;
    increasing_indices_are_few(shown, frames.len());
}

/// Under forward readings, as iteration `k` begins the displayed indices are
/// increasing and all lie before the cursor.
proof fn shown_frames_lie_behind_cursor(frames: Seq<Seq<u8>>, readings: Seq<nat>, k: int)
    requires
        readings_run_ahead(frames, readings),
        0 <= k <= readings.len(),
    ensures
        before_step(frames, readings, k).wf(),
        before_step(frames, readings, k).frames == frames,
        strictly_increasing(before_step(frames, readings, k).displayed),
        forall|i: int|
            0 <= i < before_step(frames, readings, k).displayed.len() ==> before_step(
                frames,
                readings,
                k,
            ).displayed[i] < before_step(frames, readings, k).cursor,
    decreases k,
{
    if k == 0 {
        assert(readings.take(0).len() == 0);
    } else {
        shown_frames_lie_behind_cursor(frames, readings, k - 1);
        step_follows_step(frames, readings, k - 1);
        let before = before_step(frames, readings, k - 1);
        assert(before.running() && is_resync_point(before.cursor) ==> readings[k - 1]
            > before.cursor);
    }
}

/// Increasing indices below a bound are no more than the bound.
proof fn increasing_indices_are_few(indices: Seq<nat>, bound: nat)
    requires
        strictly_increasing(indices),
        forall|i: int| 0 <= i < indices.len() ==> indices[i] < bound,
    ensures
        indices.len() <= bound,
    decreases indices.len(),
{
    if indices.len() > 0 {
        let shorter = indices.drop_last();
        assert(strictly_increasing(shorter)) by {
            assert forall|i: int, j: int| 0 <= i < j < shorter.len() implies shorter[i]
                < shorter[j] by {
                assert(shorter[i] == indices[i] && shorter[j] == indices[j]);
            }
        }
        let last = indices.last();
        assert forall|i: int| 0 <= i < shorter.len() implies shorter[i] < last by {
            assert(shorter[i] == indices[i]);
        }
        if last > 0 {
            increasing_indices_are_few(shorter, (bound - 1) as nat);
        } else {
            assert(shorter.len() == 0) by {
                if shorter.len() > 0 {
                    assert(shorter[0] < last);
                }
            }
        }
    }
}

/// A pass in lockstep with the clock, all of whose frames decode, shows one
/// frame in each iteration, in order from the first: after `k` iterations it
/// has written the first `k` frames, each once, and after as many iterations
/// as there are frames it is complete, with exactly one write for each frame.
/// Iterations beyond that write nothing.
pub proof fn lockstep_pass_shows_every_frame_once(frames: Seq<Seq<u8>>, readings: Seq<nat>)
    requires
        all_decodable(frames),
        readings_in_lockstep(frames, readings),
    ensures
        after_steps(RenderState::starting(frames), readings).displayed == first_indices(
            capped(readings.len(), frames.len()),
        ),
        after_steps(RenderState::starting(frames), readings).cursor == capped(
            readings.len(),
            frames.len(),
        ),
        after_steps(RenderState::starting(frames), readings).complete() <==> readings.len()
            >= frames.len(),
        strictly_increasing(after_steps(RenderState::starting(frames), readings).displayed),
{
    lockstep_cursor_counts_iterations(frames, readings, readings.len() as int);
    assert(readings.take(readings.len() as int) == readings);
}

/// A loop that takes each reading when the clock has counted the interval
/// of the iteration is in lockstep with the clock: where every frame
/// decodes, it shows every frame once, in order.
pub proof fn loop_behind_ticking_clock_is_in_lockstep(frames: Seq<Seq<u8>>, readings: Seq<nat>)
    requires
        all_decodable(frames),
        readings_follow_ticks(frames.len(), readings),
    ensures
        readings_in_lockstep(frames, readings),
        after_steps(RenderState::starting(frames), readings).displayed == first_indices(
            capped(readings.len(), frames.len()),
        ),
{
    ticking_clock_keeps_lockstep(frames, readings, readings.len() as int);
    lockstep_pass_shows_every_frame_once(frames, readings);
}

/// With a clock that has ticked once more than the loop has iterated, the
/// first `k` iterations are in lockstep.
proof fn ticking_clock_keeps_lockstep(frames: Seq<Seq<u8>>, readings: Seq<nat>, k: int)
    requires
        all_decodable(frames),
        readings_follow_ticks(frames.len(), readings),
        0 <= k <= readings.len(),
    ensures
        lockstep_until(frames, readings, k),
    decreases k,
{
    if k > 0 {
        ticking_clock_keeps_lockstep(frames, readings, k - 1);
        lockstep_cursor_counts_iterations(frames, readings, k - 1);
        ticks_count_up_to_frame_count(frames.len(), k as nat);
        assert(readings[k - 1] == clock_shows(frames.len(), k as nat));
    }
}

/// In lockstep, as iteration `k` begins the cursor is `k` and the frames
/// before it have been shown, until the frames run out.
proof fn lockstep_cursor_counts_iterations(frames: Seq<Seq<u8>>, readings: Seq<nat>, k: int)
    requires
        all_decodable(frames),
        lockstep_until(frames, readings, k),
        0 <= k <= readings.len(),
    ensures
        before_step(frames, readings, k) == (RenderState {
            frames,
            cursor: capped(k as nat, frames.len()),
            aborted: false,
            displayed: first_indices(capped(k as nat, frames.len())),
        }),
    decreases k,
{
    if k == 0 {
        assert(readings.take(0).len() == 0);
        assert(first_indices(0) == Seq::<nat>::empty());
    } else {
        lockstep_cursor_counts_iterations(frames, readings, k - 1);
        step_follows_step(frames, readings, k - 1);
        let before = before_step(frames, readings, k - 1);
        if before.running() {
            assert(zstd_decoded(frames[k - 1]) is Ok);
            assert(is_resync_point(before.cursor) ==> resync_target(
                before.cursor,
                frames.len(),
                readings[k - 1],
            ) == before.cursor + 1);
            assert(first_indices(k as nat) == first_indices((k - 1) as nat).push((k - 1) as nat));
        }
    }
}

/// A frame that does not decode ends the pass: the iteration that meets it
/// aborts the loop without a write, and no iteration after it writes or
/// moves the cursor, whatever the clock shows.
pub proof fn failed_decode_ends_the_pass(state: RenderState, readings: Seq<nat>)
    requires
        state.running(),
        zstd_decoded(state.frames[state.cursor as int]) is Err,
        readings.len() > 0,
    ensures
        after_steps(state, readings) == (RenderState { aborted: true, ..state }),
    decreases readings.len(),
{
    if readings.len() > 1 {
        failed_decode_ends_the_pass(state, readings.drop_last());
    } else {
        assert(after_steps(state, readings.drop_last()) == state);
    }
}

/// A pass that is aborted or complete stays as it is.
pub proof fn ended_pass_stands_still(state: RenderState, readings: Seq<nat>)
    requires
        !state.running(),
    ensures
        after_steps(state, readings) == state,
    decreases readings.len(),
{
    if readings.len() > 0 {
        ended_pass_stands_still(state, readings.drop_last());
    }
}

/// A resync leaves the cursor where it is when the clock shows the cursor's
/// own position or one behind it, and does what plain progress does when the
/// clock shows the position after it.
pub proof fn resync_in_step_changes_nothing(cursor: nat, frame_count: nat, reading: nat)
    requires
        cursor < frame_count,
        is_resync_point(cursor),
    ensures
        reading <= cursor ==> next_cursor(cursor, frame_count, reading) == cursor,
        reading == cursor + 1 ==> next_cursor(cursor, frame_count, reading) == cursor + 1,
        cursor <= next_cursor(cursor, frame_count, reading) <= frame_count,
{
}

/// When the clock counts one interval for each iteration of the loop and
/// every frame decodes, the loop stays with the clock: as iteration `k`
/// begins the cursor is `k` or one less, or the frame count where that is
/// less, and what a running loop reads then is the cursor or at most two
/// ahead of it, never behind.
pub proof fn paced_pass_stays_with_clock(frames: Seq<Seq<u8>>, readings: Seq<nat>, k: int)
    requires
        all_decodable(frames),
        readings_keep_pace(frames.len(), readings),
        0 <= k <= readings.len(),
    ensures
        before_step(frames, readings, k).wf(),
        before_step(frames, readings, k).frames == frames,
        !before_step(frames, readings, k).aborted,
        before_step(frames, readings, k).cursor <= capped(k as nat, frames.len())
            <= before_step(frames, readings, k).cursor + 1,
        k < readings.len() && before_step(frames, readings, k).running() ==> before_step(
            frames,
            readings,
            k,
        ).cursor <= readings[k] <= before_step(frames, readings, k).cursor + 2,
    decreases k,
{
    if k == 0 {
        assert(readings.take(0).len() == 0);
    } else {
        paced_pass_stays_with_clock(frames, readings, k - 1);
        step_follows_step(frames, readings, k - 1);
        ticks_count_up_to_frame_count(frames.len(), (k - 1) as nat);
        let before = before_step(frames, readings, k - 1);
        if before.running() {
            assert(zstd_decoded(frames[before.cursor as int]) is Ok);
            assert(readings[k - 1] == clock_shows(frames.len(), (k - 1) as nat) || readings[k
                - 1] == clock_shows(frames.len(), k as nat));
        }
    }
    ticks_count_up_to_frame_count(frames.len(), k as nat);
    ticks_count_up_to_frame_count(frames.len(), (k + 1) as nat);
    if k < readings.len() {
        assert(readings[k] == clock_shows(frames.len(), k as nat) || readings[k] == clock_shows(
            frames.len(),
            (k + 1) as nat,
        ));
    }
}

} // verus!
