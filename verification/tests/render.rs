use bplay::error::PlaybackError;
use bplay::position::SharedPosition;
use bplay::render::compose_write;
use bplay::render::CLEAR_SEQUENCE;
use bplay::render::RenderLoop;
use bplay::render::RESYNC_PERIOD;

const CLEAR: &[u8] = b"\r\x1b[2J\r\x1b[H";

fn compressed(text: &str) -> Vec<u8> {
    zstd::encode_all(text.as_bytes(), 3).unwrap()
}

fn frames_named(count: usize) -> Vec<Vec<u8>> {
    (0..count).map(|i| compressed(&format!("F{i}"))).collect()
}

fn write_of(text: &str) -> Vec<u8> {
    let mut bytes = CLEAR.to_vec();
    bytes.extend_from_slice(text.as_bytes());
    bytes
}

#[test]
fn resync_period_is_fifteen() {
    assert_eq!(RESYNC_PERIOD, 15);
}

#[test]
fn clear_sequence_clears_and_homes() {
    assert_eq!(&CLEAR_SEQUENCE, b"\r\x1b[2J\r\x1b[H");
}

#[test]
fn write_is_clear_sequence_then_frame() {
    assert_eq!(compose_write(&b"hello".to_vec()), b"\r\x1b[2J\r\x1b[Hhello".to_vec());
    assert_eq!(compose_write(&Vec::new()), CLEAR.to_vec());
    assert_eq!(
        compose_write(&vec![0u8, 255, 13]),
        vec![13u8, 27, 91, 50, 74, 13, 27, 91, 72, 0, 255, 13]
    );
}

#[test]
fn new_loop_starts_at_first_frame() {
    let frames = frames_named(3);
    let render = RenderLoop::new(&frames);
    assert_eq!(render.cursor(), 0);
    assert_eq!(render.frame_count(), 3);
    assert!(render.is_running());
    assert!(!render.is_complete());
    assert!(!render.is_aborted());
}

#[test]
fn loop_over_no_frames_is_complete_at_once() {
    let frames: Vec<Vec<u8>> = Vec::new();
    let mut render = RenderLoop::new(&frames);
    assert!(render.is_complete());
    assert!(!render.is_running());
    assert_eq!(render.render_frame(), Ok(None));
    render.advance_with(0);
    assert_eq!(render.cursor(), 0);
}

#[test]
fn render_frame_decompresses_the_frame_at_the_cursor() {
    let frames = frames_named(3);
    let mut render = RenderLoop::new(&frames);
    let write = render.render_frame().unwrap().unwrap();
    assert_eq!(write, write_of("F0"));
    assert_ne!(write, {
        let mut raw = CLEAR.to_vec();
        raw.extend_from_slice(&frames[0]);
        raw
    });
    render.advance_with(1);
    assert_eq!(render.render_frame().unwrap().unwrap(), write_of("F1"));
    render.advance_with(0);
    assert_eq!(render.cursor(), 2);
    assert_eq!(render.render_frame().unwrap().unwrap(), write_of("F2"));
}

#[test]
fn present_takes_the_decoder_outcome() {
    let frames = frames_named(2);
    let mut render = RenderLoop::new(&frames);
    assert_eq!(render.present(Ok(b"abc".to_vec())), Ok(Some(write_of("abc"))));
    assert!(render.is_running());
    assert_eq!(
        render.present(Err("bad frame".to_string())),
        Err(PlaybackError::Decode { frame: 0, message: "bad frame".to_string() })
    );
    assert!(render.is_aborted());
    assert_eq!(render.present(Ok(b"abc".to_vec())), Ok(None));
}

#[test]
fn cursor_moves_by_one_between_resync_points() {
    let frames = frames_named(16);
    let mut render = RenderLoop::new(&frames);
    render.advance_with(1);
    for expected in 2..=15 {
        // The reading is ignored away from a resync point.
        render.advance_with(9);
        assert_eq!(render.cursor(), expected);
    }
}

#[test]
fn cursor_snaps_to_reading_at_resync_point() {
    let frames = frames_named(40);
    let mut render = RenderLoop::new(&frames);
    render.advance_with(15);
    assert_eq!(render.cursor(), 15);
    render.advance_with(30);
    assert_eq!(render.cursor(), 30);
    render.advance_with(31);
    assert_eq!(render.cursor(), 31);
    render.advance_with(0);
    assert_eq!(render.cursor(), 32);
}

#[test]
fn resync_never_takes_the_cursor_back() {
    let frames = frames_named(40);
    let mut render = RenderLoop::new(&frames);
    render.advance_with(30);
    // The clock is behind the cursor: the cursor waits for it.
    render.advance_with(15);
    assert_eq!(render.cursor(), 30);
    render.advance_with(0);
    assert_eq!(render.cursor(), 30);
    render.advance_with(29);
    assert_eq!(render.cursor(), 30);
    let shared = SharedPosition::new(40);
    shared.publish(7);
    render.resync(&shared);
    assert_eq!(render.cursor(), 30);
    render.advance(&shared);
    assert_eq!(render.cursor(), 30);
    shared.publish(33);
    render.advance(&shared);
    assert_eq!(render.cursor(), 33);
}

#[test]
fn reading_beyond_the_frames_ends_the_pass() {
    let frames = frames_named(4);
    let mut render = RenderLoop::new(&frames);
    render.advance_with(usize::MAX);
    assert_eq!(render.cursor(), 4);
    assert!(render.is_complete());
    assert_eq!(render.render_frame(), Ok(None));
    render.advance_with(1);
    assert_eq!(render.cursor(), 4);
}

#[test]
fn advance_reads_the_shared_position_only_at_resync_points() {
    let frames = frames_named(20);
    let shared = SharedPosition::new(20);
    let mut render = RenderLoop::new(&frames);
    shared.publish(3);
    render.advance(&shared);
    assert_eq!(render.cursor(), 3);
    shared.publish(11);
    render.advance(&shared);
    assert_eq!(render.cursor(), 4);
    render.resync(&shared);
    assert_eq!(render.cursor(), 11);
    shared.publish(99);
    render.resync(&shared);
    assert_eq!(render.cursor(), 20);
    assert!(render.is_complete());
}

#[test]
fn lockstep_pass_writes_every_frame_once_in_order() {
    for count in [1usize, 5, 15, 16, 31, 45] {
        let frames = frames_named(count);
        let mut render = RenderLoop::new(&frames);
        let mut shown = Vec::new();
        while render.is_running() {
            let at = render.cursor();
            let write = render.render_frame().unwrap().unwrap();
            assert_eq!(write, write_of(&format!("F{at}")));
            shown.push(at);
            render.advance_with(at + 1);
        }
        assert_eq!(shown, (0..count).collect::<Vec<_>>());
        assert!(render.is_complete());
        assert_eq!(render.cursor(), count);
    }
}

#[test]
fn forward_readings_never_repeat_a_frame() {
    let frames = frames_named(64);
    let mut render = RenderLoop::new(&frames);
    let mut shown = Vec::new();
    while render.is_running() {
        let at = render.cursor();
        render.render_frame().unwrap().unwrap();
        shown.push(at);
        render.advance_with(at + 7);
    }
    let mut expected = vec![0];
    for start in [7, 22, 37, 52] {
        expected.extend(start..=start + 8);
    }
    assert_eq!(shown, expected);
    assert_eq!(render.cursor(), 64);
    assert!(shown.windows(2).all(|pair| pair[0] < pair[1]));
}

#[test]
fn failed_decode_aborts_the_pass() {
    let mut frames = frames_named(6);
    frames[3] = b"this is not a zstd frame".to_vec();
    let mut render = RenderLoop::new(&frames);
    let mut shown = Vec::new();
    let mut failure = None;
    for _ in 0..20 {
        let at = render.cursor();
        match render.render_frame() {
            Ok(Some(_)) => shown.push(at),
            Ok(None) => {}
            Err(error) => {
                assert!(failure.is_none());
                failure = Some(error);
            }
        }
        render.advance_with(at + 1);
    }
    assert_eq!(shown, vec![0, 1, 2]);
    match failure {
        Some(PlaybackError::Decode { frame, message }) => {
            assert_eq!(frame, 3);
            assert!(!message.is_empty());
        }
        other => panic!("no decode failure: {other:?}"),
    }
    assert!(render.is_aborted());
    assert!(!render.is_running());
    assert!(!render.is_complete());
    assert_eq!(render.cursor(), 3);
}

#[test]
fn empty_payload_decodes_to_nothing_or_fails_without_a_write() {
    let frames = vec![Vec::new()];
    let mut render = RenderLoop::new(&frames);
    match render.render_frame() {
        Ok(Some(write)) => assert_eq!(write, CLEAR.to_vec()),
        Ok(None) => panic!("the loop was running"),
        Err(PlaybackError::Decode { frame, .. }) => assert_eq!(frame, 0),
        Err(other) => panic!("not a decode failure: {other:?}"),
    }
}

#[test]
fn sixteen_frames_with_slow_rendering() {
    let names = [
        "F0", "F1", "F2", "F3", "F4", "F5", "F6", "F7", "F8", "F9", "F10", "F11", "F12", "F13",
        "F14", "F15",
    ];
    let frames: Vec<Vec<u8>> = names.iter().map(|name| compressed(name)).collect();
    let mut render = RenderLoop::new(&frames);
    let mut writes = Vec::new();

    // Cursor 0 is a resync point; the clock still shows 0, so nothing moves.
    writes.push(render.render_frame().unwrap().unwrap());
    render.advance_with(0);
    assert_eq!(render.cursor(), 0);

    // The next resync at cursor 0 finds the clock at 1.
    writes.push(render.render_frame().unwrap().unwrap());
    render.advance_with(1);
    assert_eq!(render.cursor(), 1);

    for at in 1..15 {
        assert_eq!(render.cursor(), at);
        writes.push(render.render_frame().unwrap().unwrap());
        render.advance_with(at + 3);
    }

    // Cursor 15 is a resync point; the clock has reached 16 already.
    assert_eq!(render.cursor(), 15);
    writes.push(render.render_frame().unwrap().unwrap());
    render.advance_with(16);
    assert_eq!(render.cursor(), 16);
    assert!(render.is_complete());
    assert_eq!(render.render_frame(), Ok(None));

    let mut expected = vec![write_of("F0")];
    expected.extend(names.iter().map(|name| write_of(name)));
    assert_eq!(writes, expected);
}

#[test]
fn clock_far_ahead_skips_to_the_end() {
    let frames = frames_named(16);
    let mut render = RenderLoop::new(&frames);
    assert_eq!(render.render_frame().unwrap().unwrap(), write_of("F0"));
    render.advance_with(15);
    assert_eq!(render.render_frame().unwrap().unwrap(), write_of("F15"));
    render.advance_with(16);
    assert!(render.is_complete());
}

#[test]
fn loop_stays_with_a_clock_that_keeps_pace() {
    // In iteration k the clock shows k, or k + 1 in every third iteration.
    for count in [1usize, 16, 31, 100] {
        let frames = frames_named(count);
        let mut render = RenderLoop::new(&frames);
        let mut k = 0usize;
        while render.is_running() {
            let at = render.cursor();
            assert!(at == k || at + 1 == k);
            let reading = (if k % 3 == 0 { k + 1 } else { k }).min(count);
            assert!(at <= reading && reading <= at + 2);
            render.render_frame().unwrap().unwrap();
            render.advance_with(reading);
            assert!(render.cursor() >= at);
            k += 1;
        }
        assert!(render.is_complete());
        assert!(k == count || k == count + 1);
    }
}

#[test]
fn resync_that_reads_the_cursor_changes_nothing() {
    let frames = frames_named(40);
    let mut render = RenderLoop::new(&frames);
    render.advance_with(0);
    assert_eq!(render.cursor(), 0);
    render.advance_with(30);
    render.advance_with(30);
    assert_eq!(render.cursor(), 30);
    render.advance_with(31);
    assert_eq!(render.cursor(), 31);
}

#[test]
fn shown_frames_never_go_back_whatever_the_clock_shows() {
    let frames = frames_named(50);
    let mut render = RenderLoop::new(&frames);
    let readings = [0usize, 40, 3, 15, 15, 2, 16, 90, 0, 31, 30, 29, 47, 1, 60];
    let mut shown = Vec::new();
    let mut k = 0;
    while render.is_running() {
        let at = render.cursor();
        render.render_frame().unwrap().unwrap();
        shown.push(at);
        render.advance_with(readings[k % readings.len()]);
        k += 1;
    }
    assert!(shown.windows(2).all(|pair| pair[0] <= pair[1]));
    assert!(shown.iter().all(|&at| at < 50));
    assert_eq!(shown[..3], [0, 0, 40]);
}
