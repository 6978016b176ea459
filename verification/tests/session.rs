use bplay::archive::LoadedArchive;
use bplay::error::PlaybackError;
use bplay::position::SharedPosition;
use bplay::session::PlaybackSession;

fn archive_of(count: usize) -> LoadedArchive {
    LoadedArchive {
        audio: b"track".to_vec(),
        metadata: None,
        frames: (0..count)
            .map(|i| zstd::encode_all(format!("frame {i}").as_bytes(), 1).unwrap())
            .collect(),
    }
}

#[test]
fn session_without_interval_is_refused() {
    assert_eq!(
        PlaybackSession::new(archive_of(3), None, None, false).err(),
        Some(PlaybackError::UnresolvedInterval)
    );
    assert_eq!(
        PlaybackSession::new(archive_of(3), None, Some(0), true).err(),
        Some(PlaybackError::UnresolvedInterval)
    );
    assert_eq!(
        PlaybackSession::new(archive_of(3), Some(0), Some(40_000), true).err(),
        Some(PlaybackError::UnresolvedInterval)
    );
}

#[test]
fn session_keeps_what_it_was_made_of() {
    let archive = archive_of(4);
    let frames = archive.frames.clone();
    let session = PlaybackSession::new(archive, None, Some(40_000), true).unwrap();
    assert_eq!(session.frames(), &frames);
    assert_eq!(session.frame_count(), 4);
    assert_eq!(session.audio(), &b"track".to_vec());
    assert_eq!(session.interval_micros(), 40_000);
    assert!(session.is_looping());
    let session = PlaybackSession::new(archive_of(1), Some(16_667), Some(40_000), false).unwrap();
    assert_eq!(session.interval_micros(), 16_667);
    assert!(!session.is_looping());
}

#[test]
fn second_pass_starts_from_zero() {
    let session = PlaybackSession::new(archive_of(5), Some(40_000), None, true).unwrap();
    let shared = SharedPosition::new(session.frame_count());
    let mut writes = 0;
    for _ in 0..2 {
        let (mut render, mut clock) = session.begin_pass(&shared);
        assert_eq!(render.cursor(), 0);
        assert_eq!(clock.position(), 0);
        assert_eq!(shared.read(), 0);
        while render.is_running() {
            let at = render.cursor();
            let write = render.render_frame().unwrap().unwrap();
            assert!(write.ends_with(format!("frame {at}").as_bytes()));
            writes += 1;
            clock.tick(&shared);
            render.advance(&shared);
        }
        assert!(render.is_complete());
        assert!(clock.is_finished());
        assert_eq!(shared.read(), 5);
    }
    assert_eq!(writes, 10);
}
