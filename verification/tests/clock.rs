use bplay::clock::ReferenceClock;
use bplay::position::SharedPosition;

#[test]
fn new_clock_starts_at_zero() {
    let clock = ReferenceClock::new(5);
    assert_eq!(clock.position(), 0);
    assert_eq!(clock.frame_count(), 5);
    assert!(!clock.is_finished());
}

#[test]
fn clock_over_no_frames_is_finished_at_once() {
    let shared = SharedPosition::new(0);
    let mut clock = ReferenceClock::new(0);
    assert!(clock.is_finished());
    assert_eq!(clock.tick(&shared), None);
    assert_eq!(clock.position(), 0);
    assert_eq!(shared.read(), 0);
}

#[test]
fn each_tick_publishes_the_next_position() {
    let shared = SharedPosition::new(3);
    let mut clock = ReferenceClock::new(3);
    assert_eq!(shared.read(), 0);
    assert_eq!(clock.tick(&shared), Some(1));
    assert_eq!(shared.read(), 1);
    assert_eq!(clock.tick(&shared), Some(2));
    assert_eq!(shared.read(), 2);
    assert_eq!(clock.tick(&shared), Some(3));
    assert_eq!(shared.read(), 3);
    assert!(clock.is_finished());
}

#[test]
fn shared_position_equals_frame_count_at_end_of_pass() {
    let shared = SharedPosition::new(16);
    let mut clock = ReferenceClock::new(16);
    let mut ticks = 0;
    let mut last = 0;
    while !clock.is_finished() {
        let published = clock.tick(&shared).unwrap();
        assert!(published > last);
        last = published;
        ticks += 1;
    }
    assert_eq!(ticks, 16);
    assert_eq!(clock.position(), 16);
    assert_eq!(shared.read(), 16);
}

#[test]
fn finished_clock_publishes_nothing_more() {
    let shared = SharedPosition::new(10);
    let mut clock = ReferenceClock::new(2);
    clock.tick(&shared);
    clock.tick(&shared);
    shared.publish(7);
    assert_eq!(clock.tick(&shared), None);
    assert_eq!(clock.position(), 2);
    assert_eq!(shared.read(), 7);
}

#[test]
fn shared_position_reset_goes_back_to_zero() {
    let shared = SharedPosition::new(16);
    shared.publish(12);
    assert_eq!(shared.read(), 12);
    shared.reset();
    assert_eq!(shared.read(), 0);
}

#[test]
fn new_shared_position_reads_zero() {
    assert_eq!(SharedPosition::new(0).read(), 0);
    assert_eq!(SharedPosition::new(16).read(), 0);
    assert_eq!(SharedPosition::new(usize::MAX).read(), 0);
}

#[test]
fn read_gives_what_was_published_up_to_the_frame_count() {
    let shared = SharedPosition::new(5);
    for position in 0..=5 {
        shared.publish(position);
        assert_eq!(shared.read(), position);
    }
    shared.publish(6);
    assert_eq!(shared.read(), 5);
    shared.publish(usize::MAX);
    assert_eq!(shared.read(), 5);
    shared.publish(2);
    assert_eq!(shared.read(), 2);
    let shared = SharedPosition::new(0);
    shared.publish(1);
    assert_eq!(shared.read(), 0);
}
