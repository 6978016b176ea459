use bplay::interval::remaining_delay;
use bplay::interval::resolve_interval;
use bplay::interval::IntervalResolution;
use bplay::interval::Metadata;

#[test]
fn metadata_gives_its_frametime_unless_zero() {
    assert_eq!(Metadata { frametime: 40_000 }.embedded_interval(), Some(40_000));
    assert_eq!(Metadata { frametime: 1 }.embedded_interval(), Some(1));
    assert_eq!(Metadata { frametime: 0 }.embedded_interval(), None);
    assert_eq!(Metadata::default(), Metadata { frametime: 0 });
    assert_eq!(Metadata::default().embedded_interval(), None);
}

#[test]
fn explicit_interval_wins_over_embedded() {
    assert_eq!(resolve_interval(Some(40_000), Some(33_333)), IntervalResolution::Resolved(40_000));
}

#[test]
fn embedded_interval_is_used_without_explicit_one() {
    assert_eq!(resolve_interval(None, Some(33_333)), IntervalResolution::Resolved(33_333));
}

#[test]
fn no_interval_at_all_is_unresolved() {
    assert_eq!(resolve_interval(None, None), IntervalResolution::Unresolved);
}

#[test]
fn zero_embedded_interval_counts_as_absent() {
    assert_eq!(resolve_interval(None, Some(0)), IntervalResolution::Unresolved);
}

#[test]
fn zero_explicit_interval_is_unresolved_whatever_is_embedded() {
    assert_eq!(resolve_interval(Some(0), None), IntervalResolution::Unresolved);
    assert_eq!(resolve_interval(Some(0), Some(0)), IntervalResolution::Unresolved);
    assert_eq!(resolve_interval(Some(0), Some(40_000)), IntervalResolution::Unresolved);
}

#[test]
fn resolved_interval_is_never_zero() {
    let explicit = [None, Some(0u64), Some(1), Some(16_667), Some(u64::MAX)];
    let embedded = [None, Some(0u64), Some(1), Some(40_000), Some(u64::MAX)];
    for e in explicit {
        for m in embedded {
            match resolve_interval(e, m) {
                IntervalResolution::Resolved(micros) => assert!(micros > 0),
                IntervalResolution::Unresolved => {
                    assert!(e == Some(0) || (e.is_none() && (m.is_none() || m == Some(0))))
                }
            }
        }
    }
}

#[test]
fn rest_is_what_is_left_of_the_budget() {
    // 40 ms budget, 15.5 ms spent: 24.5 ms are left.
    assert_eq!(remaining_delay(40_000, 15_500_000), Some(24_500_000));
    assert_eq!(remaining_delay(40_000, 0), Some(40_000_000));
    assert_eq!(remaining_delay(40_000, 39_999_999), Some(1));
}

#[test]
fn no_rest_when_the_budget_is_used_up() {
    assert_eq!(remaining_delay(40_000, 40_000_000), None);
    assert_eq!(remaining_delay(40_000, 40_000_001), None);
    assert_eq!(remaining_delay(40_000, u128::MAX), None);
    assert_eq!(remaining_delay(0, 0), None);
}

#[test]
fn rest_of_the_longest_interval_does_not_overflow() {
    assert_eq!(remaining_delay(u64::MAX, 1), Some(u64::MAX as u128 * 1000 - 1));
}
