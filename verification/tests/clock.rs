use gps_gui::clock::{heard_at, heard_from};
use std::time::{Duration, SystemTime};

/// A node the board replayed on connect belongs where it was heard, not at
/// the moment it reached us.
#[test]
fn heard_at_places_a_replayed_report_in_the_past() {
    let now = SystemTime::now();
    let live = heard_at(0);
    assert!(live.duration_since(now).unwrap_or_default() < Duration::from_secs(1));
    let replayed = heard_at(600);
    let age = now.duration_since(replayed).expect("in the past");
    assert!(
        age >= Duration::from_secs(599) && age <= Duration::from_secs(601),
        "{age:?}"
    );
    // The largest age the field can carry must still be a real time.
    assert!(heard_at(u16::MAX) < now);
}

/// Given the reading, the heard time is exactly that many seconds before it.
#[test]
fn heard_from_counts_back_from_the_reading_given() {
    let now = SystemTime::UNIX_EPOCH + Duration::from_secs(1_700_000_000);
    assert_eq!(heard_from(now, 0), now);
    assert_eq!(heard_from(now, 600), now - Duration::from_secs(600));
    assert_eq!(heard_from(now, u16::MAX), now - Duration::from_secs(65_535));
}
