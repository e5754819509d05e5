use gps_gui::board::NodePing;
use gps_gui::points::PointSource;
use gps_gui::relays::{record_point, Relays, TrackPoint, Tracks};
use gps_gui::tracking::MarkerKind;

/// Positions as the tests write them: whole hundredths of a degree.
type Pos = (i32, i32);

fn ping(src: u8, rssi: i16) -> NodePing {
    NodePing { src, rssi, uptime_s: 30, gps_present: true, had_fix: false, age_s: 0 }
}

#[test]
fn the_first_point_of_a_track_is_always_kept() {
    let mut track: Vec<TrackPoint<Pos, u64>> = Vec::new();
    assert!(record_point(&mut track, (1, 1), PointSource::Phone, 10, false));
    assert_eq!(track.len(), 1);
    // Too close to the last point: dropped.
    assert!(!record_point(&mut track, (1, 2), PointSource::Phone, 11, false));
    assert_eq!(track.len(), 1);
    // Far enough: kept, at the end.
    assert!(record_point(&mut track, (3, 3), PointSource::Phone, 12, true));
    assert_eq!(track.len(), 2);
    assert_eq!(track[1].pos, (3, 3));
    assert_eq!(track[1].time, 12);
    assert_eq!(track[1].source, PointSource::Phone);
}

#[test]
fn a_report_moves_the_node_and_grows_its_track_when_far_enough() {
    let mut relays: Relays<Pos, u64> = Relays::new();
    relays.report(4, -80, Some((10, 10)), 100, false);
    let node = relays.node(4).expect("heard");
    assert_eq!(node.pos, Some((10, 10)));
    assert_eq!(node.time, Some(100));
    assert_eq!(node.heard, Some(100));
    assert_eq!(node.rssi, -80);
    assert_eq!(node.track.len(), 1);
    assert_eq!(node.track[0].source, PointSource::Remote(4));

    // Close by: the live view moves, the track does not.
    relays.report(4, -82, Some((10, 11)), 110, false);
    let node = relays.node(4).unwrap();
    assert_eq!(node.pos, Some((10, 11)));
    assert_eq!(node.track.len(), 1);

    // Far enough: both move.
    relays.report(4, -85, Some((20, 20)), 120, true);
    let node = relays.node(4).unwrap();
    assert_eq!(node.track.len(), 2);
    assert_eq!(node.track[1].pos, (20, 20));
    assert_eq!(node.track[1].time, 120);
}

#[test]
fn a_report_without_a_fix_keeps_the_marker_and_clears_the_flag() {
    let mut relays: Relays<Pos, u64> = Relays::new();
    relays.report(2, -70, Some((5, 5)), 10, true);
    relays.ping(ping(2, -90), 20);
    let node = relays.node(2).unwrap();
    assert_eq!(node.pos, Some((5, 5)));
    assert_eq!(node.time, Some(10));
    assert_eq!(node.heard, Some(20));
    assert_eq!(node.rssi, -90);
    assert_eq!(node.no_fix, Some(ping(2, -90)));

    relays.report(2, -60, None, 30, true);
    let node = relays.node(2).unwrap();
    assert_eq!(node.pos, Some((5, 5)));
    assert_eq!(node.heard, Some(30));
    assert_eq!(node.no_fix, None);
    assert_eq!(node.track.len(), 1);
}

#[test]
fn a_ping_from_a_new_node_lists_it_without_a_position() {
    let mut relays: Relays<Pos, u64> = Relays::new();
    relays.ping(ping(9, -100), 5);
    let node = relays.node(9).unwrap();
    assert_eq!(node.pos, None);
    assert_eq!(node.last_pos(), None);
    assert_eq!(relays.listed(), vec![9]);
    assert_eq!(relays.target_inputs(), vec![(9, false)]);
}

#[test]
fn a_board_switch_keeps_history_and_drops_the_live_view() {
    let mut relays: Relays<Pos, u64> = Relays::new();
    relays.report(3, -70, Some((1, 1)), 10, true);
    relays.report(3, -71, Some((2, 2)), 20, true);
    relays.report(3, -72, Some((2, 3)), 30, false);
    relays.ping(ping(8, -99), 40);
    relays.forget_live();

    let node = relays.node(3).unwrap();
    assert_eq!(node.pos, None);
    assert_eq!(node.time, None);
    assert_eq!(node.heard, None);
    assert_eq!(node.no_fix, None);
    assert_eq!(node.track.len(), 2);
    // The marker stays at the newest recorded point, not the last live one.
    assert_eq!(node.last_pos(), Some((2, 2)));
    assert_eq!(node.last_time(), Some(20));

    // Neither node has a live position or a time heard any more.
    assert!(relays.listed().is_empty());
    // Node 8 never had a position, node 3 keeps one through its history.
    assert_eq!(relays.target_inputs(), vec![(3, true), (8, false)]);
}

#[test]
fn nodes_list_in_address_order_whatever_order_they_are_heard_in() {
    let mut relays: Relays<Pos, u64> = Relays::new();
    relays.report(9, -1, Some((0, 9)), 1, true);
    relays.report(1, -1, Some((0, 1)), 2, true);
    relays.ping(ping(5, -1), 3);
    relays.report(200, -1, None, 4, true);
    assert_eq!(relays.addrs(), vec![1, 5, 9, 200]);
    assert_eq!(
        relays.target_inputs(),
        vec![(1, true), (5, false), (9, true), (200, false)]
    );
    assert_eq!(relays.listed(), vec![1, 5, 9, 200]);
    relays.remove(5);
    assert_eq!(relays.addrs(), vec![1, 9, 200]);
    assert!(relays.node(5).is_none());
}

#[test]
fn discarding_tracks_keeps_every_live_marker() {
    let mut tracks: Tracks<Pos, u64> = Tracks::new();
    let mut relays: Relays<Pos, u64> = Relays::new();
    record_point(&mut tracks.yours, (0, 0), PointSource::Phone, 1, true);
    record_point(&mut tracks.board, (0, 1), PointSource::Esp, 1, true);
    record_point(&mut tracks.board, (0, 2), PointSource::Esp, 2, true);
    relays.report(6, -70, Some((6, 6)), 3, true);
    relays.report(6, -70, Some((7, 7)), 4, true);
    relays.report(7, -70, Some((8, 8)), 5, true);
    assert_eq!(relays.remote_points(), 3);
    assert_eq!(tracks.recorded_points(&relays), 6);

    tracks.discard(&mut relays);
    assert_eq!(tracks.recorded_points(&relays), 0);
    assert_eq!(relays.node(6).unwrap().last_pos(), Some((7, 7)));
    assert_eq!(relays.node(7).unwrap().pos, Some((8, 8)));
    // After a switch too there is then nothing left to show.
    relays.forget_live();
    assert_eq!(relays.node(6).unwrap().last_pos(), None);
    assert_eq!(relays.target_inputs(), vec![(6, false), (7, false)]);
}

#[test]
fn a_marker_reads_from_its_own_source() {
    let mut relays: Relays<Pos, u64> = Relays::new();
    relays.report(4, -70, Some((4, 4)), 40, true);
    let you = (Some((1, 1)), Some(10));
    let beacon = (Some((2, 2)), Some(20));
    assert_eq!(relays.marker_fix(MarkerKind::You, you, beacon), you);
    assert_eq!(relays.marker_fix(MarkerKind::Beacon, you, beacon), beacon);
    assert_eq!(
        relays.marker_fix(MarkerKind::Remote(4), you, beacon),
        (Some((4, 4)), Some(40))
    );
    assert_eq!(relays.marker_fix(MarkerKind::Remote(5), you, beacon), (None, None));
}
