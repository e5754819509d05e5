use gps_gui::points::PointFilter;
use gps_gui::relays::Relays;
use gps_gui::points::PointSource::{Esp, Phone, Remote};
use gps_gui::tracking::{
    beacon_targets, can_track, distance_target, next_tracking, tracking_hint, MarkerKind, Tracking,
};

/// The map as tracking sees it: whether the connected board has a position,
/// and the relayed nodes.
struct Scene {
    user: bool,
    beacon: bool,
    nodes: Relays<(i32, i32), u64>,
    tracking: Tracking,
}

impl Scene {
    fn new() -> Self {
        Scene {
            user: false,
            beacon: false,
            nodes: Relays::new(),
            tracking: Tracking { beacon: None, heading_up: false },
        }
    }

    /// Give a node a position, as a relayed report would.
    fn place_node(&mut self, addr: u8) {
        self.nodes.report(addr, -80, Some((addr as i32, 0)), 0, true);
    }

    fn remove_node(&mut self, addr: u8) {
        self.nodes.remove(addr);
    }

    fn targets(&self) -> Vec<MarkerKind> {
        beacon_targets(self.beacon, &self.nodes.target_inputs())
    }

    fn cycle_tracking(&mut self) {
        let targets = self.targets();
        self.tracking.cycle(&targets);
    }

    fn followed(&self) -> Option<MarkerKind> {
        distance_target(self.tracking.beacon, &self.targets(), self.beacon)
    }

    fn hint(&self) -> &'static str {
        tracking_hint(self.tracking.beacon, &self.targets())
    }
}

/// The points page filter. Remote admits every address.
#[test]
fn point_filter_admits_only_its_own_sources() {
    for source in [Phone, Esp, Remote(1), Remote(255)] {
        assert!(PointFilter::All.admits(source));
    }
    assert!(PointFilter::Phone.admits(Phone));
    assert!(!PointFilter::Phone.admits(Esp));
    assert!(!PointFilter::Esp.admits(Remote(1)));
    assert!(PointFilter::Remote.admits(Remote(1)));
    assert!(PointFilter::Remote.admits(Remote(255)));
    assert!(!PointFilter::Remote.admits(Phone));
}

/// The board being followed must not change under the user, whatever joins
/// the list ahead of it.
#[test]
fn tracking_stays_on_the_board_it_was_pointed_at() {
    let mut map = Scene::new();
    map.user = true;
    map.place_node(5);
    map.cycle_tracking();
    assert_eq!(map.followed(), Some(MarkerKind::Remote(5)));

    // The connected board gets a fix of its own, which lists ahead of
    // every node.
    map.beacon = true;
    assert_eq!(map.followed(), Some(MarkerKind::Remote(5)));

    // A lower-numbered node is heard, which lists ahead of node 5.
    map.place_node(3);
    assert_eq!(map.followed(), Some(MarkerKind::Remote(5)));

    // And the node the user is on going quiet does not promote a
    // neighbour into its place.
    map.remove_node(5);
    assert_eq!(map.followed(), None);
}

/// The track button walks the boards in list order and leaves the mode
/// after the last one.
#[test]
fn the_track_button_walks_every_board_and_then_exits() {
    let mut map = Scene::new();
    map.user = true;

    // Nothing to track: the mode cannot be entered at all.
    assert!(!can_track(map.user, &map.targets()));
    map.cycle_tracking();
    assert_eq!(map.tracking.beacon, None);

    map.beacon = true;
    map.place_node(3);
    map.place_node(9);
    assert!(can_track(map.user, &map.targets()));

    assert_eq!(map.hint(), "Track beacon");
    map.cycle_tracking();
    assert_eq!(map.tracking.beacon, Some(MarkerKind::Beacon));
    assert_eq!(map.hint(), "Next beacon");
    map.cycle_tracking();
    assert_eq!(map.tracking.beacon, Some(MarkerKind::Remote(3)));
    map.cycle_tracking();
    assert_eq!(map.tracking.beacon, Some(MarkerKind::Remote(9)));
    // The last one, so the next press is the way out.
    assert_eq!(map.hint(), "Exit tracking");
    map.cycle_tracking();
    assert_eq!(map.tracking.beacon, None);
}

/// Entering tracking turns heading-up off, but a press that cannot enter
/// must not turn it off for nothing.
#[test]
fn entering_tracking_leaves_heading_up() {
    let mut map = Scene::new();
    map.tracking.heading_up = true;
    map.cycle_tracking();
    assert!(map.tracking.heading_up);

    map.user = true;
    map.beacon = true;
    map.cycle_tracking();
    assert_eq!(map.tracking.beacon, Some(MarkerKind::Beacon));
    assert!(!map.tracking.heading_up);
}

/// A board that goes away while it is being followed: the walk starts over
/// rather than reading as "the last board".
#[test]
fn tracking_a_board_that_disappears_starts_the_walk_over() {
    let mut map = Scene::new();
    map.user = true;
    map.place_node(7);
    map.cycle_tracking();
    assert_eq!(map.tracking.beacon, Some(MarkerKind::Remote(7)));

    map.remove_node(7);
    map.beacon = true;
    assert_eq!(map.hint(), "Next beacon");
    map.cycle_tracking();
    assert_eq!(map.tracking.beacon, Some(MarkerKind::Beacon));
}

/// Nodes without a position are not boards to point at; the order is the
/// connected board, then the nodes as given.
#[test]
fn targets_list_only_boards_with_a_position() {
    let nodes = vec![(2, true), (4, false), (6, true)];
    assert_eq!(
        beacon_targets(true, &nodes),
        vec![MarkerKind::Beacon, MarkerKind::Remote(2), MarkerKind::Remote(6)]
    );
    assert_eq!(
        beacon_targets(false, &nodes),
        vec![MarkerKind::Remote(2), MarkerKind::Remote(6)]
    );
    assert_eq!(next_tracking(None, &Vec::new()), None);
}

/// Tracking is left when the user's own position or the board is gone.
#[test]
fn tracking_lets_go_when_a_position_is_missing() {
    let targets = vec![MarkerKind::Beacon];
    let mut t = Tracking { beacon: Some(MarkerKind::Beacon), heading_up: false };
    assert!(t.keep(true, &targets));
    assert_eq!(t.beacon, Some(MarkerKind::Beacon));
    assert!(!t.keep(false, &targets));
    assert_eq!(t.beacon, None);
    let mut t = Tracking { beacon: Some(MarkerKind::Remote(4)), heading_up: false };
    assert!(!t.keep(true, &targets));
    assert_eq!(t.beacon, None);
}

#[test]
fn markers_are_named_by_kind_and_address() {
    assert_eq!(MarkerKind::You.label(), "You");
    assert_eq!(MarkerKind::Beacon.label(), "Beacon");
    assert_eq!(MarkerKind::Remote(17).label(), "Node 17");
}
