//! Which board the map points to: the markers, the ordered list of boards
//! with a known position, and the tracking mode that walks that list.
//!
//! Tracking holds the board itself rather than its place in the list: the
//! list is ordered (the connected board, then the nodes by address) and
//! grows in the middle, so a place would quietly move to another board.

use vstd::prelude::*;
use crate::fmt::{dec, push_dec, push_str};

verus! {

/// A map marker the user can tap to inspect.
#[derive(Clone, Copy, Debug, PartialEq, Eq, Structural)]
pub enum MarkerKind {
    /// The phone / manual position dot.
    You,
    /// The connected board's own GPS.
    Beacon,
    /// A remote LoRa node relayed by the connected board, by its address.
    Remote(u8),
}

impl MarkerKind {
    /// What [`MarkerKind::label`] calls a marker.
    pub open spec fn label_spec(self) -> Seq<char> {
        match self {
            MarkerKind::You => "You"@,
            MarkerKind::Beacon => "Beacon"@,
            MarkerKind::Remote(addr) => "Node "@ + dec(addr as nat),
        }
    }

    /// The generic label, before any nickname is applied: a node is named
    /// by its address.
    pub fn label(self) -> (r: String)
        ensures
            r@ == self.label_spec(),
    {
        let mut out = String::new();
        match self {
            MarkerKind::You => push_str(&mut out, "You"),
            MarkerKind::Beacon => push_str(&mut out, "Beacon"),
            MarkerKind::Remote(addr) => {
                push_str(&mut out, "Node ");
                push_dec(&mut out, addr as u64);
            },
        }
        assert(out@ =~= self.label_spec());
        out
    }
}

/// The remote nodes' entries in the target list: each node, in the order
/// given, that has a position to point at.
pub open spec fn node_targets(nodes: Seq<(u8, bool)>) -> Seq<MarkerKind>
    decreases nodes.len(),
{
    if nodes.len() == 0 {
        Seq::empty()
    } else {
        let rest = node_targets(nodes.drop_last());
        if nodes.last().1 {
            rest.push(MarkerKind::Remote(nodes.last().0))
        } else {
            rest
        }
    }
}

/// The boards the map can point to: the connected board first when it has a
/// position, then each remote node with one, in the nodes' order.
pub open spec fn beacon_targets_spec(beacon_known: bool, nodes: Seq<(u8, bool)>) -> Seq<
    MarkerKind,
> {
    if beacon_known {
        seq![MarkerKind::Beacon] + node_targets(nodes)
    } else {
        node_targets(nodes)
    }
}

/// The boards the map can point to: the connected board first, then each
/// remote node (given in address order, each with whether it has a
/// position), keeping only those with a known position. Tracking cycles
/// through this and the center menu jumps to it, so the two keep one order.
pub fn beacon_targets(beacon_known: bool, nodes: &Vec<(u8, bool)>) -> (r: Vec<MarkerKind>)
    ensures
        r@ == beacon_targets_spec(beacon_known, nodes@),
{
    let mut out: Vec<MarkerKind> = Vec::new();
    if beacon_known {
        out.push(MarkerKind::Beacon);
    }
    let ghost head = out@;
    let mut i: usize = 0;
    while i < nodes.len()
        invariant
            i <= nodes.len(),
            out@ == head + node_targets(nodes@.subrange(0, i as int)),
            head == (if beacon_known { seq![MarkerKind::Beacon] } else { Seq::<MarkerKind>::empty() }),
        decreases nodes.len() - i,
    {
        let (addr, has) = nodes[i];
        assert(nodes@.subrange(0, i + 1).drop_last() =~= nodes@.subrange(0, i as int));
        if has {
            out.push(MarkerKind::Remote(addr));
        }
        assert(out@ =~= head + node_targets(nodes@.subrange(0, i + 1)));
        i = i + 1;
    }
    assert(nodes@.subrange(0, nodes.len() as int) =~= nodes@);
    assert(out@ =~= beacon_targets_spec(beacon_known, nodes@));
    out
}

/// The markers the center button can center on, in menu order: you first
/// (the plain tap's target) when your position is known, then the boards.
pub fn center_targets(user_known: bool, targets: &Vec<MarkerKind>) -> (r: Vec<MarkerKind>)
    ensures
        r@ == (if user_known { seq![MarkerKind::You] + targets@ } else { targets@ }),
{
    let mut out: Vec<MarkerKind> = Vec::new();
    if user_known {
        out.push(MarkerKind::You);
    }
    let ghost head = out@;
    let mut i: usize = 0;
    while i < targets.len()
        invariant
            i <= targets.len(),
            head == (if user_known { seq![MarkerKind::You] } else { Seq::<MarkerKind>::empty() }),
            out@ == head + targets@.subrange(0, i as int),
        decreases targets.len() - i,
    {
        out.push(targets[i]);
        assert(out@ =~= head + targets@.subrange(0, i + 1));
        i = i + 1;
    }
    assert(targets@.subrange(0, targets.len() as int) =~= targets@);
    out
}

/// The first place `k` stands in `s`, or -1.
pub open spec fn index_of(s: Seq<MarkerKind>, k: MarkerKind) -> int
    decreases s.len(),
{
    if s.len() == 0 {
        -1
    } else if s[0] == k {
        0
    } else {
        let r = index_of(s.subrange(1, s.len() as int), k);
        if r < 0 { -1 } else { r + 1 }
    }
}

pub proof fn lemma_index_of(s: Seq<MarkerKind>, k: MarkerKind)
    ensures
        -1 <= index_of(s, k) < s.len(),
        index_of(s, k) >= 0 ==> s[index_of(s, k)] == k,
        forall|j: int| 0 <= j < index_of(s, k) ==> s[j] != k,
        index_of(s, k) < 0 ==> !s.contains(k),
    decreases s.len(),
{
    if s.len() > 0 && s[0] != k {
        let t = s.subrange(1, s.len() as int);
        lemma_index_of(t, k);
        assert forall|j: int| 0 <= j < index_of(s, k) implies s[j] != k by {
            if j > 0 {
                assert(s[j] == t[j - 1]);
            }
        }
        if index_of(s, k) < 0 {
            assert forall|j: int| 0 <= j < s.len() implies s[j] != k by {
                if j > 0 {
                    assert(s[j] == t[j - 1]);
                }
            }
        }
    }
}

/// In a list with no repeats, a board's first place is its only place.
pub proof fn lemma_index_of_unique(s: Seq<MarkerKind>, i: int)
    requires
        s.no_duplicates(),
        0 <= i < s.len(),
    ensures
        index_of(s, s[i]) == i,
{
    lemma_index_of(s, s[i]);
    let f = index_of(s, s[i]);
    assert(f >= 0) by {
        if f < 0 {
            assert(s.contains(s[i]));
        }
    }
    if f < i {
        assert(s[f] == s[i]);
    }
}

/// The first board in the list, if any.
pub open spec fn first_target(targets: Seq<MarkerKind>) -> Option<MarkerKind> {
    if targets.len() > 0 { Some(targets[0]) } else { None }
}

/// Where the tracking button goes next: the board after the one followed,
/// the first board when the mode is off or the followed board is no longer
/// listed, and `None` (leave the mode) after the last one.
pub open spec fn next_tracking_spec(current: Option<MarkerKind>, targets: Seq<MarkerKind>) -> Option<
    MarkerKind,
> {
    match current {
        None => first_target(targets),
        Some(k) => {
            let i = index_of(targets, k);
            if i < 0 {
                first_target(targets)
            } else if i + 1 < targets.len() {
                Some(targets[i + 1])
            } else {
                None
            }
        },
    }
}

/// Where the tracking button would go next. A followed board that has
/// dropped off the list starts the walk over rather than ending it, so the
/// button never reads as "exit" for a board that is no longer there.
pub fn next_tracking(current: Option<MarkerKind>, targets: &Vec<MarkerKind>) -> (r: Option<
    MarkerKind,
>)
    ensures
        r == next_tracking_spec(current, targets@),
{
    let first = if targets.len() > 0 { Some(targets[0]) } else { None };
    match current {
        None => first,
        Some(k) => {
            proof {
                lemma_index_of(targets@, k);
            }
            let mut i: usize = 0;
            while i < targets.len()
                invariant
                    current == Some(k),
                    i <= targets.len(),
                    forall|j: int| 0 <= j < i ==> targets@[j] != k,
                    -1 <= index_of(targets@, k) < targets@.len(),
                    index_of(targets@, k) >= 0 ==> targets@[index_of(targets@, k)] == k,
                    forall|j: int| 0 <= j < index_of(targets@, k) ==> targets@[j] != k,
                    index_of(targets@, k) < 0 ==> !targets@.contains(k),
                decreases targets.len() - i,
            {
                if targets[i] == k {
                    assert(index_of(targets@, k) == i as int) by {
                        if index_of(targets@, k) < 0 {
                            assert(targets@.contains(k));
                        }
                    }
                    if i + 1 < targets.len() {
                        return Some(targets[i + 1]);
                    } else {
                        return None;
                    }
                }
                i = i + 1;
            }
            assert(index_of(targets@, k) < 0);
            first
        },
    }
}

/// The map's rotation mode as far as tracking is concerned.
#[derive(Clone, Copy, Debug, PartialEq, Eq, Structural)]
pub struct Tracking {
    /// Which board is kept in frame with the user; `None` is off.
    pub beacon: Option<MarkerKind>,
    /// The map is turned so the heading points up.
    pub heading_up: bool,
}

impl Tracking {
    /// Advance the tracking selection, as the map bar's track button does:
    /// into the mode on the first board, along the list, and out of it
    /// after the last one. Entering tracking turns heading-up off, since
    /// both rotate the map; a press that cannot enter changes nothing.
    pub fn cycle(&mut self, targets: &Vec<MarkerKind>)
        ensures
            final(self).beacon == next_tracking_spec(old(self).beacon, targets@),
            final(self).heading_up == (old(self).heading_up && !(old(self).beacon.is_none()
                && next_tracking_spec(old(self).beacon, targets@).is_some())),
    {
        let next = next_tracking(self.beacon, targets);
        if next.is_some() && self.beacon.is_none() {
            self.heading_up = false;
        }
        self.beacon = next;
    }

    /// Centering on something leaves tracking mode.
    pub fn stop(&mut self)
        ensures
            final(self).beacon.is_none(),
            final(self).heading_up == old(self).heading_up,
    {
        self.beacon = None;
    }

    /// Tracking needs both the user and the chosen board; when either has
    /// gone, the mode is left so the map unlocks. Returns whether tracking
    /// is still on.
    pub fn keep(&mut self, user_known: bool, targets: &Vec<MarkerKind>) -> (r: bool)
        ensures
            r == (old(self).beacon.is_some() && user_known && targets@.contains(
                old(self).beacon.unwrap(),
            )),
            final(self).beacon == (if r { old(self).beacon } else { None }),
            final(self).heading_up == old(self).heading_up,
    {
        match self.beacon {
            None => false,
            Some(k) => {
                let listed = contains(targets, k);
                if user_known && listed {
                    true
                } else {
                    self.beacon = None;
                    false
                }
            },
        }
    }
}

/// Whether `k` is in the list.
pub fn contains(targets: &Vec<MarkerKind>, k: MarkerKind) -> (r: bool)
    ensures
        r == targets@.contains(k),
{
    let mut i: usize = 0;
    while i < targets.len()
        invariant
            i <= targets.len(),
            forall|j: int| 0 <= j < i ==> targets@[j] != k,
        decreases targets.len() - i,
    {
        if targets[i] == k {
            assert(targets@[i as int] == k);
            return true;
        }
        i = i + 1;
    }
    false
}

/// What the track button's press would do, for its hover text.
pub fn tracking_hint(current: Option<MarkerKind>, targets: &Vec<MarkerKind>) -> (r: &'static str)
    ensures
        r@ == match (current, next_tracking_spec(current, targets@)) {
            (None, _) => "Track beacon"@,
            (Some(_), Some(_)) => "Next beacon"@,
            (Some(_), None) => "Exit tracking"@,
        },
{
    match (current, next_tracking(current, targets)) {
        (None, _) => "Track beacon",
        (Some(_), Some(_)) => "Next beacon",
        (Some(_), None) => "Exit tracking",
    }
}

/// Whether tracking mode can be entered: it frames the user and a board
/// together, so it needs both.
pub fn can_track(user_known: bool, targets: &Vec<MarkerKind>) -> (r: bool)
    ensures
        r == (user_known && targets@.len() > 0),
{
    user_known && targets.len() > 0
}

/// The board the distance read-out and its line refer to.
pub open spec fn distance_target_spec(
    tracking: Option<MarkerKind>,
    targets: Seq<MarkerKind>,
    beacon_known: bool,
) -> Option<MarkerKind> {
    match tracking {
        Some(k) => if targets.contains(k) { Some(k) } else { None },
        None => if beacon_known { Some(MarkerKind::Beacon) } else { None },
    }
}

/// The board the distance read-out and its line refer to: the one tracking
/// has selected, or the connected board when not tracking; `None` until
/// that board has a position.
pub fn distance_target(
    tracking: Option<MarkerKind>,
    targets: &Vec<MarkerKind>,
    beacon_known: bool,
) -> (r: Option<MarkerKind>)
    ensures
        r == distance_target_spec(tracking, targets@, beacon_known),
{
    match tracking {
        Some(k) => if contains(targets, k) {
            Some(k)
        } else {
            None
        },
        None => if beacon_known {
            Some(MarkerKind::Beacon)
        } else {
            None
        },
    }
}

/// The track button walks the boards in list order and leaves the mode
/// after the last one: from off it goes to the first board, from each
/// board to the next, and from the last board out.
pub proof fn lemma_walk_visits_every_board(targets: Seq<MarkerKind>, i: int)
    requires
        targets.no_duplicates(),
        0 <= i < targets.len(),
    ensures
        next_tracking_spec(None, targets) == Some(targets[0]),
        next_tracking_spec(Some(targets[i]), targets) == (if i + 1 < targets.len() {
            Some(targets[i + 1])
        } else {
            None
        }),
{
    lemma_index_of_unique(targets, i);
}

/// The board being tracked does not change under the user: whatever else
/// joins or leaves the list, and in whatever order, the distance target is
/// the tracked board for as long as that board is listed, and nothing (not
/// a neighbour) once it is not.
pub proof fn lemma_tracking_stays_on_its_board(
    k: MarkerKind,
    before: Seq<MarkerKind>,
    after: Seq<MarkerKind>,
    beacon_before: bool,
    beacon_after: bool,
)
    ensures
        after.contains(k) ==> distance_target_spec(Some(k), after, beacon_after) == Some(k),
        !after.contains(k) ==> distance_target_spec(Some(k), after, beacon_after).is_none(),
        before.contains(k) && after.contains(k) ==> distance_target_spec(
            Some(k),
            before,
            beacon_before,
        ) == distance_target_spec(Some(k), after, beacon_after),
{
}

/// Every board in the target list is listed once when the nodes' addresses
/// are distinct, so the walk above applies to the lists the map builds.
pub proof fn lemma_targets_distinct(beacon_known: bool, nodes: Seq<(u8, bool)>)
    requires
        forall|a: int, b: int| 0 <= a < b < nodes.len() ==> nodes[a].0 != nodes[b].0,
    ensures
        beacon_targets_spec(beacon_known, nodes).no_duplicates(),
    decreases nodes.len(),
{
    lemma_node_targets_distinct(nodes);
    let t = node_targets(nodes);
    if beacon_known {
        let s = seq![MarkerKind::Beacon] + t;
        lemma_node_targets_remote(nodes);
        assert forall|a: int, b: int| 0 <= a < s.len() && 0 <= b < s.len() && a != b implies s[a]
            != s[b] by {
            if a > 0 && b > 0 {
                assert(s[a] == t[a - 1]);
                assert(s[b] == t[b - 1]);
            } else if a == 0 {
                assert(t.contains(s[b]));
            } else {
                assert(t.contains(s[a]));
            }
        }
    }
}

/// Every entry the nodes contribute is a remote marker for one of them.
pub proof fn lemma_node_targets_remote(nodes: Seq<(u8, bool)>)
    ensures
        forall|m: MarkerKind| #[trigger] node_targets(nodes).contains(m) ==> exists|j: int|
            0 <= j < nodes.len() && nodes[j].1 && m == MarkerKind::Remote(nodes[j].0),
    decreases nodes.len(),
{
    if nodes.len() > 0 {
        let init = nodes.drop_last();
        lemma_node_targets_remote(init);
        assert forall|m: MarkerKind| #[trigger] node_targets(nodes).contains(m) implies exists|
            j: int,
        | 0 <= j < nodes.len() && nodes[j].1 && m == MarkerKind::Remote(nodes[j].0) by {
            let t = node_targets(init);
            if t.contains(m) {
                let j = choose|j: int|
                    0 <= j < init.len() && init[j].1 && m == MarkerKind::Remote(init[j].0);
                assert(nodes[j] == init[j]);
            } else {
                let last = nodes.len() - 1;
                assert(nodes[last] == nodes.last());
                if nodes.last().1 {
                    let u = t.push(MarkerKind::Remote(nodes.last().0));
                    let idx = choose|idx: int| 0 <= idx < u.len() && u[idx] == m;
                    if idx < t.len() {
                        assert(t[idx] == m);
                    }
                }
            }
        }
    }
}

pub proof fn lemma_node_targets_distinct(nodes: Seq<(u8, bool)>)
    requires
        forall|a: int, b: int| 0 <= a < b < nodes.len() ==> nodes[a].0 != nodes[b].0,
    ensures
        node_targets(nodes).no_duplicates(),
    decreases nodes.len(),
{
    if nodes.len() > 0 {
        let init = nodes.drop_last();
        assert forall|a: int, b: int| 0 <= a < b < init.len() implies init[a].0 != init[b].0 by {
            assert(init[a] == nodes[a]);
            assert(init[b] == nodes[b]);
        }
        lemma_node_targets_distinct(init);
        lemma_node_targets_remote(init);
        let t = node_targets(init);
        if nodes.last().1 {
            let m = MarkerKind::Remote(nodes.last().0);
            assert(!t.contains(m)) by {
                if t.contains(m) {
                    let j = choose|j: int|
                        0 <= j < init.len() && init[j].1 && m == MarkerKind::Remote(init[j].0);
                    assert(init[j] == nodes[j]);
                    assert(nodes[j].0 != nodes[nodes.len() - 1].0);
                }
            }
            let u = t.push(m);
            assert forall|a: int, b: int| 0 <= a < u.len() && 0 <= b < u.len() && a != b implies u[a]
                != u[b] by {
                if a < t.len() && b < t.len() {
                } else if a == t.len() {
                    assert(u[b] == t[b]);
                    assert(t.contains(u[b]));
                } else {
                    assert(u[a] == t[a]);
                    assert(t.contains(u[a]));
                }
            }
        }
    }
}

} // verus!
