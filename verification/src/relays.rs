//! Recorded tracks and the remote nodes a board relays: each node's live
//! view, which a board switch drops, and its recorded path, which is kept.
//!
//! Positions and times are the app's own types (`P`, `T`): the library only
//! stores, copies and orders them. Whether a new position has moved far
//! enough from the last track point is a distance in meters, measured by the
//! app and handed in as a `bool`.

use vstd::prelude::*;
use std::collections::BTreeMap;

use crate::board::NodePing;
use crate::points::PointSource;
use crate::tracking::MarkerKind;

verus! {

broadcast use {vstd::laws_cmp::group_laws_cmp, vstd::std_specs::btree::group_btree_axioms};

/// A recorded position: where, from which source, and when.
#[derive(Clone, Copy, Debug)]
pub struct TrackPoint<P, T> {
    pub pos: P,
    pub source: PointSource,
    pub time: T,
}

/// Appends a point to a track unless it is too close to the last one. The
/// first point of a track is always kept; a later one only when `far` says
/// it has moved far enough from the last, so a track is decimated to points
/// that far apart. Returns whether the point was added.
pub fn record_point<P: Copy, T: Copy>(
    track: &mut Vec<TrackPoint<P, T>>,
    pos: P,
    source: PointSource,
    at: T,
    far: bool,
) -> (added: bool)
    ensures
        added == (old(track)@.len() == 0 || far),
        final(track)@ == (if added {
            old(track)@.push((TrackPoint { pos, source, time: at }))
        } else {
            old(track)@
        }),
{
    if track.len() == 0 || far {
        track.push(TrackPoint { pos, source, time: at });
        true
    } else {
        false
    }
}

/// What a relayed node is, as far as the contracts go.
pub struct NodeView<P, T> {
    /// Live position; `None` until a fix is heard, and again after a board
    /// switch.
    pub pos: Option<P>,
    /// When `pos` was last updated.
    pub time: Option<T>,
    /// The signal the relay last heard this node at, in dBm.
    pub rssi: i16,
    /// Every recorded position, oldest first.
    pub track: Seq<TrackPoint<P, T>>,
    /// When the board last heard from this node at all, position or ping.
    pub heard: Option<T>,
    /// The node's last ping while its newest report says it has no fix.
    pub no_fix: Option<NodePing>,
}

/// A remote LoRa node relayed over BLE by the connected board.
#[derive(Debug)]
pub struct RemoteNode<P, T> {
    pub pos: Option<P>,
    pub time: Option<T>,
    pub rssi: i16,
    pub track: Vec<TrackPoint<P, T>>,
    pub heard: Option<T>,
    pub no_fix: Option<NodePing>,
}

impl<P, T> View for RemoteNode<P, T> {
    type V = NodeView<P, T>;

    open spec fn view(&self) -> NodeView<P, T> {
        NodeView {
            pos: self.pos,
            time: self.time,
            rssi: self.rssi,
            track: self.track@,
            heard: self.heard,
            no_fix: self.no_fix,
        }
    }
}

/// A node as first heard: nothing known yet.
pub open spec fn fresh_node<P, T>() -> NodeView<P, T> {
    NodeView {
        pos: None,
        time: None,
        rssi: 0,
        track: Seq::empty(),
        heard: None,
        no_fix: None,
    }
}

/// The position to show for a node: the live one, or the newest recorded
/// point once a board switch has dropped the live view.
pub open spec fn last_pos_spec<P, T>(n: NodeView<P, T>) -> Option<P> {
    match n.pos {
        Some(p) => Some(p),
        None => if n.track.len() == 0 {
            None
        } else {
            Some(n.track.last().pos)
        },
    }
}

/// When the position [`last_pos_spec`] gives was recorded.
pub open spec fn last_time_spec<P, T>(n: NodeView<P, T>) -> Option<T> {
    match n.time {
        Some(t) => Some(t),
        None => if n.track.len() == 0 {
            None
        } else {
            Some(n.track.last().time)
        },
    }
}

/// A position report from node `src`, heard at `at`: the signal and the time
/// heard always move and the no-fix flag clears; with a fix the live view
/// moves too, and the track grows when it is the first point or `far`.
pub open spec fn reported<P, T>(
    n: NodeView<P, T>,
    src: u8,
    rssi: i16,
    fix: Option<P>,
    at: T,
    far: bool,
) -> NodeView<P, T> {
    match fix {
        Some(p) => NodeView {
            pos: Some(p),
            time: Some(at),
            rssi,
            track: if n.track.len() == 0 || far {
                n.track.push(TrackPoint { pos: p, source: PointSource::Remote(src), time: at })
            } else {
                n.track
            },
            heard: Some(at),
            no_fix: None,
        },
        None => NodeView {
            pos: n.pos,
            time: n.time,
            rssi,
            track: n.track,
            heard: Some(at),
            no_fix: None,
        },
    }
}

/// A ping from a node with no position to give: the last position stays,
/// flagged as no longer current.
pub open spec fn pinged<P, T>(n: NodeView<P, T>, ping: NodePing, at: T) -> NodeView<P, T> {
    NodeView {
        pos: n.pos,
        time: n.time,
        rssi: ping.rssi,
        track: n.track,
        heard: Some(at),
        no_fix: Some(ping),
    }
}

/// What a board switch leaves of a node: its history and its last signal;
/// the live view and the freshness bookkeeping described the old relay.
pub open spec fn forgotten<P, T>(n: NodeView<P, T>) -> NodeView<P, T> {
    NodeView {
        pos: None,
        time: None,
        rssi: n.rssi,
        track: n.track,
        heard: None,
        no_fix: None,
    }
}

/// A node with its recorded path dropped and its live view kept.
pub open spec fn cleared<P, T>(n: NodeView<P, T>) -> NodeView<P, T> {
    NodeView {
        pos: n.pos,
        time: n.time,
        rssi: n.rssi,
        track: Seq::empty(),
        heard: n.heard,
        no_fix: n.no_fix,
    }
}

impl<P: Copy, T: Copy> RemoteNode<P, T> {
    /// A node as first heard.
    pub fn fresh() -> (r: Self)
        ensures
            r@ == fresh_node::<P, T>(),
    {
        RemoteNode {
            pos: None,
            time: None,
            rssi: 0,
            track: Vec::new(),
            heard: None,
            no_fix: None,
        }
    }

    /// The position to show for this node: the live one, or the newest
    /// recorded point once a board switch has dropped the live view. A node
    /// with any history keeps a visible marker, not just its path.
    pub fn last_pos(&self) -> (r: Option<P>)
        ensures
            r == last_pos_spec(self@),
    {
        match self.pos {
            Some(p) => Some(p),
            None => if self.track.len() == 0 {
                None
            } else {
                Some(self.track[self.track.len() - 1].pos)
            },
        }
    }

    /// When [`Self::last_pos`] was recorded.
    pub fn last_time(&self) -> (r: Option<T>)
        ensures
            r == last_time_spec(self@),
    {
        match self.time {
            Some(t) => Some(t),
            None => if self.track.len() == 0 {
                None
            } else {
                Some(self.track[self.track.len() - 1].time)
            },
        }
    }

    fn report(&mut self, src: u8, rssi: i16, fix: Option<P>, at: T, far: bool)
        ensures
            final(self)@ == reported(old(self)@, src, rssi, fix, at, far),
    {
        self.rssi = rssi;
        self.heard = Some(at);
        self.no_fix = None;
        if let Some(p) = fix {
            self.pos = Some(p);
            self.time = Some(at);
            record_point(&mut self.track, p, PointSource::Remote(src), at, far);
        }
    }

    fn ping(&mut self, ping: NodePing, at: T)
        ensures
            final(self)@ == pinged(old(self)@, ping, at),
    {
        self.rssi = ping.rssi;
        self.heard = Some(at);
        self.no_fix = Some(ping);
    }

    fn forget_live(&mut self)
        ensures
            final(self)@ == forgotten(old(self)@),
    {
        self.pos = None;
        self.time = None;
        self.heard = None;
        self.no_fix = None;
    }

    fn clear_track(&mut self)
        ensures
            final(self)@ == cleared(old(self)@),
    {
        self.track.clear();
    }
}

/// The keys of `m` from `a` up, ascending.
pub open spec fn keys_from<V>(m: Map<u8, V>, a: nat) -> Seq<u8>
    decreases 256 - a,
{
    if a >= 256 {
        Seq::empty()
    } else if m.contains_key(a as u8) {
        seq![a as u8] + keys_from(m, a + 1)
    } else {
        keys_from(m, a + 1)
    }
}

/// The addresses of the relayed nodes, ascending.
pub open spec fn addresses<V>(m: Map<u8, V>) -> Seq<u8> {
    keys_from(m, 0)
}

/// How many points the nodes at `addrs` have recorded between them.
pub open spec fn track_total<P, T>(addrs: Seq<u8>, m: Map<u8, NodeView<P, T>>) -> nat
    decreases addrs.len(),
{
    if addrs.len() == 0 {
        0
    } else {
        track_total(addrs.drop_last(), m) + m[addrs.last()].track.len()
    }
}

proof fn lemma_keys_from_lists<V>(m: Map<u8, V>, a: nat)
    requires
        a <= 256,
    ensures
        forall|k: u8| #[trigger] keys_from(m, a).contains(k) <==> (k >= a && m.contains_key(k)),
    decreases 256 - a,
{
    if a < 256 {
        lemma_keys_from_lists(m, a + 1);
        let rest = keys_from(m, a + 1);
        let here = keys_from(m, a);
        assert forall|k: u8| #[trigger] here.contains(k) <==> (k >= a && m.contains_key(k)) by {
            if m.contains_key(a as u8) {
                assert(here == seq![a as u8] + rest);
                if k == a as u8 {
                    assert(here[0] == k);
                } else {
                    if here.contains(k) {
                        let i = choose|i: int| 0 <= i < here.len() && #[trigger] here[i] == k;
                        assert(i > 0);
                        assert(rest[i - 1] == k);
                        assert(rest.contains(k));
                    }
                    if k >= a && m.contains_key(k) {
                        assert(k >= a + 1);
                        assert(rest.contains(k));
                        let i = choose|i: int| 0 <= i < rest.len() && #[trigger] rest[i] == k;
                        assert(here[i + 1] == k);
                    }
                }
            } else {
                assert(here == rest);
                if k >= a && m.contains_key(k) {
                    assert(k != a as u8);
                    assert(k >= a + 1);
                }
            }
        }
    }
}

proof fn lemma_addresses_list<V>(m: Map<u8, V>)
    ensures
        forall|k: u8| #[trigger] addresses(m).contains(k) <==> m.contains_key(k),
{
    lemma_keys_from_lists(m, 0);
}

proof fn lemma_track_total_prefix<P, T>(q: Seq<u8>, m: Map<u8, NodeView<P, T>>, i: int, j: int)
    requires
        0 <= i <= j <= q.len(),
    ensures
        track_total(q.subrange(0, i), m) <= track_total(q.subrange(0, j), m),
    decreases j - i,
{
    if i < j {
        lemma_track_total_prefix(q, m, i, j - 1);
        assert(q.subrange(0, j).drop_last() =~= q.subrange(0, j - 1));
    }
}

/// The nodes a board has relayed, by address.
pub struct Relays<P, T> {
    nodes: BTreeMap<u8, RemoteNode<P, T>>,
}

impl<P, T> View for Relays<P, T> {
    type V = Map<u8, NodeView<P, T>>;

    closed spec fn view(&self) -> Map<u8, NodeView<P, T>> {
        self.nodes@.map_values(|n: RemoteNode<P, T>| n@)
    }
}

impl<P: Copy, T: Copy> Relays<P, T> {
    /// No node heard yet.
    pub fn new() -> (r: Self)
        ensures
            r@ == Map::<u8, NodeView<P, T>>::empty(),
    {
        let r = Relays { nodes: BTreeMap::new() };
        assert(r@ =~= Map::<u8, NodeView<P, T>>::empty());
        r
    }

    /// Take node `addr` out, or a fresh one when it has not been heard.
    fn take(&mut self, addr: u8) -> (r: RemoteNode<P, T>)
        ensures
            final(self)@ == old(self)@.remove(addr),
            r@ == (if old(self)@.contains_key(addr) {
                old(self)@[addr]
            } else {
                fresh_node()
            }),
    {
        let ghost before = self.nodes@;
        let r = match self.nodes.remove(&addr) {
            Some(n) => n,
            None => RemoteNode::fresh(),
        };
        assert(self@ =~= before.map_values(|n: RemoteNode<P, T>| n@).remove(addr));
        r
    }

    /// Put node `n` in at `addr`.
    fn put(&mut self, addr: u8, n: RemoteNode<P, T>)
        ensures
            final(self)@ == old(self)@.insert(addr, n@),
    {
        let ghost before = self.nodes@;
        self.nodes.insert(addr, n);
        assert(self@ =~= before.map_values(|n: RemoteNode<P, T>| n@).insert(addr, n@));
    }

    /// A position report relayed for node `src`, heard at `at`. The node is
    /// added on its first report; its signal and time heard move and its
    /// no-fix flag clears; with a fix its live view moves, and its track
    /// grows when the fix is its first point or `far` (the fix has moved far
    /// enough from the last point). Every other node stays as it was.
    pub fn report(&mut self, src: u8, rssi: i16, fix: Option<P>, at: T, far: bool)
        ensures
            final(self)@ == old(self)@.insert(
                src,
                reported(
                    if old(self)@.contains_key(src) {
                        old(self)@[src]
                    } else {
                        fresh_node()
                    },
                    src,
                    rssi,
                    fix,
                    at,
                    far,
                ),
            ),
    {
        let ghost before = self@;
        let mut n = self.take(src);
        n.report(src, rssi, fix, at, far);
        self.put(src, n);
        assert(self@ =~= before.insert(src, n@));
    }

    /// A ping from node `src` with no position to give. The node is added on
    /// its first ping; its last position stays, flagged as no longer current.
    /// Every other node stays as it was.
    pub fn ping(&mut self, ping: NodePing, at: T)
        ensures
            final(self)@ == old(self)@.insert(
                ping.src,
                pinged(
                    if old(self)@.contains_key(ping.src) {
                        old(self)@[ping.src]
                    } else {
                        fresh_node()
                    },
                    ping,
                    at,
                ),
            ),
    {
        let ghost before = self@;
        let mut n = self.take(ping.src);
        n.ping(ping, at);
        self.put(ping.src, n);
        assert(self@ =~= before.insert(ping.src, n@));
    }

    /// A board switch: what the old relay could hear is dropped from every
    /// node - its live position, when that was, when it was last heard and
    /// its no-fix flag - and every node's recorded path is kept, so a node
    /// with any history still has a position to show.
    pub fn forget_live(&mut self)
        ensures
            final(self)@ == old(self)@.map_values(|n: NodeView<P, T>| forgotten(n)),
    {
        let ghost m = self@;
        let keys = self.addrs();
        proof {
            lemma_addresses_list(m);
        }
        let mut i: usize = 0;
        while i < keys.len()
            invariant
                keys@ == addresses(m),
                forall|k: u8| #[trigger] keys@.contains(k) <==> m.contains_key(k),
                i <= keys@.len(),
                self@.dom() == m.dom(),
                forall|k: u8|
                    #[trigger] self@.contains_key(k) ==> self@[k] == (if keys@.subrange(
                        0,
                        i as int,
                    ).contains(k) {
                        forgotten(m[k])
                    } else {
                        m[k]
                    }),
            decreases keys@.len() - i,
        {
            let k = keys[i];
            assert(keys@[i as int] == k);
            assert(keys@.contains(k));
            let ghost mid = self@;
            let mut n = self.take(k);
            n.forget_live();
            self.put(k, n);
            assert forall|j: u8| #[trigger] self@.contains_key(j) implies self@[j] == (if keys@.subrange(
                0,
                i + 1,
            ).contains(j) {
                forgotten(m[j])
            } else {
                m[j]
            }) by {
                if j != k {
                    if keys@.subrange(0, i + 1).contains(j) {
                        let x = choose|x: int| 0 <= x < i + 1 && #[trigger] keys@.subrange(0, i + 1)[x] == j;
                        assert(keys@.subrange(0, i as int)[x] == j);
                    }
                    if keys@.subrange(0, i as int).contains(j) {
                        let x = choose|x: int| 0 <= x < i && #[trigger] keys@.subrange(0, i as int)[x] == j;
                        assert(keys@.subrange(0, i + 1)[x] == j);
                    }
                } else {
                    assert(keys@.subrange(0, i + 1)[i as int] == k);
                    assert(mid.contains_key(k));
                }
            }
            assert(self@.dom() =~= m.dom());
            i = i + 1;
        }
        assert forall|k: u8| #[trigger] self@.contains_key(k) implies self@[k] == forgotten(m[k]) by {
            assert(keys@.subrange(0, keys@.len() as int) =~= keys@);
        }
        assert(self@ =~= m.map_values(|n: NodeView<P, T>| forgotten(n)));
    }

    /// Drop every node's recorded path. Not undoable. The live views stay.
    pub fn discard_tracks(&mut self)
        ensures
            final(self)@ == old(self)@.map_values(|n: NodeView<P, T>| cleared(n)),
    {
        let ghost m = self@;
        let keys = self.addrs();
        proof {
            lemma_addresses_list(m);
        }
        let mut i: usize = 0;
        while i < keys.len()
            invariant
                keys@ == addresses(m),
                forall|k: u8| #[trigger] keys@.contains(k) <==> m.contains_key(k),
                i <= keys@.len(),
                self@.dom() == m.dom(),
                forall|k: u8|
                    #[trigger] self@.contains_key(k) ==> self@[k] == (if keys@.subrange(
                        0,
                        i as int,
                    ).contains(k) {
                        cleared(m[k])
                    } else {
                        m[k]
                    }),
            decreases keys@.len() - i,
        {
            let k = keys[i];
            assert(keys@[i as int] == k);
            assert(keys@.contains(k));
            let ghost mid = self@;
            let mut n = self.take(k);
            n.clear_track();
            self.put(k, n);
            assert forall|j: u8| #[trigger] self@.contains_key(j) implies self@[j] == (if keys@.subrange(
                0,
                i + 1,
            ).contains(j) {
                cleared(m[j])
            } else {
                m[j]
            }) by {
                if j != k {
                    if keys@.subrange(0, i + 1).contains(j) {
                        let x = choose|x: int| 0 <= x < i + 1 && #[trigger] keys@.subrange(0, i + 1)[x] == j;
                        assert(keys@.subrange(0, i as int)[x] == j);
                    }
                    if keys@.subrange(0, i as int).contains(j) {
                        let x = choose|x: int| 0 <= x < i && #[trigger] keys@.subrange(0, i as int)[x] == j;
                        assert(keys@.subrange(0, i + 1)[x] == j);
                    }
                } else {
                    assert(keys@.subrange(0, i + 1)[i as int] == k);
                    assert(mid.contains_key(k));
                }
            }
            assert(self@.dom() =~= m.dom());
            i = i + 1;
        }
        assert forall|k: u8| #[trigger] self@.contains_key(k) implies self@[k] == cleared(m[k]) by {
            assert(keys@.subrange(0, keys@.len() as int) =~= keys@);
        }
        assert(self@ =~= m.map_values(|n: NodeView<P, T>| cleared(n)));
    }

    /// Forget node `addr` altogether, history included.
    pub fn remove(&mut self, addr: u8)
        ensures
            final(self)@ == old(self)@.remove(addr),
    {
        let ghost before = self.nodes@;
        self.nodes.remove(&addr);
        assert(self@ =~= before.map_values(|n: RemoteNode<P, T>| n@).remove(addr));
    }

    /// The node at `addr`, if it has been heard.
    pub fn node(&self, addr: u8) -> (r: Option<&RemoteNode<P, T>>)
        ensures
            r is Some == self@.contains_key(addr),
            r matches Some(n) ==> n@ == self@[addr],
    {
        self.nodes.get(&addr)
    }

    /// The addresses of the nodes heard, ascending.
    pub fn addrs(&self) -> (r: Vec<u8>)
        ensures
            r@ == addresses(self@),
    {
        let mut out: Vec<u8> = Vec::new();
        let mut a: u16 = 0;
        while a < 256
            invariant
                a <= 256,
                out@ + keys_from(self@, a as nat) == addresses(self@),
            decreases 256 - a,
        {
            let k: u8 = a as u8;
            let ghost rest = keys_from(self@, (a + 1) as nat);
            if self.nodes.contains_key(&k) {
                out.push(k);
                assert(out@ + rest =~= addresses(self@));
            }
            a = a + 1;
        }
        assert(out@ + keys_from(self@, 256) =~= out@);
        out
    }

    /// Each node in address order, with whether it has a position to point
    /// at: the form the tracking targets are built from.
    pub fn target_inputs(&self) -> (r: Vec<(u8, bool)>)
        ensures
            r@ == addresses(self@).map_values(|a: u8| (a, last_pos_spec(self@[a]) is Some)),
    {
        let keys = self.addrs();
        proof {
            lemma_addresses_list(self@);
        }
        let mut out: Vec<(u8, bool)> = Vec::new();
        let mut i: usize = 0;
        while i < keys.len()
            invariant
                keys@ == addresses(self@),
                forall|k: u8| #[trigger] keys@.contains(k) <==> self@.contains_key(k),
                i <= keys@.len(),
                out@ == keys@.subrange(0, i as int).map_values(
                    |a: u8| (a, last_pos_spec(self@[a]) is Some),
                ),
            decreases keys@.len() - i,
        {
            let k = keys[i];
            assert(keys@.contains(k));
            let has = match self.node(k) {
                Some(n) => n.last_pos().is_some(),
                None => false,
            };
            out.push((k, has));
            assert(out@ =~= keys@.subrange(0, i + 1).map_values(
                |a: u8| (a, last_pos_spec(self@[a]) is Some),
            ));
            i = i + 1;
        }
        assert(keys@.subrange(0, keys@.len() as int) =~= keys@);
        out
    }

    /// The nodes worth listing on the Status page, in address order: those
    /// with a live position or a time last heard. A node with no position is
    /// listed too: a node searching for the sky is a node that is up.
    pub fn listed(&self) -> (r: Vec<u8>)
        ensures
            r@ == addresses(self@).filter(|a: u8| self@[a].pos is Some || self@[a].heard is Some),
    {
        let ghost keep = |a: u8| self@[a].pos is Some || self@[a].heard is Some;
        let keys = self.addrs();
        proof {
            lemma_addresses_list(self@);
        }
        let mut out: Vec<u8> = Vec::new();
        let mut i: usize = 0;
        while i < keys.len()
            invariant
                keys@ == addresses(self@),
                forall|k: u8| #[trigger] keys@.contains(k) <==> self@.contains_key(k),
                i <= keys@.len(),
                keep == (|a: u8| self@[a].pos is Some || self@[a].heard is Some),
                out@ == keys@.subrange(0, i as int).filter(keep),
            decreases keys@.len() - i,
        {
            let k = keys[i];
            assert(keys@.contains(k));
            let worth = match self.node(k) {
                Some(n) => n.pos.is_some() || n.heard.is_some(),
                None => false,
            };
            if worth {
                out.push(k);
            }
            proof {
                assert(keys@.subrange(0, i + 1).drop_last() =~= keys@.subrange(0, i as int));
                reveal(Seq::filter);
                assert(out@ =~= keys@.subrange(0, i + 1).filter(keep));
            }
            i = i + 1;
        }
        assert(keys@.subrange(0, keys@.len() as int) =~= keys@);
        out
    }

    /// How many points the nodes have recorded between them.
    pub fn remote_points(&self) -> (r: usize)
        requires
            track_total(addresses(self@), self@) <= usize::MAX,
        ensures
            r == track_total(addresses(self@), self@),
    {
        let keys = self.addrs();
        proof {
            lemma_addresses_list(self@);
        }
        let ghost q = keys@;
        let mut total: usize = 0;
        let mut i: usize = 0;
        while i < keys.len()
            invariant
                q == keys@,
                q == addresses(self@),
                forall|k: u8| #[trigger] q.contains(k) <==> self@.contains_key(k),
                i <= q.len(),
                track_total(q, self@) <= usize::MAX,
                total == track_total(q.subrange(0, i as int), self@),
            decreases q.len() - i,
        {
            let k = keys[i];
            assert(q.contains(k));
            proof {
                assert(q.subrange(0, i + 1).drop_last() =~= q.subrange(0, i as int));
                lemma_track_total_prefix(q, self@, i + 1, q.len() as int);
                assert(q.subrange(0, q.len() as int) =~= q);
            }
            let len = match self.node(k) {
                Some(n) => n.track.len(),
                None => 0,
            };
            total = total + len;
            i = i + 1;
        }
        assert(q.subrange(0, q.len() as int) =~= q);
        total
    }

    /// Where a marker stands and since when: yours and the connected board's
    /// as given, a node's from its live view or its history; `(None, None)`
    /// for a node no longer kept.
    pub fn marker_fix(
        &self,
        kind: MarkerKind,
        you: (Option<P>, Option<T>),
        beacon: (Option<P>, Option<T>),
    ) -> (r: (Option<P>, Option<T>))
        ensures
            r == (match kind {
                MarkerKind::You => you,
                MarkerKind::Beacon => beacon,
                MarkerKind::Remote(a) => if self@.contains_key(a) {
                    (last_pos_spec(self@[a]), last_time_spec(self@[a]))
                } else {
                    (None, None)
                },
            }),
    {
        match kind {
            MarkerKind::You => you,
            MarkerKind::Beacon => beacon,
            MarkerKind::Remote(a) => match self.node(a) {
                Some(n) => (n.last_pos(), n.last_time()),
                None => (None, None),
            },
        }
    }
}

/// A report with a fix moves a node's marker to that fix, timed when it was
/// heard; a report without one, or a ping, leaves the marker where it was -
/// a ping only flags it as no longer current.
pub proof fn lemma_reports_move_markers<P, T>(
    n: NodeView<P, T>,
    src: u8,
    rssi: i16,
    p: P,
    at: T,
    far: bool,
    ping: NodePing,
)
    ensures
        last_pos_spec(reported(n, src, rssi, Some(p), at, far)) == Some(p),
        last_time_spec(reported(n, src, rssi, Some(p), at, far)) == Some(at),
        last_pos_spec(reported(n, src, rssi, None, at, far)) == last_pos_spec(n),
        last_pos_spec(pinged(n, ping, at)) == last_pos_spec(n),
        last_time_spec(pinged(n, ping, at)) == last_time_spec(n),
        pinged(n, ping, at).no_fix == Some(ping),
        reported(pinged(n, ping, at), src, rssi, Some(p), at, far).no_fix is None,
{
}

/// Every report, with a fix or without, sets the node's signal to the one
/// it was just heard at, marks it heard then, and clears its no-fix flag;
/// a ping likewise takes the ping's signal.
pub proof fn lemma_reports_set_the_signal<P, T>(
    n: NodeView<P, T>,
    src: u8,
    rssi: i16,
    fix: Option<P>,
    at: T,
    far: bool,
    ping: NodePing,
)
    ensures
        reported(n, src, rssi, fix, at, far).rssi == rssi,
        reported(n, src, rssi, fix, at, far).heard == Some(at),
        reported(n, src, rssi, fix, at, far).no_fix.is_none(),
        pinged(n, ping, at).rssi == ping.rssi,
        pinged(n, ping, at).heard == Some(at),
{
}

/// Relayed through the store: after a report for `src`, that node reads the
/// report's signal whatever it read before, and every other node is as it
/// was.
pub proof fn lemma_the_store_takes_the_signal<P, T>(
    m: Map<u8, NodeView<P, T>>,
    src: u8,
    rssi: i16,
    fix: Option<P>,
    at: T,
    far: bool,
    other: u8,
)
    ensures
        ({
            let n = if m.contains_key(src) {
                m[src]
            } else {
                fresh_node()
            };
            let after = m.insert(src, reported(n, src, rssi, fix, at, far));
            &&& after[src].rssi == rssi
            &&& other != src ==> (after.contains_key(other) == m.contains_key(other))
            &&& other != src && m.contains_key(other) ==> after[other] == m[other]
        }),
{
}

/// A board switch keeps every node and its whole recorded path: a node with
/// any history still shows its newest recorded point, and one with none
/// shows nothing until it is heard again.
pub proof fn lemma_switch_keeps_history<P, T>(m: Map<u8, NodeView<P, T>>, a: u8)
    requires
        m.contains_key(a),
    ensures
        m.map_values(|n: NodeView<P, T>| forgotten(n)).dom() == m.dom(),
        m.map_values(|n: NodeView<P, T>| forgotten(n))[a].track == m[a].track,
        last_pos_spec(m.map_values(|n: NodeView<P, T>| forgotten(n))[a]) == (if m[a].track.len()
            == 0 {
            None
        } else {
            Some(m[a].track.last().pos)
        }),
{
    assert(m.map_values(|n: NodeView<P, T>| forgotten(n)).dom() =~= m.dom());
}

/// A fix that was recorded survives a board switch: after the switch the
/// node's marker still stands where that fix put it.
pub proof fn lemma_recorded_fix_survives_switch<P, T>(
    n: NodeView<P, T>,
    src: u8,
    rssi: i16,
    p: P,
    at: T,
    far: bool,
)
    requires
        n.track.len() == 0 || far,
    ensures
        last_pos_spec(forgotten(reported(n, src, rssi, Some(p), at, far))) == Some(p),
        last_time_spec(forgotten(reported(n, src, rssi, Some(p), at, far))) == Some(at),
{
}

/// Discarding the tracks keeps every node and its live view: a node's
/// marker then stands only where its live position puts it.
pub proof fn lemma_discard_keeps_live_view<P, T>(m: Map<u8, NodeView<P, T>>, a: u8)
    requires
        m.contains_key(a),
    ensures
        m.map_values(|n: NodeView<P, T>| cleared(n)).dom() == m.dom(),
        m.map_values(|n: NodeView<P, T>| cleared(n))[a].track.len() == 0,
        last_pos_spec(m.map_values(|n: NodeView<P, T>| cleared(n))[a]) == m[a].pos,
        m.map_values(|n: NodeView<P, T>| cleared(n))[a].heard == m[a].heard,
{
    assert(m.map_values(|n: NodeView<P, T>| cleared(n)).dom() =~= m.dom());
}

/// Your track and the connected board's; the relayed nodes' tracks are
/// kept with the nodes.
pub struct Tracks<P, T> {
    pub yours: Vec<TrackPoint<P, T>>,
    pub board: Vec<TrackPoint<P, T>>,
}

impl<P: Copy, T: Copy> Tracks<P, T> {
    /// Nothing recorded yet.
    pub fn new() -> (r: Self)
        ensures
            r.yours@.len() == 0,
            r.board@.len() == 0,
    {
        Tracks { yours: Vec::new(), board: Vec::new() }
    }

    /// How many points are recorded across every track: yours, the board's
    /// and those of the nodes in `relays`.
    pub fn recorded_points(&self, relays: &Relays<P, T>) -> (r: usize)
        requires
            self.yours@.len() + self.board@.len() + track_total(addresses(relays@), relays@)
                <= usize::MAX,
        ensures
            r == self.yours@.len() + self.board@.len() + track_total(addresses(relays@), relays@),
    {
        let remote = relays.remote_points();
        self.yours.len() + self.board.len() + remote
    }

    /// Drop every recorded track, the nodes' in `relays` included. Not
    /// undoable. Live positions stay.
    pub fn discard(&mut self, relays: &mut Relays<P, T>)
        ensures
            final(self).yours@.len() == 0,
            final(self).board@.len() == 0,
            final(relays)@ == old(relays)@.map_values(|n: NodeView<P, T>| cleared(n)),
    {
        self.yours.clear();
        self.board.clear();
        relays.discard_tracks();
    }
}

} // verus!
