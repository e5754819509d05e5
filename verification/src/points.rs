//! The recorded points' sources, and the Points page's filter over them.

use vstd::prelude::*;

verus! {

/// Where a recorded point came from.
#[derive(Clone, Copy, Debug, PartialEq, Eq, Structural)]
pub enum PointSource {
    /// This phone's own receiver (or a typed-in position).
    Phone,
    /// The connected board's GPS.
    Esp,
    /// A remote LoRa node, by its address.
    Remote(u8),
}

/// Source filter on the points page.
#[derive(Clone, Copy, Debug, PartialEq, Eq, Structural)]
pub enum PointFilter {
    All,
    Phone,
    Esp,
    /// Any remote LoRa node, whatever its address.
    Remote,
}

impl PointFilter {
    /// Whether a point from `source` passes the filter.
    pub open spec fn admits_spec(self, source: PointSource) -> bool {
        match self {
            PointFilter::All => true,
            PointFilter::Phone => source == PointSource::Phone,
            PointFilter::Esp => source == PointSource::Esp,
            PointFilter::Remote => source is Remote,
        }
    }

    /// Whether a point from `source` passes the filter. `Remote` admits every
    /// address, since the filter is "any node" rather than a particular one.
    pub fn admits(self, source: PointSource) -> (r: bool)
        ensures
            r == self.admits_spec(source),
    {
        match self {
            PointFilter::All => true,
            PointFilter::Phone => source == PointSource::Phone,
            PointFilter::Esp => source == PointSource::Esp,
            PointFilter::Remote => match source {
                PointSource::Remote(_) => true,
                _ => false,
            },
        }
    }
}

/// Every source passes exactly the filters meant for it: `All`, and the one
/// filter that names its kind.
pub proof fn lemma_filter_partitions_sources(source: PointSource)
    ensures
        PointFilter::All.admits_spec(source),
        PointFilter::Phone.admits_spec(source) == (source == PointSource::Phone),
        PointFilter::Esp.admits_spec(source) == (source == PointSource::Esp),
        PointFilter::Remote.admits_spec(source) == (source is Remote),
        (PointFilter::Phone.admits_spec(source) as int) + (PointFilter::Esp.admits_spec(source) as int)
            + (PointFilter::Remote.admits_spec(source) as int) == 1,
{
}

/// A recorded point as the Points page lists it: where it came from, when
/// (an order-preserving count of the wall clock, larger is later), and its
/// position as the app keeps it.
#[derive(Clone, Copy, Debug)]
pub struct Recorded<P> {
    pub source: PointSource,
    pub time: i128,
    pub pos: P,
}

/// The points the filter admits, in their order.
pub open spec fn admitted<P>(s: Seq<Recorded<P>>, filter: PointFilter) -> Seq<Recorded<P>>
    decreases s.len(),
{
    if s.len() == 0 {
        Seq::empty()
    } else {
        let rest = admitted(s.drop_last(), filter);
        if filter.admits_spec(s.last().source) { rest.push(s.last()) } else { rest }
    }
}

/// `x` placed before the first point recorded earlier than it, so it
/// follows every point at least as new.
pub open spec fn insert_newest_first<P>(s: Seq<Recorded<P>>, x: Recorded<P>) -> Seq<Recorded<P>>
    decreases s.len(),
{
    if s.len() == 0 {
        seq![x]
    } else if s[0].time >= x.time {
        seq![s[0]] + insert_newest_first(s.drop_first(), x)
    } else {
        seq![x] + s
    }
}

/// `s` newest first; points recorded at the same time keep their order.
pub open spec fn newest_first<P>(s: Seq<Recorded<P>>) -> Seq<Recorded<P>>
    decreases s.len(),
{
    if s.len() == 0 {
        Seq::empty()
    } else {
        insert_newest_first(newest_first(s.drop_last()), s.last())
    }
}

/// The first place in `s` whose point is older than `t`, or its length.
pub open spec fn first_older<P>(s: Seq<Recorded<P>>, t: i128) -> int
    decreases s.len(),
{
    if s.len() == 0 {
        0
    } else if s[0].time < t {
        0
    } else {
        first_older(s.drop_first(), t) + 1
    }
}

proof fn lemma_insert_at_first_older<P>(s: Seq<Recorded<P>>, x: Recorded<P>)
    ensures
        0 <= first_older(s, x.time) <= s.len(),
        forall|j: int| 0 <= j < first_older(s, x.time) ==> s[j].time >= x.time,
        first_older(s, x.time) < s.len() ==> s[first_older(s, x.time)].time < x.time,
        insert_newest_first(s, x) == s.insert(first_older(s, x.time), x),
    decreases s.len(),
{
    if s.len() > 0 && s[0].time >= x.time {
        let t = s.drop_first();
        lemma_insert_at_first_older(t, x);
        assert forall|j: int| 0 <= j < first_older(s, x.time) implies s[j].time >= x.time by {
            if j > 0 {
                assert(s[j] == t[j - 1]);
            }
        }
        assert(seq![s[0]] + t.insert(first_older(t, x.time), x) =~= s.insert(
            first_older(s, x.time),
            x,
        ));
    } else if s.len() > 0 {
        assert(seq![x] + s =~= s.insert(0, x));
    } else {
        assert(seq![x] =~= s.insert(0, x));
    }
}

/// A point placed newest first at the place found by scanning for the first
/// older point: the place is that first older point's.
proof fn lemma_first_older_is_scan<P>(s: Seq<Recorded<P>>, t: i128, k: int)
    requires
        0 <= k <= s.len(),
        forall|j: int| 0 <= j < k ==> s[j].time >= t,
        k < s.len() ==> s[k].time < t,
    ensures
        first_older(s, t) == k,
    decreases k,
{
    if k > 0 {
        let d = s.drop_first();
        assert forall|j: int| 0 <= j < k - 1 implies d[j].time >= t by {
            assert(d[j] == s[j + 1]);
        }
        if k - 1 < d.len() {
            assert(d[k - 1] == s[k]);
        }
        lemma_first_older_is_scan(d, t, k - 1);
    }
}

/// Every recorded point the Points page should list: those the source filter
/// admits, newest first, points recorded at the same time in the order they
/// were given. The search box is matched by the app beforehand, since a
/// point's words are its own.
pub fn visible_points<P: Copy>(points: &Vec<Recorded<P>>, filter: PointFilter) -> (r: Vec<
    Recorded<P>,
>)
    ensures
        r@ == newest_first(admitted(points@, filter)),
{
    let mut kept: Vec<Recorded<P>> = Vec::new();
    let mut i: usize = 0;
    while i < points.len()
        invariant
            i <= points.len(),
            kept@ == admitted(points@.subrange(0, i as int), filter),
        decreases points.len() - i,
    {
        let p = points[i];
        assert(points@.subrange(0, i + 1).drop_last() =~= points@.subrange(0, i as int));
        if filter.admits(p.source) {
            kept.push(p);
        }
        i = i + 1;
    }
    assert(points@.subrange(0, points.len() as int) =~= points@);
    let mut out: Vec<Recorded<P>> = Vec::new();
    let mut n: usize = 0;
    while n < kept.len()
        invariant
            n <= kept.len(),
            out@ == newest_first(kept@.subrange(0, n as int)),
            out@.len() == n,
        decreases kept.len() - n,
    {
        let x = kept[n];
        let mut k: usize = 0;
        while k < out.len() && out[k].time >= x.time
            invariant
                k <= out.len(),
                forall|j: int| 0 <= j < k ==> out@[j].time >= x.time,
            decreases out.len() - k,
        {
            k = k + 1;
        }
        proof {
            lemma_first_older_is_scan(out@, x.time, k as int);
            lemma_insert_at_first_older(out@, x);
            let pre = kept@.subrange(0, n + 1);
            assert(pre.drop_last() =~= kept@.subrange(0, n as int));
            assert(pre.last() == x);
            lemma_insert_len(newest_first(kept@.subrange(0, n as int)), x);
        }
        out.insert(k, x);
        n = n + 1;
    }
    assert(kept@.subrange(0, kept.len() as int) =~= kept@);
    out
}

proof fn lemma_insert_len<P>(s: Seq<Recorded<P>>, x: Recorded<P>)
    ensures
        insert_newest_first(s, x).len() == s.len() + 1,
    decreases s.len(),
{
    if s.len() > 0 && s[0].time >= x.time {
        lemma_insert_len(s.drop_first(), x);
    }
}

/// The list the Points page shows is newest first: no point is listed ahead
/// of a newer one.
pub proof fn lemma_newest_first_is_sorted<P>(s: Seq<Recorded<P>>)
    ensures
        forall|i: int, j: int|
            0 <= i < j < newest_first(s).len() ==> newest_first(s)[i].time >= newest_first(
                s,
            )[j].time,
        newest_first(s).len() == s.len(),
    decreases s.len(),
{
    if s.len() > 0 {
        let t = newest_first(s.drop_last());
        lemma_newest_first_is_sorted(s.drop_last());
        lemma_insert_keeps_sorted(t, s.last());
        lemma_insert_len(t, s.last());
    }
}

proof fn lemma_insert_keeps_sorted<P>(s: Seq<Recorded<P>>, x: Recorded<P>)
    requires
        forall|i: int, j: int| 0 <= i < j < s.len() ==> s[i].time >= s[j].time,
    ensures
        forall|i: int, j: int|
            0 <= i < j < insert_newest_first(s, x).len() ==> insert_newest_first(s, x)[i].time
                >= insert_newest_first(s, x)[j].time,
{
    lemma_insert_at_first_older(s, x);
    let k = first_older(s, x.time);
    let u = s.insert(k, x);
    assert forall|i: int, j: int| 0 <= i < j < u.len() implies u[i].time >= u[j].time by {
        if j < k {
            assert(u[i] == s[i] && u[j] == s[j]);
        } else if j == k {
            assert(u[i] == s[i]);
        } else if i < k {
            assert(u[i] == s[i] && u[j] == s[j - 1]);
            if i < j - 1 {
            }
        } else if i == k {
            assert(u[j] == s[j - 1]);
            assert(s[k].time < x.time);
            if j - 1 > k {
                assert(s[k].time >= s[j - 1].time);
            }
        } else {
            assert(u[i] == s[i - 1] && u[j] == s[j - 1]);
        }
    }
}

/// Sorting loses and invents nothing: the list holds exactly the points it
/// was given, each as often as it was given.
pub proof fn lemma_newest_first_keeps_every_point<P>(s: Seq<Recorded<P>>)
    ensures
        newest_first(s).to_multiset() == s.to_multiset(),
    decreases s.len(),
{
    if s.len() > 0 {
        let init = s.drop_last();
        lemma_newest_first_keeps_every_point(init);
        let t = newest_first(init);
        lemma_insert_at_first_older(t, s.last());
        vstd::seq_lib::to_multiset_insert(t, first_older(t, s.last().time), s.last());
        vstd::seq_lib::to_multiset_build(init, s.last());
        assert(init.push(s.last()) =~= s);
    } else {
        assert(s =~= Seq::<Recorded<P>>::empty());
    }
}

} // verus!
