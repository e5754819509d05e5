//! The sentences that take a value: the lines under the board's settings,
//! the recorder's state, and the preset labels a duration dropdown shows.

use vstd::prelude::*;
use crate::fmt::{dec, push_dec, push_str};
use crate::durations::{secs_text, secs_text_spec};

verus! {

/// What disconnecting will start, for a node with sleep switched on.
pub open spec fn will_sleep_spec(interval_s: u32, window_s: u32) -> Seq<char> {
    "On disconnect it sleeps, waking every "@ + secs_text_spec(interval_s as nat)
        + " to advertise for "@ + secs_text_spec(window_s as nat) + "."@
}

/// What disconnecting will start, for a node with sleep switched on.
pub fn will_sleep(interval_s: u32, window_s: u32) -> (r: String)
    ensures
        r@ == will_sleep_spec(interval_s, window_s),
{
    let mut out = String::new();
    push_str(&mut out, "On disconnect it sleeps, waking every ");
    let a = secs_text(interval_s);
    push_str(&mut out, a.as_str());
    push_str(&mut out, " to advertise for ");
    let b = secs_text(window_s);
    push_str(&mut out, b.as_str());
    push_str(&mut out, ".");
    assert(out@ =~= will_sleep_spec(interval_s, window_s));
    out
}

/// What a name may be, for the box it is typed in.
pub open spec fn board_name_hover_spec(max: usize) -> Seq<char> {
    "Up to "@ + dec(max as nat) + " letters, digits, - or _"@
}

/// What a name may be, for the box it is typed in.
pub fn board_name_hover(max: usize) -> (r: String)
    ensures
        r@ == board_name_hover_spec(max),
{
    let mut out = String::new();
    push_str(&mut out, "Up to ");
    push_dec(&mut out, max as u64);
    push_str(&mut out, " letters, digits, - or _");
    assert(out@ =~= board_name_hover_spec(max));
    out
}

/// `head`, the range `min - max` in duration words, and `tail`.
pub open spec fn ranged_spec(head: Seq<char>, min_s: u32, max_s: u32, tail: Seq<char>) -> Seq<
    char,
> {
    head + secs_text_spec(min_s as nat) + " - "@ + secs_text_spec(max_s as nat) + tail
}

/// `head`, the range `min - max` in duration words, and `tail`.
fn ranged(head: &str, min_s: u32, max_s: u32, tail: &str) -> (r: String)
    ensures
        r@ == ranged_spec(head@, min_s, max_s, tail@),
{
    let mut out = String::new();
    push_str(&mut out, head);
    let a = secs_text(min_s);
    push_str(&mut out, a.as_str());
    push_str(&mut out, " - ");
    let b = secs_text(max_s);
    push_str(&mut out, b.as_str());
    push_str(&mut out, tail);
    assert(out@ =~= ranged_spec(head@, min_s, max_s, tail@));
    out
}

/// What the idle timeout does, and the range it is clamped to.
pub fn idle_timeout(min_s: u32, max_s: u32) -> (r: String)
    ensures
        r@ == ranged_spec(
            "How long idle lasts before the node stores itself. Off keeps it idle. "@,
            min_s,
            max_s,
            ", and needs a wake check set."@,
        ),
{
    ranged(
        "How long idle lasts before the node stores itself. Off keeps it idle. ",
        min_s,
        max_s,
        ", and needs a wake check set.",
    )
}

/// What the wake check does, and the range the node will clamp it to.
pub fn wake_check(min_s: u32, max_s: u32) -> (r: String)
    ensures
        r@ == ranged_spec("How often a stored node wakes. 0 never. "@, min_s, max_s, "."@),
{
    ranged("How often a stored node wakes. 0 never. ", min_s, max_s, ".")
}

/// What the advertising window does, and the range it is clamped to.
pub fn adv_window(min_s: u32, max_s: u32) -> (r: String)
    ensures
        r@ == ranged_spec("How long each wake check advertises. "@, min_s, max_s, "."@),
{
    ranged("How long each wake check advertises. ", min_s, max_s, ".")
}

/// What the BLE on period does, and the range it is clamped to.
pub fn ble_on(min_s: u32, max_s: u32) -> (r: String)
    ensures
        r@ == ranged_spec(
            "How long BLE stays up between off periods while tracking. "@,
            min_s,
            max_s,
            "."@,
        ),
{
    ranged("How long BLE stays up between off periods while tracking. ", min_s, max_s, ".")
}

/// What the BLE off period does, and the range it is clamped to.
pub fn ble_off(min_s: u32, max_s: u32) -> (r: String)
    ensures
        r@ == ranged_spec(
            "How long BLE is down between on periods while tracking. Still beaconing. "@,
            min_s,
            max_s,
            "."@,
        ),
{
    ranged(
        "How long BLE is down between on periods while tracking. Still beaconing. ",
        min_s,
        max_s,
        ".",
    )
}

/// What "Sleep now" does, and the range it is clamped to.
pub fn sleep_now(min_s: u32, max_s: u32) -> (r: String)
    ensures
        r@ == ranged_spec("A one-off. "@, min_s, max_s, "."@),
{
    ranged("A one-off. ", min_s, max_s, ".")
}

/// Two firmware behaviors that otherwise read as the node ignoring the
/// advertising window.
pub open spec fn adv_window_note_spec(linger_s: u32) -> Seq<char> {
    "Takes effect at the next wake; after a disconnect it advertises "@ + secs_text_spec(
        linger_s as nat,
    ) + " regardless."@
}

/// Two firmware behaviors that otherwise read as the node ignoring the
/// advertising window.
pub fn adv_window_note(linger_s: u32) -> (r: String)
    ensures
        r@ == adv_window_note_spec(linger_s),
{
    let mut out = String::new();
    push_str(&mut out, "Takes effect at the next wake; after a disconnect it advertises ");
    let a = secs_text(linger_s);
    push_str(&mut out, a.as_str());
    push_str(&mut out, " regardless.");
    assert(out@ =~= adv_window_note_spec(linger_s));
    out
}

/// Rows that have scrolled off the graph but are still in the file.
pub open spec fn dropped_spec(rows: usize) -> Seq<char> {
    "The oldest "@ + dec(rows as nat) + " rows are off the graph; they are still in the file."@
}

/// Rows that have scrolled off the graph but are still in the file.
pub fn dropped(rows: usize) -> (r: String)
    ensures
        r@ == dropped_spec(rows),
{
    let mut out = String::new();
    push_str(&mut out, "The oldest ");
    push_dec(&mut out, rows as u64);
    push_str(&mut out, " rows are off the graph; they are still in the file.");
    assert(out@ =~= dropped_spec(rows));
    out
}

/// Where the recorder is up to.
pub open spec fn state_spec(recording: bool, running_for: Option<Seq<char>>, written: usize) -> Seq<
    char,
> {
    if !recording {
        if written == 0 {
            "Not recording"@
        } else {
            "Stopped after "@ + dec(written as nat) + " rows"@
        }
    } else {
        match running_for {
            Some(age) => "Recording for "@ + age + " - "@ + dec(written as nat) + " rows written"@,
            None => "Recording - "@ + dec(written as nat) + " rows written"@,
        }
    }
}

/// Where the recorder is up to: running and for how long, paused after a
/// run, or never started. `running_for` is how long the run has lasted, in
/// the points list's age words, when its start is known.
pub fn state(recording: bool, running_for: Option<&str>, written: usize) -> (r: String)
    ensures
        r@ == state_spec(
            recording,
            match running_for {
                Some(a) => Some(a@),
                None => None,
            },
            written,
        ),
{
    let mut out = String::new();
    if !recording {
        if written == 0 {
            push_str(&mut out, "Not recording");
        } else {
            push_str(&mut out, "Stopped after ");
            push_dec(&mut out, written as u64);
            push_str(&mut out, " rows");
        }
    } else {
        match running_for {
            Some(age) => {
                push_str(&mut out, "Recording for ");
                push_str(&mut out, age);
                push_str(&mut out, " - ");
            },
            None => {
                push_str(&mut out, "Recording - ");
            },
        }
        push_dec(&mut out, written as u64);
        push_str(&mut out, " rows written");
    }
    assert(out@ =~= state_spec(
        recording,
        match running_for {
            Some(a) => Some(a@),
            None => None,
        },
        written,
    ));
    out
}

/// Where the position the app is using as yours came from.
#[derive(Clone, Copy, Debug, PartialEq, Eq, Structural)]
pub enum LocationSource {
    /// The phone's own receiver.
    Phone,
    /// The connected node's receiver.
    Node,
    /// Typed in.
    Manual,
}

/// Where the position came from, for the line under it.
pub fn source(from: LocationSource) -> (r: &'static str)
    ensures
        r@ == match from {
            LocationSource::Phone => "From this phone's receiver."@,
            LocationSource::Node => "From the connected node's receiver."@,
            LocationSource::Manual => "Typed in."@,
        },
{
    match from {
        LocationSource::Phone => "From this phone's receiver.",
        LocationSource::Node => "From the connected node's receiver.",
        LocationSource::Manual => "Typed in.",
    }
}

/// The mode a node reports itself in.
#[derive(Clone, Copy, Debug, PartialEq, Eq, Structural)]
pub enum NodeMode {
    /// Everything down; wakes on the cadence to advertise.
    Stored,
    /// Reachable, GPS in backup, radio down.
    Idle,
    /// GPS, beacon and logging up.
    Tracking,
    /// GPS and receiver up, nothing sent.
    Listening,
}

/// What each mode is doing, for the line under the mode buttons: the
/// node's own reported mode, not the button that was last pressed.
pub fn mode_state(mode: NodeMode) -> (r: &'static str)
    ensures
        r@ == match mode {
            NodeMode::Stored => "Node: stored. Awake for this wake check only."@,
            NodeMode::Idle => "Node: idle. Reachable, GPS in backup, radio asleep."@,
            NodeMode::Tracking => "Node: tracking. GPS, beacon and logging up."@,
            NodeMode::Listening => "Node: listening. GPS and receiver up, nothing sent."@,
        },
{
    match mode {
        NodeMode::Stored => "Node: stored. Awake for this wake check only.",
        NodeMode::Idle => "Node: idle. Reachable, GPS in backup, radio asleep.",
        NodeMode::Tracking => "Node: tracking. GPS, beacon and logging up.",
        NodeMode::Listening => "Node: listening. GPS and receiver up, nothing sent.",
    }
}

/// Where a node's hop clock comes from: its own GPS, a clock nothing has
/// set yet, or a stratum in between.
#[derive(Clone, Copy, Debug, PartialEq, Eq, Structural)]
pub enum HopClock {
    /// Stratum zero: the node's own GPS.
    Gps,
    /// The ceiling: a clock nothing has set.
    Unsynced,
    /// Set from a neighbour this many steps from a GPS.
    Stratum(u8),
}

/// Where the node's hop clock comes from, in words.
pub fn hop_clock_text(clock: HopClock) -> (r: String)
    ensures
        r@ == match clock {
            HopClock::Gps => "GPS clock"@,
            HopClock::Unsynced => "not synced"@,
            HopClock::Stratum(s) => "stratum "@ + dec(s as nat),
        },
{
    let mut out = String::new();
    match clock {
        HopClock::Gps => push_str(&mut out, "GPS clock"),
        HopClock::Unsynced => push_str(&mut out, "not synced"),
        HopClock::Stratum(s) => {
            push_str(&mut out, "stratum ");
            push_dec(&mut out, s as u64);
        },
    }
    assert(out@ =~= match clock {
        HopClock::Gps => "GPS clock"@,
        HopClock::Unsynced => "not synced"@,
        HopClock::Stratum(s) => "stratum "@ + dec(s as nat),
    });
    out
}

/// A row of preset labels for a list of seconds: each value's own spelling
/// (what the text box holds) beside its duration words, so every page spells
/// "5 min" the same way.
pub fn secs_presets(secs: &[u32]) -> (r: Vec<(String, String)>)
    ensures
        r.len() == secs.len(),
        forall|i: int|
            0 <= i < secs.len() ==> #[trigger] r[i].0@ == dec(secs[i] as nat) && r[i].1@
                == secs_text_spec(secs[i] as nat),
{
    let mut out: Vec<(String, String)> = Vec::new();
    let mut i: usize = 0;
    while i < secs.len()
        invariant
            i <= secs.len(),
            out.len() == i,
            forall|k: int|
                0 <= k < i ==> #[trigger] out[k].0@ == dec(secs[k] as nat) && out[k].1@
                    == secs_text_spec(secs[k] as nat),
        decreases secs.len() - i,
    {
        let s = secs[i];
        let value = crate::fmt::dec_string(s as u64);
        let words = secs_text(s);
        out.push((value, words));
        i = i + 1;
    }
    out
}

/// An axis name with its unit, where it has one: a statistic's label, and
/// its unit in brackets unless it is unitless.
pub fn axis_caption(label: &str, unit: &str) -> (r: String)
    ensures
        r@ == if unit@.len() == 0 { label@ } else { label@ + " ("@ + unit@ + ")"@ },
{
    let mut out = String::new();
    push_str(&mut out, label);
    if unit.unicode_len() > 0 {
        push_str(&mut out, " (");
        push_str(&mut out, unit);
        push_str(&mut out, ")");
    }
    out
}

} // verus!
