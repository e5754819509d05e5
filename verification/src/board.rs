//! What a board says, and how the app words it: why a node has no fix, and
//! what became of a setting the app asked the board to store.

use vstd::prelude::*;
use crate::fmt::{dec, push_dec, push_str};
use crate::durations::{secs_text, secs_text_spec, uptime_text, uptime_text_spec};

verus! {

/// A node on the air with no position to give, as relayed by the connected
/// board: its address, the signal it came in at, and what its receiver is
/// doing.
#[derive(Clone, Copy, Debug, PartialEq, Eq, Structural)]
pub struct NodePing {
    /// The node's LoRa address.
    pub src: u8,
    /// The signal the relay heard the ping at, in dBm.
    pub rssi: i16,
    /// How long the node has been up, in seconds (saturating).
    pub uptime_s: u16,
    /// The node's GPS module is talking at all.
    pub gps_present: bool,
    /// The node has had a fix at some point since it booted.
    pub had_fix: bool,
    /// How long ago the relay heard the ping, in seconds.
    pub age_s: u16,
}

/// What [`ping_reason`] says.
pub open spec fn ping_reason_spec(ping: NodePing) -> Seq<char> {
    if !ping.gps_present {
        "gps silent"@
    } else if ping.had_fix {
        "searching, up "@ + uptime_text_spec(ping.uptime_s as nat)
    } else {
        "no fix since boot, up "@ + uptime_text_spec(ping.uptime_s as nat)
    }
}

/// What a ping says about why the node has no position: a silent module is
/// a power or wiring answer, a searching one is a sky answer.
pub fn ping_reason(ping: NodePing) -> (r: String)
    ensures
        r@ == ping_reason_spec(ping),
{
    if !ping.gps_present {
        let mut out = String::new();
        push_str(&mut out, "gps silent");
        assert(out@ =~= ping_reason_spec(ping));
        out
    } else {
        let mut out = String::new();
        if ping.had_fix {
            push_str(&mut out, "searching, up ");
        } else {
            push_str(&mut out, "no fix since boot, up ");
        }
        let up = uptime_text(ping.uptime_s);
        push_str(&mut out, up.as_str());
        assert(out@ =~= ping_reason_spec(ping));
        out
    }
}

/// Which board setting a config write or its ack is about.
#[derive(Clone, Copy, Debug, PartialEq, Eq, Structural)]
pub enum SettingId {
    /// How often the board notifies its position, in milliseconds.
    NotifyInterval,
    /// The GPS/LoRa power rail.
    PwrEn,
    /// The WIO-E5 radio's sleep.
    WioSleep,
    /// The GPS module's backup mode.
    GpsSleep,
    /// How often a sleeping board wakes to check in, in seconds.
    EspSleep,
    /// How long each wake advertises, in seconds.
    AdvWindow,
    /// Sleep now, for a number of seconds.
    SleepNow,
    /// A setting this app has no name for, by its wire id.
    Other(u8),
}

/// How the board answered a config write.
#[derive(Clone, Copy, Debug, PartialEq, Eq, Structural)]
pub enum AckStatus {
    /// Stored (for the numeric settings, the value it took is in the ack).
    Accepted,
    /// The board does not know the setting.
    UnknownId,
    /// The board refused the value.
    BadValue,
    /// The board could not reach the WIO-E5 over its UART (link error).
    WioError,
    /// The board could not reach the WIO-E5 over its UART (no reply).
    WioTimeout,
    /// Not valid in the state the board is in.
    BadState,
    /// A status this app has no word for, by its wire value.
    Other(u8),
}

/// The board's answer to one config write.
#[derive(Clone, Copy, Debug, PartialEq, Eq, Structural)]
pub struct Ack {
    pub id: SettingId,
    pub status: AckStatus,
    /// The value the board applied, for the settings that carry one.
    pub value_u32: Option<u32>,
}

/// What [`setting_name`] calls a setting.
pub open spec fn setting_name_spec(id: SettingId) -> Seq<char> {
    match id {
        SettingId::NotifyInterval => "notify interval"@,
        SettingId::PwrEn => "GPS/LoRa power"@,
        SettingId::WioSleep => "WIO-E5 sleep"@,
        SettingId::GpsSleep => "GPS backup mode"@,
        SettingId::EspSleep => "wake-check interval"@,
        SettingId::AdvWindow => "advertising window"@,
        SettingId::SleepNow => "sleep now"@,
        SettingId::Other(_) => "setting"@,
    }
}

/// The name of a config setting, for the ack line.
pub fn setting_name(id: SettingId) -> (r: &'static str)
    ensures
        r@ == setting_name_spec(id),
{
    match id {
        SettingId::NotifyInterval => "notify interval",
        SettingId::PwrEn => "GPS/LoRa power",
        SettingId::WioSleep => "WIO-E5 sleep",
        SettingId::GpsSleep => "GPS backup mode",
        SettingId::EspSleep => "wake-check interval",
        SettingId::AdvWindow => "advertising window",
        SettingId::SleepNow => "sleep now",
        SettingId::Other(_) => "setting",
    }
}

/// A lowercase hexadecimal digit.
pub open spec fn hex_digit(d: nat) -> char {
    let d = d % 16;
    if d < 10 { crate::fmt::digit(d) }
    else if d == 10 { 'a' }
    else if d == 11 { 'b' }
    else if d == 12 { 'c' }
    else if d == 13 { 'd' }
    else if d == 14 { 'e' }
    else { 'f' }
}

/// A byte as `0x` and two lowercase hex digits.
pub open spec fn hex_byte(b: u8) -> Seq<char> {
    seq!['0', 'x', hex_digit(b as nat / 16), hex_digit(b as nat % 16)]
}

fn push_hex_digit(s: &mut String, d: u8)
    requires
        d < 16,
    ensures
        final(s)@ == old(s)@.push(hex_digit(d as nat)),
{
    if d < 10 {
        crate::fmt::push_digit(s, d as u64);
    } else {
        let lit: &str = if d == 10 {
            proof { reveal_strlit("a"); }
            "a"
        } else if d == 11 {
            proof { reveal_strlit("b"); }
            "b"
        } else if d == 12 {
            proof { reveal_strlit("c"); }
            "c"
        } else if d == 13 {
            proof { reveal_strlit("d"); }
            "d"
        } else if d == 14 {
            proof { reveal_strlit("e"); }
            "e"
        } else {
            proof { reveal_strlit("f"); }
            "f"
        };
        assert(lit@ =~= seq![hex_digit(d as nat)]);
        s.append(lit);
        assert(final(s)@ =~= old(s)@.push(hex_digit(d as nat)));
    }
}

/// Append a byte as `0x` and two lowercase hex digits.
pub fn push_hex_byte(s: &mut String, b: u8)
    ensures
        final(s)@ == old(s)@ + hex_byte(b),
{
    proof { reveal_strlit("0x"); }
    push_str(s, "0x");
    push_hex_digit(s, b / 16);
    push_hex_digit(s, b % 16);
    assert(final(s)@ =~= old(s)@ + hex_byte(b));
}

/// What [`ack_message`] says about an ack.
pub open spec fn ack_message_spec(ack: Ack) -> Result<Seq<char>, Seq<char>> {
    let name = setting_name_spec(ack.id);
    let applied: nat = match ack.value_u32 {
        Some(v) => v as nat,
        None => 0,
    };
    match ack.status {
        AckStatus::Accepted => Ok(
            match ack.id {
                SettingId::NotifyInterval => "Board applied: notify interval "@ + dec(applied)
                    + " ms"@,
                SettingId::EspSleep => if applied == 0 {
                    "Board applied: sleep disabled"@
                } else {
                    "Board applied: wake check every "@ + secs_text_spec(applied)
                },
                SettingId::AdvWindow => "Board applied: advertising "@ + secs_text_spec(applied)
                    + " per wake"@,
                SettingId::SleepNow => "Board sleeping for "@ + secs_text_spec(applied)
                    + " - it will disconnect now"@,
                _ => "Board applied: "@ + name,
            },
        ),
        AckStatus::UnknownId => Err(
            "Board rejected: it does not know the "@ + name + " setting"@,
        ),
        AckStatus::BadValue => Err("Board rejected: bad value for "@ + name),
        AckStatus::WioError => Err(
            "The board could not reach the WIO-E5 to set "@ + name + " (link error)."@,
        ),
        AckStatus::WioTimeout => Err(
            "The board could not reach the WIO-E5 to set "@ + name + " (no reply)."@,
        ),
        AckStatus::BadState => Err(
            "Board rejected "@ + name + ": not valid in its current state"@,
        ),
        AckStatus::Other(s) => Err("Board rejected "@ + name + ": status "@ + hex_byte(s)),
    }
}

/// What the board said about the last config write. On success this reports
/// the value it actually applied, which for the intervals may be a clamped
/// version of what was asked for; the on/off settings ack without a value.
/// A WIO status is a link fault between the ESP and the WIO-E5, not a
/// rejected value, and reads as one.
pub fn ack_message(ack: &Ack) -> (r: Result<String, String>)
    ensures
        match (r, ack_message_spec(*ack)) {
            (Ok(s), Ok(t)) => s@ == t,
            (Err(s), Err(t)) => s@ == t,
            _ => false,
        },
{
    let name = setting_name(ack.id);
    let applied: u32 = match ack.value_u32 {
        Some(v) => v,
        None => 0,
    };
    let mut out = String::new();
    match ack.status {
        AckStatus::Accepted => {
            match ack.id {
                SettingId::NotifyInterval => {
                    push_str(&mut out, "Board applied: notify interval ");
                    push_dec(&mut out, applied as u64);
                    push_str(&mut out, " ms");
                },
                SettingId::EspSleep => {
                    if applied == 0 {
                        push_str(&mut out, "Board applied: sleep disabled");
                    } else {
                        push_str(&mut out, "Board applied: wake check every ");
                        let t = secs_text(applied);
                        push_str(&mut out, t.as_str());
                    }
                },
                SettingId::AdvWindow => {
                    push_str(&mut out, "Board applied: advertising ");
                    let t = secs_text(applied);
                    push_str(&mut out, t.as_str());
                    push_str(&mut out, " per wake");
                },
                SettingId::SleepNow => {
                    push_str(&mut out, "Board sleeping for ");
                    let t = secs_text(applied);
                    push_str(&mut out, t.as_str());
                    push_str(&mut out, " - it will disconnect now");
                },
                _ => {
                    push_str(&mut out, "Board applied: ");
                    push_str(&mut out, name);
                },
            }
            assert(Ok::<Seq<char>, Seq<char>>(out@) =~= ack_message_spec(*ack));
            Ok(out)
        },
        AckStatus::UnknownId => {
            push_str(&mut out, "Board rejected: it does not know the ");
            push_str(&mut out, name);
            push_str(&mut out, " setting");
            assert(Err::<Seq<char>, Seq<char>>(out@) =~= ack_message_spec(*ack));
            Err(out)
        },
        AckStatus::BadValue => {
            push_str(&mut out, "Board rejected: bad value for ");
            push_str(&mut out, name);
            assert(Err::<Seq<char>, Seq<char>>(out@) =~= ack_message_spec(*ack));
            Err(out)
        },
        AckStatus::WioError => {
            push_str(&mut out, "The board could not reach the WIO-E5 to set ");
            push_str(&mut out, name);
            push_str(&mut out, " (link error).");
            assert(Err::<Seq<char>, Seq<char>>(out@) =~= ack_message_spec(*ack));
            Err(out)
        },
        AckStatus::WioTimeout => {
            push_str(&mut out, "The board could not reach the WIO-E5 to set ");
            push_str(&mut out, name);
            push_str(&mut out, " (no reply).");
            assert(Err::<Seq<char>, Seq<char>>(out@) =~= ack_message_spec(*ack));
            Err(out)
        },
        AckStatus::BadState => {
            push_str(&mut out, "Board rejected ");
            push_str(&mut out, name);
            push_str(&mut out, ": not valid in its current state");
            assert(Err::<Seq<char>, Seq<char>>(out@) =~= ack_message_spec(*ack));
            Err(out)
        },
        AckStatus::Other(s) => {
            push_str(&mut out, "Board rejected ");
            push_str(&mut out, name);
            push_str(&mut out, ": status ");
            push_hex_byte(&mut out, s);
            assert(Err::<Seq<char>, Seq<char>>(out@) =~= ack_message_spec(*ack));
            Err(out)
        },
    }
}

} // verus!
