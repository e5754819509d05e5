//! How a span of seconds reads: a sleep interval, where zero means "off",
//! and a node's uptime, where zero is a real time.

use vstd::prelude::*;
use crate::fmt::{dec, push_dec, push_str};
use crate::float32::{f32_fixed, f32_fixed_exec};

verus! {

/// What [`secs_text`] renders: "off" for zero, whole seconds under a minute,
/// minutes (to the nearest, as a single-precision quotient prints with no
/// decimals) under an hour, whole hours when exact, and hours to one
/// decimal otherwise.
pub open spec fn secs_text_spec(s: nat) -> Seq<char> {
    if s == 0 {
        seq!['o', 'f', 'f']
    } else if s < 60 {
        dec(s) + seq![' ', 's']
    } else if s < 3600 {
        dec(f32_fixed(s, 60, 1)) + seq![' ', 'm', 'i', 'n']
    } else if s % 3600 == 0 {
        dec(s / 3600) + seq![' ', 'h']
    } else {
        let t = f32_fixed(s, 3600, 10);
        dec(t / 10) + seq!['.'] + dec(t % 10) + seq![' ', 'h']
    }
}

/// A duration in seconds as a short human phrase ("45 s", "5 min", "12 h").
/// Used wherever a sleep interval is shown or confirmed; zero reads "off".
pub fn secs_text(s: u32) -> (r: String)
    ensures
        r@ == secs_text_spec(s as nat),
{
    let mut out = String::new();
    if s == 0 {
        proof { reveal_strlit("off"); }
        push_str(&mut out, "off");
    } else if s < 60 {
        push_dec(&mut out, s as u64);
        proof { reveal_strlit(" s"); }
        push_str(&mut out, " s");
    } else if s < 3600 {
        let m = f32_fixed_exec(s as u64, 60, 1);
        push_dec(&mut out, m);
        proof { reveal_strlit(" min"); }
        push_str(&mut out, " min");
    } else if s % 3600 == 0 {
        push_dec(&mut out, (s / 3600) as u64);
        proof { reveal_strlit(" h"); }
        push_str(&mut out, " h");
    } else {
        let t = f32_fixed_exec(s as u64, 3600, 10);
        push_dec(&mut out, t / 10);
        proof { reveal_strlit("."); }
        push_str(&mut out, ".");
        push_dec(&mut out, t % 10);
        proof { reveal_strlit(" h"); }
        push_str(&mut out, " h");
    }
    assert(out@ =~= secs_text_spec(s as nat));
    out
}

/// What [`uptime_text`] renders: seconds under a minute (zero included),
/// whole minutes under an hour, whole hours beyond, each rounded down.
pub open spec fn uptime_text_spec(secs: nat) -> Seq<char> {
    if secs < 60 {
        dec(secs) + seq![' ', 's']
    } else if secs < 3600 {
        dec(secs / 60) + seq![' ', 'm', 'i', 'n']
    } else {
        dec(secs / 3600) + seq![' ', 'h']
    }
}

/// A node's uptime in the units it reads best in. Unlike [`secs_text`], zero
/// is a time here ("0 s"), since a node that has just booted is exactly when
/// an uptime is worth reading.
pub fn uptime_text(secs: u16) -> (r: String)
    ensures
        r@ == uptime_text_spec(secs as nat),
{
    let mut out = String::new();
    if secs < 60 {
        push_dec(&mut out, secs as u64);
        proof { reveal_strlit(" s"); }
        push_str(&mut out, " s");
    } else if secs < 3600 {
        push_dec(&mut out, (secs / 60) as u64);
        proof { reveal_strlit(" min"); }
        push_str(&mut out, " min");
    } else {
        push_dec(&mut out, (secs / 3600) as u64);
        proof { reveal_strlit(" h"); }
        push_str(&mut out, " h");
    }
    assert(out@ =~= uptime_text_spec(secs as nat));
    out
}

} // verus!
