//! When a relayed report was heard. The wall clock is the platform's, so
//! only the choice made around it is this library's.

use vstd::prelude::*;
use std::time::{Duration, SystemTime};

verus! {

#[verifier::external_type_specification]
#[verifier::external_body]
pub struct ExSystemTime(SystemTime);

/// `SystemTime::now`: the wall clock's reading. Nothing is claimed of it.
#[verifier::external_body]
fn wall_clock_now() -> SystemTime {
    SystemTime::now()
}

/// What `SystemTime::checked_sub` by `secs` whole seconds gives for `t`:
/// the time that long before `t`, or `None` where the platform cannot
/// represent it. A function of `t` and `secs` alone.
pub uninterp spec fn checked_back(t: SystemTime, secs: u64) -> Option<SystemTime>;

/// `SystemTime::checked_sub` by whole seconds: claimed to give what
/// [`checked_back`] names for `t` and `secs`, nothing more.
#[verifier::external_body]
fn wall_clock_back(t: &SystemTime, secs: u64) -> (r: Option<SystemTime>)
    ensures
        r == checked_back(*t, secs),
{
    t.checked_sub(Duration::from_secs(secs))
}

/// When a report the board aged by `age_s` was actually heard, given the
/// wall-clock reading `now`: `age_s` seconds before it, or `now` itself
/// when the platform cannot represent that time.
pub fn heard_from(now: SystemTime, age_s: u16) -> (r: SystemTime)
    ensures
        r == (match checked_back(now, age_s as u64) {
            Some(t) => t,
            None => now,
        }),
{
    match wall_clock_back(&now, age_s as u64) {
        Some(t) => t,
        None => now,
    }
}

/// When a report the board aged by `age_s` was actually heard: the wall
/// clock, read once, less the age - so a report replayed on connect lands
/// where it belongs in the past - or that reading itself when the platform
/// cannot represent the earlier time. Which reading the clock gives is the
/// platform's.
pub fn heard_at(age_s: u16) -> (r: SystemTime)
    ensures
        exists|now: SystemTime|
            r == (match #[trigger] checked_back(now, age_s as u64) {
                Some(t) => t,
                None => now,
            }),
{
    let now = wall_clock_now();
    heard_from(now, age_s)
}

} // verus!
